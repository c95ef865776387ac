use tiny_discord_bot::fuzzy::{entry_distance, pattern_key, EntryDistance, Fuzzy};

#[derive(Debug, PartialEq)]
enum Kind {
    Banning,
    Mods,
}

fn edits(d: EntryDistance) -> Option<usize> {
    match d {
        EntryDistance::Contained => None,
        EntryDistance::Edits(n) => Some(n),
    }
}

#[test]
fn contained_phrases() {
    assert!(matches!(entry_distance("call the mods now", "mods"), EntryDistance::Contained));
    assert!(matches!(entry_distance("anything", ""), EntryDistance::Contained));
}

#[test]
fn edit_distance_counts_transpositions() {
    assert_eq!(edits(entry_distance("mdos", "mods")), Some(1));
    assert_eq!(edits(entry_distance("ab", "bca")), Some(2));
    assert_eq!(edits(entry_distance("", "bob")), Some(3));
}

#[test]
fn pattern_key_is_the_largest_or_zero() {
    assert_eq!(pattern_key(&vec![]), 0);
    assert_eq!(pattern_key(&vec![3, 9, 2]), 9);
    assert_eq!(pattern_key(&vec![0, 0]), 0);
}

#[test]
fn add_keeps_texts() {
    let mut f = Fuzzy::new();
    f.add(&Kind::Mods, vec!["bob", "mods"]);
    f.add(&Kind::Banning, vec![1, 2]);
    let p = f.patterns();
    assert_eq!(p.len(), 2);
    assert_eq!(*p[0].id, Kind::Mods);
    assert_eq!(p[0].entries, vec!["bob".to_string(), "mods".to_string()]);
    assert_eq!(p[1].entries, vec!["1".to_string(), "2".to_string()]);
}

#[test]
fn add_varied_adds_texts_without_apostrophes() {
    let mut f = Fuzzy::new();
    f.add_varied(&Kind::Banning, vec!["i'm banning you", "you're getting banned"]);
    let p = f.patterns();
    assert_eq!(
        p[0].entries,
        vec![
            "i'm banning you".to_string(),
            "im banning you".to_string(),
            "you're getting banned".to_string(),
            "youre getting banned".to_string(),
        ]
    );
    for (i, e) in p[0].entries.iter().enumerate() {
        if i % 2 == 1 {
            assert!(!e.contains('\''));
        }
    }
}

#[test]
fn best_match_takes_first_best_over_threshold() {
    let mut f = Fuzzy::new();
    f.add(&Kind::Banning, vec!["a"]);
    f.add(&Kind::Mods, vec!["b"]);
    f.add(&Kind::Banning, vec!["c"]);
    let (p, s) = f.best_match_by_keys(&vec![5, 9, 9], 3).unwrap();
    assert_eq!(s, 9);
    assert_eq!(*p.id, Kind::Mods);
    assert!(f.best_match_by_keys(&vec![5, 9, 9], 10).is_none());
    assert!(f.best_match_by_keys(&vec![7, 7, 7], 7).is_none());
    let (p, s) = f.best_match_by_keys(&vec![7, 7, 7], 6).unwrap();
    assert_eq!((s, p.entries[0].as_str()), (7, "a"));
    let (p, s) = f.best_match_by_keys(&vec![0, 0, 0], -1).unwrap();
    assert_eq!((s, p.entries[0].as_str()), (0, "a"));
    assert!(f.best_match_by_keys(&vec![0, 0, 0], 0).is_none());
    let empty: Fuzzy<Kind> = Fuzzy::new();
    assert!(empty.best_match_by_keys(&vec![], 0).is_none());
}

#[test]
fn float_keys_order_like_scores() {
    let scores = [0.0f32, 0.2, 0.3, 0.75, 1.0];
    for w in scores.windows(2) {
        assert!(w[0].to_bits() < w[1].to_bits());
    }
}

#[test]
fn add_texts_keeps_texts_exactly() {
    let (x, y) = (1u32, 2u32);
    let mut f = Fuzzy::new();
    f.add_texts(&x, vec!["abc"]);
    f.add_texts(&y, vec!["abc"]);
    let p = f.patterns();
    assert_eq!(p.len(), 2);
    assert_eq!(*p[0].id, 1);
    assert_eq!(p[0].entries, vec!["abc".to_string()]);
    let (best, s) = f.best_match_by_keys(&vec![7, 7], 3).unwrap();
    assert_eq!((*best.id, s), (1, 7));
    assert_eq!(best.entries, vec!["abc".to_string()]);
}

#[test]
fn add_varied_texts_pairs_each_entry_with_its_apostrophe_free_form() {
    let x = 1u32;
    let mut f = Fuzzy::new();
    f.add_varied_texts(&x, vec!["i'm banning you", "bob"]);
    let p = f.patterns();
    assert_eq!(p.len(), 1);
    assert_eq!(*p[0].id, 1);
    assert_eq!(
        p[0].entries,
        vec![
            "i'm banning you".to_string(),
            "im banning you".to_string(),
            "bob".to_string(),
            "bob".to_string(),
        ]
    );
}
