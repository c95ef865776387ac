use tiny_discord_bot::autocomplete::{order_by_keys, stable_order};

#[test]
fn stable_ascending_order() {
    let keys = vec![5u64, 1, 5, 0, 1];
    assert_eq!(stable_order(&keys), vec![3, 1, 4, 0, 2]);
    let names: Vec<String> = ["e", "b", "f", "a", "c"].iter().map(|s| s.to_string()).collect();
    assert_eq!(order_by_keys(&names, &keys), vec!["a", "b", "c", "e", "f"]);
}

#[test]
fn order_matches_std_stable_sort_by_float() {
    let names: Vec<String> = ["bob", "bobby", "alice", "rob", "b"].iter().map(|s| s.to_string()).collect();
    let partial = "bo";
    let scores: Vec<f64> = names.iter().map(|n| strsim::jaro_winkler(n, partial)).collect();
    let keys: Vec<u64> = scores.iter().map(|s| s.to_bits()).collect();
    let mut expected = names.clone();
    expected.sort_by(|a, b| {
        strsim::jaro_winkler(a, partial).partial_cmp(&strsim::jaro_winkler(b, partial)).unwrap()
    });
    assert_eq!(order_by_keys(&names, &keys), expected);
}

#[test]
fn empty_input() {
    assert!(stable_order(&vec![]).is_empty());
    assert!(order_by_keys(&vec![], &vec![]).is_empty());
}
