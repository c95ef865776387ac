//! Fuzzy matching of a text against named groups of phrases.
//!
//! A score of a phrase against a text is a fraction in `[0, 1]` that the
//! caller computes in floating point from [`entry_distance`]; this module
//! takes each score as the bit pattern of the non-negative `f32` it is,
//! which orders the same way as the number, and does the choosing.
use vstd::prelude::*;
use crate::text::{chars_of, contains_chars, contains_seq, remove_char, string_of, without_char};

verus! {

broadcast use vstd::string::group_string_axioms;

/// A group of phrases that all stand for `id`.
#[derive(Debug, Clone)]
pub struct FuzzyPattern<'a, Enum> {
    pub id: &'a Enum,
    pub entries: Vec<String>,
}

/// A set of phrase groups to match texts against.
#[derive(Debug)]
pub struct Fuzzy<'a, Enum> {
    patterns: Vec<FuzzyPattern<'a, Enum>>,
}

/// How far a phrase is from a text.
pub enum EntryDistance {
    /// The phrase occurs in the text.
    Contained,
    /// The number of edits that turn the text into the phrase.
    Edits(usize),
}

/// The Damerau-Levenshtein distance that `strsim` computes between two
/// strings, taken character by character.
pub uninterp spec fn damerau_levenshtein_distance(a: Seq<char>, b: Seq<char>) -> usize;

/// Calls `strsim::damerau_levenshtein`. Its result is named, not stated: it
/// is the edit distance with transpositions between the two strings.
#[verifier::external_body]
fn damerau_levenshtein(a: &str, b: &str) -> (d: usize)
    ensures
        d == damerau_levenshtein_distance(a@, b@),
{
    strsim::damerau_levenshtein(a, b)
}

/// How far `entry` is from `text`: contained, or the edit distance.
pub fn entry_distance(text: &str, entry: &str) -> (r: EntryDistance)
    ensures
        contains_seq(text@, entry@) ==> r is Contained,
        !contains_seq(text@, entry@) ==> r == EntryDistance::Edits(
            damerau_levenshtein_distance(text@, entry@),
        ),
{
    let t = chars_of(text);
    let e = chars_of(entry);
    if contains_chars(&t, &e) {
        EntryDistance::Contained
    } else {
        EntryDistance::Edits(damerau_levenshtein(text, entry))
    }
}

/// `i` is the first position holding the largest key.
pub open spec fn is_first_best(keys: Seq<u32>, i: int) -> bool {
    &&& 0 <= i < keys.len()
    &&& forall|j: int| 0 <= j < keys.len() ==> #[trigger] keys[j] <= keys[i]
    &&& forall|j: int| 0 <= j < i ==> #[trigger] keys[j] < keys[i]
}

/// Law: the first best position is the smallest position holding the
/// largest key, and no other position is first best.
pub proof fn lemma_first_best_is_least_max(keys: Seq<u32>, i: int, other: int)
    ensures
        is_first_best(keys, i) <==> {
            &&& 0 <= i < keys.len()
            &&& forall|j: int| 0 <= j < keys.len() ==> #[trigger] keys[j] <= keys[i]
            &&& forall|j: int| 0 <= j < i ==> #[trigger] keys[j] != keys[i]
        },
        is_first_best(keys, i) && is_first_best(keys, other) ==> i == other,
{
    if is_first_best(keys, i) && is_first_best(keys, other) {
        if other < i {
            assert(keys[other] < keys[i]);
            assert(keys[i] <= keys[other]);
        } else if i < other {
            assert(keys[i] < keys[other]);
            assert(keys[other] <= keys[i]);
        }
    }
}

/// The best score of a group: the largest of zero and its phrases' scores.
pub fn pattern_key(entry_keys: &Vec<u32>) -> (r: u32)
    ensures
        forall|j: int| 0 <= j < entry_keys@.len() ==> #[trigger] entry_keys@[j] <= r,
        r == 0 || exists|j: int| 0 <= j < entry_keys@.len() && entry_keys@[j] == r,
{
    let mut best: u32 = 0;
    let n = entry_keys.len();
    for i in 0..n
        invariant
            n == entry_keys@.len(),
            forall|j: int| 0 <= j < i ==> #[trigger] entry_keys@[j] <= best,
            best == 0 || exists|j: int| 0 <= j < i && entry_keys@[j] == best,
    {
        if entry_keys[i] > best {
            best = entry_keys[i];
        }
    }
    best
}

impl<'a, Enum> Fuzzy<'a, Enum> {
    /// The phrase groups, in the order they were added.
    pub closed spec fn spec_patterns(&self) -> Seq<FuzzyPattern<'a, Enum>> {
        self.patterns@
    }

    /// No phrase groups.
    pub fn new() -> (r: Self)
        ensures
            r.spec_patterns() == Seq::<FuzzyPattern<'a, Enum>>::empty(),
    {
        Self { patterns: Vec::new() }
    }

    /// The phrase groups, in the order they were added.
    pub fn patterns(&self) -> (r: &Vec<FuzzyPattern<'a, Enum>>)
        ensures
            r@ == self.spec_patterns(),
    {
        &self.patterns
    }

    /// Adds a group for `id` whose phrases are the texts of `entries`.
    pub fn add<S: std::fmt::Display>(&mut self, id: &'a Enum, entries: Vec<S>)
        ensures
            final(self).spec_patterns().len() == old(self).spec_patterns().len() + 1,
            final(self).spec_patterns().drop_last() == old(self).spec_patterns(),
            final(self).spec_patterns().last().id == id,
            final(self).spec_patterns().last().entries@.len() == entries@.len(),
            forall|i: int|
                0 <= i < entries@.len() ==> vstd::string::to_string_from_display_ensures::<S>(
                    &entries@[i],
                    #[trigger] final(self).spec_patterns().last().entries@[i],
                ),
    {
        let n = entries.len();
        let mut out: Vec<String> = Vec::new();
        for i in 0..n
            invariant
                n == entries@.len(),
                out@.len() == i,
                forall|j: int|
                    0 <= j < i ==> vstd::string::to_string_from_display_ensures::<S>(
                        &entries@[j],
                        #[trigger] out@[j],
                    ),
        {
            out.push(entries[i].to_string());
        }
        self.patterns.push(FuzzyPattern { id, entries: out });
        assert(self.spec_patterns().drop_last() =~= old(self).spec_patterns());
    }

    /// Adds a group for `id` holding, for each entry, its text and its text
    /// without apostrophes.
    pub fn add_varied<S: std::fmt::Display>(&mut self, id: &'a Enum, entries: Vec<S>)
        ensures
            final(self).spec_patterns().len() == old(self).spec_patterns().len() + 1,
            final(self).spec_patterns().drop_last() == old(self).spec_patterns(),
            final(self).spec_patterns().last().id == id,
            final(self).spec_patterns().last().entries@.len() == 2 * entries@.len(),
            forall|i: int|
                0 <= i < entries@.len() ==> vstd::string::to_string_from_display_ensures::<S>(
                    &entries@[i],
                    #[trigger] final(self).spec_patterns().last().entries@[2 * i],
                ),
            forall|i: int|
                0 <= i < entries@.len() ==> (#[trigger] final(self).spec_patterns().last().entries@[2 * i + 1])@ == without_char(
                    final(self).spec_patterns().last().entries@[2 * i]@,
                    '\'',
                ),
    {
        let n = entries.len();
        let mut out: Vec<String> = Vec::new();
        for i in 0..n
            invariant
                n == entries@.len(),
                out@.len() == 2 * i,
                forall|j: int|
                    0 <= j < i ==> vstd::string::to_string_from_display_ensures::<S>(
                        &entries@[j],
                        #[trigger] out@[2 * j],
                    ),
                forall|j: int|
                    0 <= j < i ==> (#[trigger] out@[2 * j + 1])@ == without_char(
                        out@[2 * j]@,
                        '\'',
                    ),
        {
            let text = entries[i].to_string();
            let stripped = string_of(&remove_char(&chars_of(text.as_str()), '\''));
            out.push(text);
            out.push(stripped);
            assert(out@[2 * i as int] == text);
        }
        self.patterns.push(FuzzyPattern { id, entries: out });
        assert(self.spec_patterns().drop_last() =~= old(self).spec_patterns());
    }

    /// Adds a group for `id` whose phrases are exactly `entries`.
    pub fn add_texts(&mut self, id: &'a Enum, entries: Vec<&str>)
        ensures
            final(self).spec_patterns().len() == old(self).spec_patterns().len() + 1,
            final(self).spec_patterns().drop_last() == old(self).spec_patterns(),
            final(self).spec_patterns().last().id == id,
            final(self).spec_patterns().last().entries@.len() == entries@.len(),
            forall|i: int|
                0 <= i < entries@.len() ==> (#[trigger] final(self).spec_patterns().last().entries@[i])@
                    == entries@[i]@,
    {
        let n = entries.len();
        let mut out: Vec<String> = Vec::new();
        for i in 0..n
            invariant
                n == entries@.len(),
                out@.len() == i,
                forall|j: int| 0 <= j < i ==> (#[trigger] out@[j])@ == entries@[j]@,
        {
            out.push(string_of(&chars_of(entries[i])));
        }
        self.patterns.push(FuzzyPattern { id, entries: out });
        assert(self.spec_patterns().drop_last() =~= old(self).spec_patterns());
    }

    /// Adds a group for `id` holding, for each entry in order, the entry
    /// itself and then the entry without its apostrophes.
    pub fn add_varied_texts(&mut self, id: &'a Enum, entries: Vec<&str>)
        ensures
            final(self).spec_patterns().len() == old(self).spec_patterns().len() + 1,
            final(self).spec_patterns().drop_last() == old(self).spec_patterns(),
            final(self).spec_patterns().last().id == id,
            final(self).spec_patterns().last().entries@.len() == 2 * entries@.len(),
            forall|i: int|
                0 <= i < entries@.len() ==> (#[trigger] final(self).spec_patterns().last().entries@[2
                    * i])@ == entries@[i]@,
            forall|i: int|
                0 <= i < entries@.len() ==> (#[trigger] final(self).spec_patterns().last().entries@[2
                    * i + 1])@ == without_char(entries@[i]@, '\''),
    {
        let n = entries.len();
        let mut out: Vec<String> = Vec::new();
        for i in 0..n
            invariant
                n == entries@.len(),
                out@.len() == 2 * i,
                forall|j: int| 0 <= j < i ==> (#[trigger] out@[2 * j])@ == entries@[j]@,
                forall|j: int|
                    0 <= j < i ==> (#[trigger] out@[2 * j + 1])@ == without_char(entries@[j]@, '\''),
        {
            let chars = chars_of(entries[i]);
            let text = string_of(&chars);
            let stripped = string_of(&remove_char(&chars, '\''));
            out.push(text);
            out.push(stripped);
            assert(out@[2 * i as int]@ == entries@[i as int]@);
            assert(out@[2 * i + 1]@ == without_char(entries@[i as int]@, '\''));
        }
        self.patterns.push(FuzzyPattern { id, entries: out });
        assert(self.spec_patterns().drop_last() =~= old(self).spec_patterns());
    }

    /// Picks the group with the best score; `keys[i]` is the score of the
    /// `i`-th group. The first of equally good groups wins, and a best score
    /// that is not over `threshold` gives `None`. A negative threshold lies
    /// below every score.
    pub fn best_match_by_keys(&self, keys: &Vec<u32>, threshold: i64) -> (r: Option<
        (&FuzzyPattern<'a, Enum>, u32),
    >)
        requires
            keys@.len() == self.spec_patterns().len(),
        ensures
            r is None <==> (keys@.len() == 0 || forall|j: int|
                0 <= j < keys@.len() ==> #[trigger] keys@[j] <= threshold),
            match r {
                Some((p, s)) => exists|i: int|
                    is_first_best(keys@, i) && *p == self.spec_patterns()[i] && s == keys@[i] && s
                        > threshold,
                None => true,
            },
    {
        let n = keys.len();
        let mut best: Option<usize> = None;
        for i in 0..n
            invariant
                n == keys@.len(),
                n == self.patterns@.len(),
                i == 0 <==> best is None,
                best matches Some(b) ==> is_first_best(keys@.take(i as int), b as int),
        {
            match best {
                None => {
                    best = Some(i);
                },
                Some(b) => {
                    if keys[i] > keys[b] {
                        best = Some(i);
                    }
                },
            }
            assert(keys@.take(i + 1).take(i as int) == keys@.take(i as int));
        }
        match best {
            None => None,
            Some(b) => {
                assert(keys@.take(n as int) == keys@);
                let key: u32 = keys[b];
                if key as i64 > threshold {
                    Some((&self.patterns[b], keys[b]))
                } else {
                    None
                }
            },
        }
    }
}

} // verus!
