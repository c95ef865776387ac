//! Character-level text operations on which the bot's rules are built:
//! trimming, ASCII case folding, filtering, searching, and the decimal
//! reading and writing of `u64` values.
use vstd::prelude::*;

verus! {

broadcast use vstd::string::group_string_axioms;

// ---------------------------------------------------------------------
// Character classes
// ---------------------------------------------------------------------

/// A character in the ASCII range.
pub open spec fn is_ascii_char(c: char) -> bool {
    (c as u32) < 128
}

/// Every character of `s` is ASCII.
pub open spec fn all_ascii(s: Seq<char>) -> bool {
    forall|i: int| 0 <= i < s.len() ==> is_ascii_char(#[trigger] s[i])
}

/// The Unicode `White_Space` property, which `char::is_whitespace` and
/// `str::trim` go by.
pub open spec fn is_whitespace(c: char) -> bool {
    let u = c as u32;
    ||| 0x9 <= u <= 0xD
    ||| u == 0x20
    ||| u == 0x85
    ||| u == 0xA0
    ||| u == 0x1680
    ||| 0x2000 <= u <= 0x200A
    ||| u == 0x2028
    ||| u == 0x2029
    ||| u == 0x202F
    ||| u == 0x205F
    ||| u == 0x3000
}

/// ASCII lower-casing of one character: `A`..=`Z` become `a`..=`z`,
/// everything else is unchanged.
pub open spec fn ascii_lower(c: char) -> char {
    if 'A' <= c <= 'Z' {
        (((c as u32) + 32) as u8) as char
    } else {
        c
    }
}

// ---------------------------------------------------------------------
// Sequence-level definitions
// ---------------------------------------------------------------------

/// `s` without its leading whitespace.
pub open spec fn trim_start(s: Seq<char>) -> Seq<char>
    decreases s.len(),
{
    if s.len() > 0 && is_whitespace(s[0]) {
        trim_start(s.drop_first())
    } else {
        s
    }
}

/// `s` without its trailing whitespace.
pub open spec fn trim_end(s: Seq<char>) -> Seq<char>
    decreases s.len(),
{
    if s.len() > 0 && is_whitespace(s.last()) {
        trim_end(s.drop_last())
    } else {
        s
    }
}

/// `s` without leading and trailing whitespace (what `str::trim` returns).
pub open spec fn trim(s: Seq<char>) -> Seq<char> {
    trim_end(trim_start(s))
}

/// `s` with every occurrence of `c` removed.
pub open spec fn without_char(s: Seq<char>, c: char) -> Seq<char>
    decreases s.len(),
{
    if s.len() == 0 {
        s
    } else {
        let r = without_char(s.drop_last(), c);
        if s.last() == c {
            r
        } else {
            r.push(s.last())
        }
    }
}

/// `s` with every non-ASCII character removed.
pub open spec fn ascii_only(s: Seq<char>) -> Seq<char>
    decreases s.len(),
{
    if s.len() == 0 {
        s
    } else {
        let r = ascii_only(s.drop_last());
        if is_ascii_char(s.last()) {
            r.push(s.last())
        } else {
            r
        }
    }
}

/// `p` occurs in `s` starting at index `i`.
pub open spec fn occurs_at(s: Seq<char>, p: Seq<char>, i: int) -> bool {
    &&& 0 <= i
    &&& i + p.len() <= s.len()
    &&& s.subrange(i, i + p.len()) == p
}

/// `p` occurs somewhere in `s` as a contiguous piece.
pub open spec fn contains_seq(s: Seq<char>, p: Seq<char>) -> bool {
    exists|i: int| occurs_at(s, p, i)
}

/// `s` begins with `p`.
pub open spec fn starts_with(s: Seq<char>, p: Seq<char>) -> bool {
    occurs_at(s, p, 0)
}

/// `s` ends with `p`.
pub open spec fn ends_with(s: Seq<char>, p: Seq<char>) -> bool {
    p.len() <= s.len() && occurs_at(s, p, s.len() - p.len())
}

/// `s` with every occurrence of the non-empty `pat` replaced by `rep`,
/// occurrences taken from the left without overlapping (what `str::replace`
/// returns).
pub open spec fn replace_all(s: Seq<char>, pat: Seq<char>, rep: Seq<char>) -> Seq<char>
    recommends
        pat.len() > 0,
    decreases s.len(),
{
    if pat.len() == 0 || s.len() < pat.len() {
        s
    } else if starts_with(s, pat) {
        rep + replace_all(s.skip(pat.len() as int), pat, rep)
    } else {
        seq![s[0]] + replace_all(s.skip(1), pat, rep)
    }
}

/// `s` with every character that occurs in `cs` replaced by `rep` (what
/// `str::replace` returns for a pattern that is a list of characters).
pub open spec fn replace_chars(s: Seq<char>, cs: Seq<char>, rep: Seq<char>) -> Seq<char>
    decreases s.len(),
{
    if s.len() == 0 {
        s
    } else if cs.contains(s[0]) {
        rep + replace_chars(s.skip(1), cs, rep)
    } else {
        seq![s[0]] + replace_chars(s.skip(1), cs, rep)
    }
}

/// Number of characters of `s` before the first `c` (all of them when
/// `c` does not occur).
pub open spec fn len_before(s: Seq<char>, c: char) -> nat
    decreases s.len(),
{
    if s.len() == 0 || s[0] == c {
        0
    } else {
        1 + len_before(s.drop_first(), c)
    }
}

/// The part of `s` before the first `c`: the first piece that
/// `str::split(c)` yields.
pub open spec fn before_char(s: Seq<char>, c: char) -> Seq<char> {
    s.take(len_before(s, c) as int)
}

// ---------------------------------------------------------------------
// Decimal numbers
// ---------------------------------------------------------------------

/// An ASCII decimal digit.
pub open spec fn is_digit(c: char) -> bool {
    '0' <= c <= '9'
}

/// Every character of `s` is an ASCII decimal digit.
pub open spec fn all_digits(s: Seq<char>) -> bool {
    forall|i: int| 0 <= i < s.len() ==> is_digit(#[trigger] s[i])
}

/// The value of a string of decimal digits.
pub open spec fn digits_value(s: Seq<char>) -> int
    decreases s.len(),
{
    if s.len() == 0 {
        0
    } else {
        10 * digits_value(s.drop_last()) + ((s.last() as u32) - ('0' as u32))
    }
}

/// The digits that `u64::from_str` reads: `s` without one leading `+`.
pub open spec fn unsigned_digits(s: Seq<char>) -> Seq<char> {
    if s.len() > 0 && s[0] == '+' {
        s.drop_first()
    } else {
        s
    }
}

/// What `str::parse::<u64>` gives for `s`: an optional `+`, then at least
/// one decimal digit, and a value that fits in `u64`.
pub open spec fn parsed_u64(s: Seq<char>) -> Option<u64> {
    let d = unsigned_digits(s);
    if d.len() > 0 && all_digits(d) && digits_value(d) <= u64::MAX {
        Some(digits_value(d) as u64)
    } else {
        None
    }
}

/// The digit character for a value below ten.
pub open spec fn digit_char(d: nat) -> char {
    ((d + 48) as u8) as char
}

/// The decimal representation of `n`, without sign or leading zeros.
pub open spec fn decimal(n: nat) -> Seq<char>
    decreases n,
{
    if n < 10 {
        seq![digit_char(n)]
    } else {
        decimal(n / 10).push(digit_char(n % 10))
    }
}

// ---------------------------------------------------------------------
// Executable operations
// ---------------------------------------------------------------------

/// Appends `c` to `s`; calls std's `String::push`, which appends one
/// character.
#[verifier::external_body]
pub(crate) fn push_char(s: &mut String, c: char)
    ensures
        final(s)@ == old(s)@.push(c),
{
    s.push(c);
}

/// The characters of `s`, in order.
pub fn chars_of(s: &str) -> (v: Vec<char>)
    ensures
        v@ == s@,
{
    let mut v: Vec<char> = Vec::new();
    for c in it: s.chars()
        invariant
            v@ == it.seq().take(it.index() as int),
            it.seq() == s@,
    {
        v.push(c);
    }
    v
}

/// A `String` holding exactly the characters of `v`.
pub fn string_of(v: &Vec<char>) -> (s: String)
    ensures
        s@ == v@,
{
    let mut s = String::new();
    let n = v.len();
    for i in 0..n
        invariant
            n == v@.len(),
            s@ == v@.take(i as int),
    {
        push_char(&mut s, v[i]);
        assert(v@.take(i + 1) == v@.take(i as int).push(v@[i as int]));
    }
    assert(v@.take(n as int) == v@);
    s
}

/// Appends the characters of `t` to `s`.
pub fn push_str(s: &mut String, t: &str)
    ensures
        final(s)@ == old(s)@ + t@,
{
    let v = chars_of(t);
    let n = v.len();
    for i in 0..n
        invariant
            n == v@.len(),
            v@ == t@,
            s@ == old(s)@ + v@.take(i as int),
    {
        push_char(s, v[i]);
        assert(v@.take(i + 1) == v@.take(i as int).push(v@[i as int]));
    }
    assert(v@.take(n as int) == v@);
}

/// Whether the character is whitespace, as `char::is_whitespace` decides.
pub fn char_is_whitespace(c: char) -> (b: bool)
    ensures
        b == is_whitespace(c),
{
    let u = c as u32;
    (0x9 <= u && u <= 0xD) || u == 0x20 || u == 0x85 || u == 0xA0 || u == 0x1680 || (0x2000 <= u
        && u <= 0x200A) || u == 0x2028 || u == 0x2029 || u == 0x202F || u == 0x205F || u == 0x3000
}

/// Whether the character is ASCII.
pub fn char_is_ascii(c: char) -> (b: bool)
    ensures
        b == is_ascii_char(c),
{
    (c as u32) < 128
}

/// ASCII lower-casing of one character.
pub fn char_ascii_lower(c: char) -> (r: char)
    ensures
        r == ascii_lower(c),
{
    if 'A' <= c && c <= 'Z' {
        let u = (c as u32) + 32;
        let b: u8 = u as u8;
        assert(b as u32 == u);
        b as char
    } else {
        c
    }
}

/// The characters of `v` without leading and trailing whitespace.
pub fn trim_chars(v: &Vec<char>) -> (r: Vec<char>)
    ensures
        r@ == trim(v@),
{
    let n = v.len();
    let mut start: usize = 0;
    assert(v@.skip(0) == v@);
    while start < n && char_is_whitespace(v[start])
        invariant
            n == v@.len(),
            start <= n,
            trim_start(v@) == trim_start(v@.skip(start as int)),
        decreases n - start,
    {
        assert(v@.skip(start as int).drop_first() == v@.skip(start + 1));
        start = start + 1;
    }
    let ghost mid = v@.skip(start as int);
    assert(trim_start(v@) == mid);
    let mut end: usize = n;
    while end > start && char_is_whitespace(v[end - 1])
        invariant
            n == v@.len(),
            start <= end <= n,
            mid == v@.skip(start as int),
            trim_end(mid) == trim_end(v@.subrange(start as int, end as int)),
        decreases end - start,
    {
        assert(v@.subrange(start as int, end as int).drop_last() == v@.subrange(
            start as int,
            end - 1,
        ));
        end = end - 1;
    }
    let mut r: Vec<char> = Vec::new();
    let mut i = start;
    while i < end
        invariant
            n == v@.len(),
            start <= i <= end <= n,
            r@ == v@.subrange(start as int, i as int),
        decreases end - i,
    {
        r.push(v[i]);
        assert(v@.subrange(start as int, i + 1) == v@.subrange(start as int, i as int).push(
            v@[i as int],
        ));
        i = i + 1;
    }
    assert(trim_end(mid) == v@.subrange(start as int, end as int));
    r
}

/// The characters of `v` with every `c` removed.
pub fn remove_char(v: &Vec<char>, c: char) -> (r: Vec<char>)
    ensures
        r@ == without_char(v@, c),
{
    let n = v.len();
    let mut r: Vec<char> = Vec::new();
    for i in 0..n
        invariant
            n == v@.len(),
            r@ == without_char(v@.take(i as int), c),
    {
        assert(v@.take(i + 1).drop_last() == v@.take(i as int));
        if v[i] != c {
            r.push(v[i]);
        }
    }
    assert(v@.take(n as int) == v@);
    r
}

/// The characters of `v` with every non-ASCII character removed.
pub fn keep_ascii(v: &Vec<char>) -> (r: Vec<char>)
    ensures
        r@ == ascii_only(v@),
{
    let n = v.len();
    let mut r: Vec<char> = Vec::new();
    for i in 0..n
        invariant
            n == v@.len(),
            r@ == ascii_only(v@.take(i as int)),
    {
        assert(v@.take(i + 1).drop_last() == v@.take(i as int));
        if char_is_ascii(v[i]) {
            r.push(v[i]);
        }
    }
    assert(v@.take(n as int) == v@);
    r
}

/// Law: what is left after removing the non-ASCII characters is ASCII.
pub proof fn lemma_ascii_only_is_ascii(s: Seq<char>)
    ensures
        all_ascii(ascii_only(s)),
    decreases s.len(),
{
    if s.len() > 0 {
        lemma_ascii_only_is_ascii(s.drop_last());
        let r = ascii_only(s.drop_last());
        if is_ascii_char(s.last()) {
            assert forall|i: int| 0 <= i < r.push(s.last()).len() implies is_ascii_char(
                #[trigger] r.push(s.last())[i],
            ) by {
                if i < r.len() {
                    assert(r.push(s.last())[i] == r[i]);
                }
            }
        }
    }
}

/// Law: a text without non-ASCII characters is kept as it is.
pub proof fn lemma_ascii_only_keeps_ascii(s: Seq<char>)
    requires
        all_ascii(s),
    ensures
        ascii_only(s) == s,
    decreases s.len(),
{
    if s.len() > 0 {
        assert(is_ascii_char(s[s.len() - 1]));
        lemma_ascii_only_keeps_ascii(s.drop_last());
        assert(s.drop_last().push(s.last()) == s);
    }
}

/// Law: removing a character leaves no occurrence of it.
pub proof fn lemma_without_char_absent(s: Seq<char>, c: char)
    ensures
        !without_char(s, c).contains(c),
    decreases s.len(),
{
    if s.len() > 0 {
        lemma_without_char_absent(s.drop_last(), c);
        let r = without_char(s.drop_last(), c);
        if s.last() != c {
            assert forall|i: int| 0 <= i < r.push(s.last()).len() implies r.push(s.last())[i] != c by {
                if i < r.len() {
                    assert(r.push(s.last())[i] == r[i]);
                }
            }
        }
    }
}

/// Law: removing the non-ASCII characters works piece by piece: on a text
/// made of two parts it gives the two parts' results one after the other,
/// and a single character is kept exactly when its code is below 128.
pub proof fn lemma_ascii_only_filters(s1: Seq<char>, s2: Seq<char>, c: char)
    ensures
        ascii_only(s1 + s2) == ascii_only(s1) + ascii_only(s2),
        ascii_only(seq![c]) == (if (c as u32) < 128 {
            seq![c]
        } else {
            Seq::<char>::empty()
        }),
    decreases s2.len(),
{
    if s2.len() == 0 {
        assert(s1 + s2 =~= s1);
        assert(ascii_only(s1) + ascii_only(s2) =~= ascii_only(s1));
    } else {
        lemma_ascii_only_filters(s1, s2.drop_last(), c);
        assert((s1 + s2).drop_last() =~= s1 + s2.drop_last());
        assert((s1 + s2).last() == s2.last());
        if is_ascii_char(s2.last()) {
            assert(ascii_only(s1) + ascii_only(s2.drop_last()).push(s2.last()) =~= (ascii_only(s1)
                + ascii_only(s2.drop_last())).push(s2.last()));
        }
    }
    assert(seq![c].drop_last() =~= Seq::<char>::empty());
    assert(seq![c].last() == c);
    assert(ascii_only(Seq::<char>::empty()) =~= Seq::<char>::empty());
    assert(Seq::<char>::empty().push(c) =~= seq![c]);
}

/// Law: removing a character works piece by piece: on a text made of two
/// parts it gives the two parts' results one after the other, and a single
/// character is dropped exactly when it is the removed one.
pub proof fn lemma_without_char_filters(s1: Seq<char>, s2: Seq<char>, c: char, x: char)
    ensures
        without_char(s1 + s2, c) == without_char(s1, c) + without_char(s2, c),
        without_char(seq![x], c) == (if x == c {
            Seq::<char>::empty()
        } else {
            seq![x]
        }),
    decreases s2.len(),
{
    if s2.len() == 0 {
        assert(s1 + s2 =~= s1);
        assert(without_char(s1, c) + without_char(s2, c) =~= without_char(s1, c));
    } else {
        lemma_without_char_filters(s1, s2.drop_last(), c, x);
        assert((s1 + s2).drop_last() =~= s1 + s2.drop_last());
        assert((s1 + s2).last() == s2.last());
        if s2.last() != c {
            assert(without_char(s1, c) + without_char(s2.drop_last(), c).push(s2.last()) =~= (
            without_char(s1, c) + without_char(s2.drop_last(), c)).push(s2.last()));
        }
    }
    assert(seq![x].drop_last() =~= Seq::<char>::empty());
    assert(seq![x].last() == x);
    assert(without_char(Seq::<char>::empty(), c) =~= Seq::<char>::empty());
    assert(Seq::<char>::empty().push(x) =~= seq![x]);
}

/// Law: the part before the first `c` is a prefix of the text that holds no
/// `c`, and it is cut exactly at the first `c` when there is one.
pub proof fn lemma_before_char_is_prefix(s: Seq<char>, c: char)
    ensures
        len_before(s, c) <= s.len(),
        before_char(s, c).len() == len_before(s, c),
        before_char(s, c) == s.take(before_char(s, c).len() as int),
        !before_char(s, c).contains(c),
        before_char(s, c).len() < s.len() ==> s[before_char(s, c).len() as int] == c,
        s.contains(c) ==> before_char(s, c).len() < s.len(),
    decreases s.len(),
{
    if s.len() > 0 && s[0] != c {
        lemma_before_char_is_prefix(s.drop_first(), c);
        let k: int = len_before(s.drop_first(), c) as int;
        assert(len_before(s, c) == k + 1);
        assert forall|j: int| 0 <= j < k + 1 implies #[trigger] s.take(k + 1)[j] != c by {
            assert(s.take(k + 1)[j] == s[j]);
            if j > 0 {
                assert(s.drop_first().take(k)[j - 1] == s[j]);
                if s[j] == c {
                    assert(s.drop_first().take(k).contains(c));
                }
            }
        }
        if k + 1 < s.len() {
            assert(s[k + 1] == s.drop_first()[k]);
        }
        if s.contains(c) {
            let i = choose|i: int| 0 <= i < s.len() && s[i] == c;
            assert(s.drop_first()[i - 1] == c);
        }
    }
    assert(before_char(s, c) =~= s.take(before_char(s, c).len() as int));
}

/// Law: `u64` parsing reads a `+` sign and leading zeros as the standard
/// library does, and refuses an empty text and any text with a character
/// that is not a digit (after a leading `+`).
pub proof fn lemma_parsed_u64_forms(n: u64, s: Seq<char>, i: int)
    ensures
        parsed_u64("+"@ + decimal(n as nat)) == Some(n),
        parsed_u64(seq!['0'] + decimal(n as nat)) == Some(n),
        parsed_u64(Seq::<char>::empty()) is None,
        parsed_u64(seq!['+']) is None,
        (0 <= i < s.len() && !('0' <= s[i] <= '9') && !(i == 0 && s[i] == '+')) ==> parsed_u64(s) is None,
{
    reveal_strlit("+");
    lemma_decimal_digits(n as nat);
    let d = decimal(n as nat);
    assert(("+"@ + d).drop_first() =~= d);
    lemma_leading_zero_value(d);
    assert forall|j: int| 0 <= j < (seq!['0'] + d).len() implies is_digit(#[trigger] (seq!['0'] + d)[j]) by {
        if j > 0 {
            assert((seq!['0'] + d)[j] == d[j - 1]);
        }
    }
    if 0 <= i < s.len() && !('0' <= s[i] <= '9') && !(i == 0 && s[i] == '+') {
        let u = unsigned_digits(s);
        if s.len() > 0 && s[0] == '+' {
            assert(u[i - 1] == s[i]);
        } else {
            assert(u[i] == s[i]);
        }
    }
}

/// A leading zero does not change the value of a string of digits.
proof fn lemma_leading_zero_value(d: Seq<char>)
    ensures
        digits_value(seq!['0'] + d) == digits_value(d),
    decreases d.len(),
{
    if d.len() > 0 {
        lemma_leading_zero_value(d.drop_last());
        assert((seq!['0'] + d).drop_last() =~= seq!['0'] + d.drop_last());
        assert((seq!['0'] + d).last() == d.last());
    } else {
        assert(seq!['0'] + d =~= seq!['0']);
        assert(seq!['0'].drop_last() =~= Seq::<char>::empty());
        assert(seq!['0'].last() == '0');
        assert(digits_value(Seq::<char>::empty()) == 0);
        assert(digits_value(seq!['0']) == 0);
    }
}

/// Law: the decimal form of a number is its digits with no leading zero
/// (zero itself is the single digit `0`), and it reads back as the number.
pub proof fn lemma_decimal_is_canonical(n: nat)
    ensures
        n > 0 ==> decimal(n)[0] != '0',
        n == 0 ==> decimal(n) == seq!['0'],
        all_digits(decimal(n)),
        digits_value(decimal(n)) == n,
    decreases n,
{
    lemma_decimal_digits(n);
    if n < 10 {
        assert((digit_char(n) as u32) == n + 48);
        if n == 0 {
            assert(decimal(n) =~= seq!['0']);
        }
    } else {
        lemma_decimal_is_canonical(n / 10);
        assert(decimal(n)[0] == decimal(n / 10)[0]);
    }
}

/// Law: replacing a pattern leaves a text that does not contain it as it
/// is, and turns the pattern itself into the replacement.
pub proof fn lemma_replace_all_basics(s: Seq<char>, pat: Seq<char>, rep: Seq<char>)
    requires
        pat.len() > 0,
    ensures
        !contains_seq(s, pat) ==> replace_all(s, pat, rep) == s,
        replace_all(pat, pat, rep) == rep,
    decreases s.len(),
{
    if !contains_seq(s, pat) && s.len() >= pat.len() {
        if starts_with(s, pat) {
            assert(occurs_at(s, pat, 0));
        }
        assert(!contains_seq(s.skip(1), pat)) by {
            if contains_seq(s.skip(1), pat) {
                let i = choose|i: int| occurs_at(s.skip(1), pat, i);
                assert(s.subrange(i + 1, i + 1 + pat.len()) =~= s.skip(1).subrange(i, i + pat.len()));
                assert(occurs_at(s, pat, i + 1));
            }
        }
        lemma_replace_all_basics(s.skip(1), pat, rep);
        assert(seq![s[0]] + s.skip(1) =~= s);
    }
    assert(pat.subrange(0, pat.len() as int) =~= pat);
    assert(starts_with(pat, pat));
    assert(pat.skip(pat.len() as int) =~= Seq::<char>::empty());
    assert(replace_all(Seq::<char>::empty(), pat, rep) == Seq::<char>::empty());
    assert(rep + Seq::<char>::empty() =~= rep);
}

/// Whether two character sequences are equal.
pub fn chars_equal(a: &Vec<char>, b: &Vec<char>) -> (r: bool)
    ensures
        r == (a@ == b@),
{
    if a.len() != b.len() {
        return false;
    }
    let r = occurs_at_index(a, b, 0);
    assert(a@.subrange(0, a@.len() as int) == a@);
    r
}

/// Whether `p` occurs in `s` at index `i`.
pub fn occurs_at_index(s: &Vec<char>, p: &Vec<char>, i: usize) -> (b: bool)
    ensures
        b == occurs_at(s@, p@, i as int),
{
    let n = s.len();
    let m = p.len();
    if m > n || i > n - m {
        return false;
    }
    let mut k: usize = 0;
    while k < m
        invariant
            n == s@.len(),
            m == p@.len(),
            i + m <= n,
            k <= m,
            forall|j: int| 0 <= j < k ==> s@[i + j] == p@[j],
        decreases m - k,
    {
        if s[i + k] != p[k] {
            assert(s@.subrange(i as int, i + m)[k as int] != p@[k as int]);
            return false;
        }
        k = k + 1;
    }
    assert(s@.subrange(i as int, i + m) =~= p@);
    true
}

/// `trim_start` drops a run of leading whitespace and keeps the rest.
proof fn lemma_trim_start_drops_prefix(s: Seq<char>) -> (k: int)
    ensures
        0 <= k <= s.len(),
        trim_start(s) == s.skip(k),
        forall|j: int| 0 <= j < k ==> is_whitespace(#[trigger] s[j]),
    decreases s.len(),
{
    if s.len() > 0 && is_whitespace(s[0]) {
        let k1 = lemma_trim_start_drops_prefix(s.drop_first());
        assert(s.drop_first().skip(k1) =~= s.skip(k1 + 1));
        assert forall|j: int| 0 <= j < k1 + 1 implies is_whitespace(#[trigger] s[j]) by {
            if j > 0 {
                assert(s[j] == s.drop_first()[j - 1]);
            }
        }
        k1 + 1
    } else {
        assert(s.skip(0) =~= s);
        0
    }
}

/// `trim_end` drops a run of trailing whitespace and keeps the rest.
proof fn lemma_trim_end_drops_suffix(s: Seq<char>) -> (m: int)
    ensures
        0 <= m <= s.len(),
        trim_end(s) == s.take(m),
        forall|j: int| m <= j < s.len() ==> is_whitespace(#[trigger] s[j]),
    decreases s.len(),
{
    if s.len() > 0 && is_whitespace(s.last()) {
        let m1 = lemma_trim_end_drops_suffix(s.drop_last());
        assert(s.drop_last().take(m1) =~= s.take(m1));
        assert forall|j: int| m1 <= j < s.len() implies is_whitespace(#[trigger] s[j]) by {
            if j < s.len() - 1 {
                assert(s[j] == s.drop_last()[j]);
            }
        }
        m1
    } else {
        assert(s.take(s.len() as int) =~= s);
        s.len() as int
    }
}

/// Law: trimming keeps one contiguous piece of the text, and everything
/// cut away on either side is whitespace (that the piece itself neither
/// starts nor ends with whitespace is `commands::lemma_trim_ends`).
pub proof fn lemma_trim_is_inner_piece(s: Seq<char>)
    ensures
        exists|start: int|
            #![trigger s.subrange(start, start + trim(s).len())]
            0 <= start && start + trim(s).len() <= s.len() && trim(s) == s.subrange(
                start,
                start + trim(s).len(),
            ) && (forall|j: int| 0 <= j < start ==> is_whitespace(#[trigger] s[j])) && (forall|
                j: int,
            |
                start + trim(s).len() <= j < s.len() ==> is_whitespace(#[trigger] s[j])),
{
    let k = lemma_trim_start_drops_prefix(s);
    let t = s.skip(k);
    let m = lemma_trim_end_drops_suffix(t);
    assert(trim(s) == t.take(m));
    assert(t.take(m) =~= s.subrange(k, k + m));
    assert forall|j: int| k + m <= j < s.len() implies is_whitespace(#[trigger] s[j]) by {
        assert(s[j] == t[j - k]);
    }
    assert(s.subrange(k, k + trim(s).len()) == trim(s));
}

/// Law: a text contains a phrase exactly when the phrase is one of its
/// contiguous pieces, wherever it stands, the very end included.
pub proof fn lemma_contains_iff_piece(s: Seq<char>, p: Seq<char>)
    ensures
        contains_seq(s, p) <==> exists|i: int|
            0 <= i && i + p.len() <= s.len() && #[trigger] s.subrange(i, i + p.len()) == p,
{
    if contains_seq(s, p) {
        let i = choose|i: int| occurs_at(s, p, i);
        assert(0 <= i && i + p.len() <= s.len() && s.subrange(i, i + p.len()) == p);
    }
    if exists|i: int| 0 <= i && i + p.len() <= s.len() && #[trigger] s.subrange(i, i + p.len()) == p {
        let i = choose|i: int|
            0 <= i && i + p.len() <= s.len() && #[trigger] s.subrange(i, i + p.len()) == p;
        assert(occurs_at(s, p, i));
    }
}

/// Law: every text contains each of its suffixes (itself among them) and
/// each of its prefixes.
pub proof fn lemma_contains_suffixes_and_prefixes(s: Seq<char>, k: int)
    requires
        0 <= k <= s.len(),
    ensures
        contains_seq(s, s.skip(k)),
        contains_seq(s, s.take(k)),
        contains_seq(s, s),
{
    assert(s.subrange(k, k + s.skip(k).len()) =~= s.skip(k));
    assert(occurs_at(s, s.skip(k), k));
    assert(s.subrange(0, s.take(k).len() as int) =~= s.take(k));
    assert(occurs_at(s, s.take(k), 0));
    assert(s.subrange(0, s.len() as int) =~= s);
    assert(occurs_at(s, s, 0));
}

/// Law: `s` starts with `p` exactly when `p` is its first `p.len()`
/// characters, and ends with `p` exactly when `p` is its last ones.
pub proof fn lemma_affixes(s: Seq<char>, p: Seq<char>)
    ensures
        starts_with(s, p) <==> (p.len() <= s.len() && s.take(p.len() as int) == p),
        ends_with(s, p) <==> (p.len() <= s.len() && s.skip(s.len() - p.len()) == p),
{
    if p.len() <= s.len() {
        assert(s.subrange(0, p.len() as int) =~= s.take(p.len() as int));
        assert(s.subrange(s.len() - p.len(), s.len() - p.len() + p.len()) =~= s.skip(
            s.len() - p.len(),
        ));
    }
}

/// Whether `p` occurs in `s` as a contiguous piece.
pub fn contains_chars(s: &Vec<char>, p: &Vec<char>) -> (b: bool)
    ensures
        b == contains_seq(s@, p@),
{
    let n = s.len();
    let m = p.len();
    if m > n {
        return false;
    }
    let mut i: usize = 0;
    loop
        invariant
            n == s@.len(),
            m == p@.len(),
            m <= n,
            i <= n - m,
            forall|j: int| 0 <= j < i ==> !occurs_at(s@, p@, j),
        ensures
            forall|j: int| 0 <= j <= n - m ==> !occurs_at(s@, p@, j),
        decreases n - m - i,
    {
        if occurs_at_index(s, p, i) {
            return true;
        }
        if i == n - m {
            break;
        }
        i = i + 1;
    }
    assert forall|j: int| !occurs_at(s@, p@, j) by {
        if 0 <= j <= n - m {
        } else {
        }
    }
    false
}

/// The characters of `v` before the first `c`.
pub fn chars_before(v: &Vec<char>, c: char) -> (r: Vec<char>)
    ensures
        r@ == before_char(v@, c),
{
    let n = v.len();
    let mut r: Vec<char> = Vec::new();
    let mut i: usize = 0;
    assert(v@.skip(0) == v@);
    while i < n && v[i] != c
        invariant
            n == v@.len(),
            i <= n,
            r@ == v@.take(i as int),
            len_before(v@, c) == i + len_before(v@.skip(i as int), c),
        decreases n - i,
    {
        assert(v@.skip(i as int).drop_first() == v@.skip(i + 1));
        r.push(v[i]);
        assert(v@.take(i + 1) == v@.take(i as int).push(v@[i as int]));
        i = i + 1;
    }
    r
}

/// Reads `s` as `str::parse::<u64>` does.
pub fn parse_u64(s: &str) -> (r: Option<u64>)
    ensures
        r == parsed_u64(s@),
{
    let v = chars_of(s);
    let n = v.len();
    let mut start: usize = 0;
    if n > 0 && v[0] == '+' {
        start = 1;
    }
    let ghost d = unsigned_digits(v@);
    assert(d == v@.skip(start as int));
    if start >= n {
        return None;
    }
    let mut value: u64 = 0;
    let mut i: usize = start;
    while i < n
        invariant
            n == v@.len(),
            start <= i <= n,
            d == v@.skip(start as int),
            v@ == s@,
            d == unsigned_digits(v@),
            all_digits(d.take(i - start)),
            value == digits_value(d.take(i - start)),
        decreases n - i,
    {
        let c = v[i];
        assert(d.take(i - start + 1).drop_last() == d.take(i - start));
        assert(d[i - start] == c);
        if c < '0' || c > '9' {
            assert(!is_digit(d[i - start]));
            return None;
        }
        let dv: u64 = ((c as u32) - ('0' as u32)) as u64;
        assert(d.take(i - start + 1).last() == c);
        assert(all_digits(d.take(i - start + 1)));
        assert(digits_value(d.take(i - start + 1)) == 10 * value + dv);
        match value.checked_mul(10) {
            None => {
                proof {
                    lemma_prefix_value_le(d, i - start + 1);
                }
                return None;
            },
            Some(t) => match t.checked_add(dv) {
                None => {
                    proof {
                        lemma_prefix_value_le(d, i - start + 1);
                    }
                    return None;
                },
                Some(w) => {
                    value = w;
                },
            },
        }
        i = i + 1;
    }
    assert(d.take(n - start) == d);
    Some(value)
}

/// A prefix of a digit string never has a larger value than the string.
pub proof fn lemma_prefix_value_le(s: Seq<char>, k: int)
    requires
        0 <= k <= s.len(),
        all_digits(s.take(k)),
    ensures
        all_digits(s) ==> digits_value(s.take(k)) <= digits_value(s),
    decreases s.len(),
{
    if k < s.len() && all_digits(s) {
        assert(s.drop_last().take(k) == s.take(k));
        lemma_prefix_value_le(s.drop_last(), k);
        assert(is_digit(s[s.len() - 1]));
        lemma_digits_value_nonneg(s.drop_last());
    } else if k == s.len() {
        assert(s.take(k) == s);
    }
}

/// The value of a digit string is not negative.
pub proof fn lemma_digits_value_nonneg(s: Seq<char>)
    requires
        all_digits(s),
    ensures
        digits_value(s) >= 0,
    decreases s.len(),
{
    if s.len() > 0 {
        assert(is_digit(s[s.len() - 1]));
        lemma_digits_value_nonneg(s.drop_last());
    }
}

/// The digit character for `d` below ten.
pub fn digit_to_char(d: u64) -> (c: char)
    requires
        d < 10,
    ensures
        c == digit_char(d as nat),
{
    let b: u8 = (d as u8) + 48;
    assert(b as u32 == d + 48);
    b as char
}

/// The decimal representation of `n`, as `n.to_string()` gives it.
pub fn u64_to_string(n: u64) -> (s: String)
    ensures
        s@ == decimal(n as nat),
    decreases n,
{
    if n < 10 {
        let mut s = String::new();
        push_char(&mut s, digit_to_char(n));
        s
    } else {
        let mut s = u64_to_string(n / 10);
        push_char(&mut s, digit_to_char(n % 10));
        s
    }
}

/// Law: reading back the decimal representation of a `u64` gives the
/// same number.
pub proof fn lemma_parse_decimal(n: u64)
    ensures
        parsed_u64(decimal(n as nat)) == Some(n),
{
    lemma_decimal_digits(n as nat);
}

/// The decimal representation is a nonempty digit string, does not start
/// with `+`, and has the value it represents.
pub proof fn lemma_decimal_digits(n: nat)
    ensures
        decimal(n).len() > 0,
        all_digits(decimal(n)),
        decimal(n)[0] != '+',
        digits_value(decimal(n)) == n,
    decreases n,
{
    if n < 10 {
        let s = decimal(n);
        assert(s == seq![digit_char(n)]);
        assert(s.drop_last() =~= Seq::<char>::empty());
        assert((digit_char(n) as u32) == n + 48);
        assert(digits_value(Seq::<char>::empty()) == 0);
    } else {
        lemma_decimal_digits(n / 10);
        let s = decimal(n);
        assert(s.drop_last() == decimal(n / 10));
        assert(s[0] == decimal(n / 10)[0]);
    }
}

} // verus!
