//! Character-level text operations with their mathematical meaning.
//!
//! Every executable function here works on a vector of characters and is
//! specified by a spec function over `Seq<char>`, so that the parsers of the
//! library can state exactly what they compute.
use vstd::prelude::*;

verus! {

broadcast use vstd::string::group_string_axioms;

// ───────────────────────── specifications ─────────────────────────

/// Unicode `White_Space`, the property that `char::is_whitespace` tests.
pub open spec fn is_white(c: char) -> bool {
    let u = c as u32;
    ||| 0x9 <= u <= 0xd
    ||| u == 0x20
    ||| u == 0x85
    ||| u == 0xa0
    ||| u == 0x1680
    ||| 0x2000 <= u <= 0x200a
    ||| u == 0x2028
    ||| u == 0x2029
    ||| u == 0x202f
    ||| u == 0x205f
    ||| u == 0x3000
}

/// `s` with leading white space removed.
pub open spec fn trim_start(s: Seq<char>) -> Seq<char>
    decreases s.len(),
{
    if s.len() > 0 && is_white(s[0]) {
        trim_start(s.drop_first())
    } else {
        s
    }
}

/// `s` with trailing white space removed.
pub open spec fn trim_end(s: Seq<char>) -> Seq<char>
    decreases s.len(),
{
    if s.len() > 0 && is_white(s.last()) {
        trim_end(s.drop_last())
    } else {
        s
    }
}

/// `s` with white space removed at both ends (`str::trim`).
pub open spec fn trim(s: Seq<char>) -> Seq<char> {
    trim_end(trim_start(s))
}

pub open spec fn starts_with(s: Seq<char>, p: Seq<char>) -> bool {
    p.len() <= s.len() && s.subrange(0, p.len() as int) == p
}

pub open spec fn ends_with(s: Seq<char>, p: Seq<char>) -> bool {
    p.len() <= s.len() && s.subrange(s.len() - p.len(), s.len() as int) == p
}

/// `str::strip_prefix`.
pub open spec fn strip_prefix(s: Seq<char>, p: Seq<char>) -> Option<Seq<char>> {
    if starts_with(s, p) {
        Some(s.subrange(p.len() as int, s.len() as int))
    } else {
        None
    }
}

/// `str::strip_suffix`.
pub open spec fn strip_suffix(s: Seq<char>, p: Seq<char>) -> Option<Seq<char>> {
    if ends_with(s, p) {
        Some(s.subrange(0, s.len() - p.len()))
    } else {
        None
    }
}

/// `str::trim_start_matches` with a non-empty string pattern: every
/// leading repetition of `p` is removed.
pub open spec fn trim_start_matches(s: Seq<char>, p: Seq<char>) -> Seq<char>
    decreases s.len(),
{
    if p.len() > 0 && starts_with(s, p) {
        trim_start_matches(s.subrange(p.len() as int, s.len() as int), p)
    } else {
        s
    }
}

/// `str::trim_end_matches` with a single character.
pub open spec fn trim_end_char(s: Seq<char>, c: char) -> Seq<char>
    decreases s.len(),
{
    if s.len() > 0 && s.last() == c {
        trim_end_char(s.drop_last(), c)
    } else {
        s
    }
}

/// `str::trim_matches` with a single character, at both ends.
pub open spec fn trim_char(s: Seq<char>, c: char) -> Seq<char> {
    trim_end_char(trim_start_char(s, c), c)
}

pub open spec fn trim_start_char(s: Seq<char>, c: char) -> Seq<char>
    decreases s.len(),
{
    if s.len() > 0 && s[0] == c {
        trim_start_char(s.drop_first(), c)
    } else {
        s
    }
}

/// Every occurrence of `from` replaced by `to` (`str::replace` with chars).
pub open spec fn replace_char(s: Seq<char>, from: char, to: char) -> Seq<char> {
    s.map_values(|x: char| if x == from { to } else { x })
}

/// `p` occurs in `s` at position `i`.
pub open spec fn occurs_at(s: Seq<char>, p: Seq<char>, i: int) -> bool {
    0 <= i && i + p.len() <= s.len() && s.subrange(i, i + p.len()) == p
}

/// `str::contains` with a string pattern.
pub open spec fn contains(s: Seq<char>, p: Seq<char>) -> bool {
    exists|i: int| occurs_at(s, p, i)
}

/// `str::find`: the first position at which `p` occurs.
pub open spec fn find(s: Seq<char>, p: Seq<char>) -> Option<int> {
    if contains(s, p) {
        Some(choose|i: int| occurs_at(s, p, i) && forall|j: int| 0 <= j < i ==> !occurs_at(s, p, j))
    } else {
        None
    }
}

/// The first index of `c` in `s`.
pub open spec fn index_of(s: Seq<char>, c: char) -> Option<int>
    decreases s.len(),
{
    if s.len() == 0 {
        None
    } else if s[0] == c {
        Some(0)
    } else {
        match index_of(s.drop_first(), c) {
            Some(i) => Some(i + 1),
            None => None,
        }
    }
}

/// The last index of `c` in `s`.
pub open spec fn last_index_of(s: Seq<char>, c: char) -> Option<int>
    decreases s.len(),
{
    if s.len() == 0 {
        None
    } else if s.last() == c {
        Some(s.len() - 1)
    } else {
        last_index_of(s.drop_last(), c)
    }
}

/// `str::split_once` with a character.
pub open spec fn split_once(s: Seq<char>, c: char) -> Option<(Seq<char>, Seq<char>)> {
    match index_of(s, c) {
        Some(i) => Some((s.subrange(0, i), s.subrange(i + 1, s.len() as int))),
        None => None,
    }
}

/// `str::rsplit_once` with a character.
pub open spec fn rsplit_once(s: Seq<char>, c: char) -> Option<(Seq<char>, Seq<char>)> {
    match last_index_of(s, c) {
        Some(i) => Some((s.subrange(0, i), s.subrange(i + 1, s.len() as int))),
        None => None,
    }
}

/// One line as `str::lines` yields it: the terminating `'\r'` of a
/// `"\r\n"` pair is dropped with the `'\n'`.
pub open spec fn strip_cr(line: Seq<char>) -> Seq<char> {
    if line.len() > 0 && line.last() == '\r' {
        line.drop_last()
    } else {
        line
    }
}

/// `str::lines`: the text split at `'\n'`, without the line endings; a
/// final line ending adds no empty line.
pub open spec fn lines(s: Seq<char>) -> Seq<Seq<char>>
    decreases s.len(),
{
    if s.len() == 0 {
        Seq::empty()
    } else {
        proof {
            lemma_index_bound(s, '\n');
        }
        match index_of(s, '\n') {
            Some(i) => seq![strip_cr(s.subrange(0, i))] + lines(s.subrange(i + 1, s.len() as int)),
            None => seq![s],
        }
    }
}

/// The value of a string of ASCII decimal digits.
pub open spec fn digits_value(s: Seq<char>) -> nat
    decreases s.len(),
{
    if s.len() == 0 {
        0
    } else {
        digits_value(s.drop_last()) * 10 + (s.last() as nat - '0' as nat) as nat
    }
}

pub open spec fn is_digit(c: char) -> bool {
    '0' <= c <= '9'
}

pub open spec fn all_digits(s: Seq<char>) -> bool {
    forall|i: int| 0 <= i < s.len() ==> is_digit(#[trigger] s[i])
}

/// `str::parse::<u32>`: an optional `'+'`, then one or more decimal
/// digits whose value fits in a `u32`.
pub open spec fn parse_u32(s: Seq<char>) -> Option<u32> {
    let d = if s.len() > 0 && s[0] == '+' { s.drop_first() } else { s };
    if d.len() > 0 && all_digits(d) && digits_value(d) <= u32::MAX {
        Some(digits_value(d) as u32)
    } else {
        None
    }
}

/// The decimal representation of `n`, without leading zeros.
pub open spec fn decimal(n: nat) -> Seq<char>
    decreases n,
{
    if n < 10 {
        seq![digit_char(n)]
    } else {
        decimal(n / 10).push(digit_char(n % 10))
    }
}

pub open spec fn digit_char(d: nat) -> char {
    (('0' as nat) + d) as char
}

/// Lexicographic order of character sequences, which is the order of
/// Rust strings (UTF-8 byte order agrees with code point order).
pub open spec fn seq_lt(a: Seq<char>, b: Seq<char>) -> bool
    decreases a.len(),
{
    if a.len() == 0 {
        b.len() > 0
    } else if b.len() == 0 {
        false
    } else if a[0] != b[0] {
        a[0] < b[0]
    } else {
        seq_lt(a.drop_first(), b.drop_first())
    }
}

pub open spec fn seq_le(a: Seq<char>, b: Seq<char>) -> bool {
    a == b || seq_lt(a, b)
}

/// Lowercase mapping of `str::to_lowercase` (Unicode tables and the final
/// sigma rule); its result depends on the text alone.
pub uninterp spec fn lowercase(s: Seq<char>) -> Seq<char>;

// ───────────────────────── std wrappers ─────────────────────────

/// ASCII uppercase letters mapped to lowercase, every other character kept.
pub open spec fn ascii_lower(c: char) -> char {
    if 'A' <= c <= 'Z' {
        ((c as u32) + 32) as char
    } else {
        c
    }
}

pub open spec fn all_ascii(s: Seq<char>) -> bool {
    forall|i: int| 0 <= i < s.len() ==> (#[trigger] s[i] as u32) < 128
}

/// What `str::to_lowercase` gives as far as it is stated here: the
/// mapping of each character by [`ascii_lower`] on ASCII text, the named
/// Unicode mapping elsewhere. Equal to [`lowercase`] by the contract of
/// [`to_lowercase`].
#[verifier::opaque]
pub open spec fn lower_text(s: Seq<char>) -> Seq<char> {
    if all_ascii(s) {
        s.map_values(|c: char| ascii_lower(c))
    } else {
        lowercase(s)
    }
}

/// `str::to_lowercase`: the result is the named Unicode lowercase mapping
/// of the argument; on ASCII text that mapping lowers `A`–`Z` and keeps
/// every other character (Unicode's lowercase mapping of the ASCII range).
#[verifier::external_body]
pub(crate) fn to_lowercase(s: &str) -> (r: String)
    ensures
        r@ == lowercase(s@),
        all_ascii(s@) ==> r@ == s@.map_values(|c: char| ascii_lower(c)),
{
    s.to_lowercase()
}

/// A `String` with the characters of `v`, in order.
pub fn string_from_chars(v: &[char]) -> (r: String)
    ensures
        r@ == v@,
{
    let mut r = String::new();
    let mut i: usize = 0;
    while i < v.len()
        invariant
            0 <= i <= v.len(),
            r@ == v@.subrange(0, i as int),
        decreases v.len() - i,
    {
        string_push(&mut r, v[i]);
        i += 1;
        assert(r@ =~= v@.subrange(0, i as int));
    }
    assert(v@.subrange(0, i as int) =~= v@);
    r
}

/// `String::push`: the character is appended.
#[verifier::external_body]
pub(crate) fn string_push(s: &mut String, c: char)
    ensures
        final(s)@ == old(s)@.push(c),
{
    s.push(c)
}

/// `String::pop`: the last character, if any, is removed.
#[verifier::external_body]
pub(crate) fn string_pop(s: &mut String)
    ensures
        final(s)@ == (if old(s)@.len() > 0 {
            old(s)@.drop_last()
        } else {
            old(s)@
        }),
{
    s.pop();
}

// ───────────────────────── conversions ─────────────────────────

/// The characters of a string slice, in order.
pub fn to_chars(s: &str) -> (r: Vec<char>)
    ensures
        r@ == s@,
{
    let mut r: Vec<char> = Vec::new();
    for c in it: s.chars()
        invariant
            r@ == it.seq().take(it.index() as int),
    {
        r.push(c);
    }
    assert(r@ =~= s@);
    r
}

/// A fresh `String` with the characters of `s`.
pub fn owned(s: &str) -> (r: String)
    ensures
        r@ == s@,
{
    String::from_str(s)
}

/// The lowercase characters of `s`.
pub fn lower_chars(s: &str) -> (r: Vec<char>)
    ensures
        r@ == lower_text(s@),
{
    proof {
        reveal(lower_text);
    }
    let l = to_lowercase(s);
    to_chars(l.as_str())
}

// ───────────────────────── executable operations ─────────────────────────

pub fn is_whitespace(c: char) -> (b: bool)
    ensures
        b == is_white(c),
{
    let u = c as u32;
    (0x9 <= u && u <= 0xd) || u == 0x20 || u == 0x85 || u == 0xa0 || u == 0x1680 || (0x2000
        <= u && u <= 0x200a) || u == 0x2028 || u == 0x2029 || u == 0x202f || u == 0x205f || u
        == 0x3000
}

/// `s[a..b]` as a new vector.
pub fn slice(s: &Vec<char>, a: usize, b: usize) -> (r: Vec<char>)
    requires
        a <= b <= s.len(),
    ensures
        r@ == s@.subrange(a as int, b as int),
{
    let mut r: Vec<char> = Vec::new();
    let mut i: usize = a;
    while i < b
        invariant
            a <= i <= b <= s.len(),
            r@ == s@.subrange(a as int, i as int),
        decreases b - i,
    {
        r.push(s[i]);
        i += 1;
        assert(r@ =~= s@.subrange(a as int, i as int));
    }
    r
}

/// Equality of two character sequences.
pub fn chars_eq(a: &Vec<char>, b: &Vec<char>) -> (r: bool)
    ensures
        r == (a@ == b@),
{
    if a.len() != b.len() {
        return false;
    }
    let mut i: usize = 0;
    while i < a.len()
        invariant
            a.len() == b.len(),
            0 <= i <= a.len(),
            forall|j: int| 0 <= j < i ==> a@[j] == b@[j],
        decreases a.len() - i,
    {
        if a[i] != b[i] {
            return false;
        }
        i += 1;
    }
    assert(a@ =~= b@);
    true
}

/// Equality of two string slices.
pub fn str_eq(a: &str, b: &str) -> (r: bool)
    ensures
        r == (a@ == b@),
{
    chars_eq(&to_chars(a), &to_chars(b))
}

/// Whether `p` occurs in `s` at position `i`.
pub fn occurs_at_exec(s: &Vec<char>, p: &Vec<char>, i: usize) -> (r: bool)
    ensures
        r == occurs_at(s@, p@, i as int),
{
    if i > s.len() || p.len() > s.len() - i {
        return false;
    }
    let mut k: usize = 0;
    while k < p.len()
        invariant
            i + p.len() <= s.len(),
            0 <= k <= p.len(),
            forall|j: int| 0 <= j < k ==> s@[i + j] == p@[j],
        decreases p.len() - k,
    {
        if s[i + k] != p[k] {
            assert(s@.subrange(i as int, i + p.len())[k as int] != p@[k as int]);
            return false;
        }
        k += 1;
    }
    assert(s@.subrange(i as int, i + p.len()) =~= p@);
    true
}

pub fn starts_with_exec(s: &Vec<char>, p: &Vec<char>) -> (r: bool)
    ensures
        r == starts_with(s@, p@),
{
    occurs_at_exec(s, p, 0)
}

pub fn ends_with_exec(s: &Vec<char>, p: &Vec<char>) -> (r: bool)
    ensures
        r == ends_with(s@, p@),
{
    if p.len() > s.len() {
        return false;
    }
    occurs_at_exec(s, p, s.len() - p.len())
}

/// The first position of `p` in `s`.
pub fn find_exec(s: &Vec<char>, p: &Vec<char>) -> (r: Option<usize>)
    ensures
        r matches Some(i) ==> find(s@, p@) == Some(i as int) && i + p.len() <= s.len(),
        r is None ==> find(s@, p@) is None,
{
    if p.len() > s.len() {
        assert(!contains(s@, p@));
        return None;
    }
    let mut i: usize = 0;
    loop
        invariant
            p.len() <= s.len(),
            i <= s.len() - p.len(),
            forall|j: int| 0 <= j < i ==> !occurs_at(s@, p@, j),
        decreases s.len() - p.len() - i,
    {
        if occurs_at_exec(s, p, i) {
            assert(contains(s@, p@));
            let ghost k = choose|k: int|
                occurs_at(s@, p@, k) && forall|j: int| 0 <= j < k ==> !occurs_at(s@, p@, j);
            assert(k == i) by {
                if k < i {
                } else if k > i {
                }
            }
            return Some(i);
        }
        if i == s.len() - p.len() {
            assert(!contains(s@, p@));
            return None;
        }
        i += 1;
    }
}

pub fn contains_exec(s: &Vec<char>, p: &Vec<char>) -> (r: bool)
    ensures
        r == contains(s@, p@),
{
    find_exec(s, p).is_some()
}

pub fn trim_start_exec(s: &Vec<char>) -> (r: Vec<char>)
    ensures
        r@ == trim_start(s@),
{
    assert(s@.subrange(0, s.len() as int) =~= s@);
    let mut i: usize = 0;
    while i < s.len() && is_whitespace(s[i])
        invariant
            0 <= i <= s.len(),
            trim_start(s@) == trim_start(s@.subrange(i as int, s.len() as int)),
        decreases s.len() - i,
    {
        assert(s@.subrange(i as int, s.len() as int).drop_first() =~= s@.subrange(
            i + 1,
            s.len() as int,
        ));
        i += 1;
    }
    slice(s, i, s.len())
}

pub fn trim_end_exec(s: &Vec<char>) -> (r: Vec<char>)
    ensures
        r@ == trim_end(s@),
{
    assert(s@.subrange(0, s.len() as int) =~= s@);
    let mut j: usize = s.len();
    while j > 0 && is_whitespace(s[j - 1])
        invariant
            0 <= j <= s.len(),
            trim_end(s@) == trim_end(s@.subrange(0, j as int)),
        decreases j,
    {
        assert(s@.subrange(0, j as int).drop_last() =~= s@.subrange(0, j - 1));
        j -= 1;
    }
    slice(s, 0, j)
}

pub fn trim_exec(s: &Vec<char>) -> (r: Vec<char>)
    ensures
        r@ == trim(s@),
{
    let t = trim_start_exec(s);
    trim_end_exec(&t)
}

pub fn strip_prefix_exec(s: &Vec<char>, p: &Vec<char>) -> (r: Option<Vec<char>>)
    ensures
        r matches Some(v) ==> strip_prefix(s@, p@) == Some(v@),
        r is None ==> strip_prefix(s@, p@) is None,
{
    if starts_with_exec(s, p) {
        Some(slice(s, p.len(), s.len()))
    } else {
        None
    }
}

pub fn strip_suffix_exec(s: &Vec<char>, p: &Vec<char>) -> (r: Option<Vec<char>>)
    ensures
        r matches Some(v) ==> strip_suffix(s@, p@) == Some(v@),
        r is None ==> strip_suffix(s@, p@) is None,
{
    if ends_with_exec(s, p) {
        Some(slice(s, 0, s.len() - p.len()))
    } else {
        None
    }
}

pub fn trim_start_matches_exec(s: &Vec<char>, p: &Vec<char>) -> (r: Vec<char>)
    ensures
        r@ == trim_start_matches(s@, p@),
{
    if p.len() == 0 {
        return slice(s, 0, s.len());
    }
    assert(s@.subrange(0, s.len() as int) =~= s@);
    let mut i: usize = 0;
    while occurs_at_exec(s, p, i)
        invariant
            p.len() > 0,
            0 <= i <= s.len(),
            trim_start_matches(s@, p@) == trim_start_matches(s@.subrange(i as int, s.len() as int), p@),
        decreases s.len() - i,
    {
        let ghost t = s@.subrange(i as int, s.len() as int);
        assert(t.subrange(0, p.len() as int) =~= s@.subrange(i as int, i + p.len()));
        assert(t.subrange(p.len() as int, t.len() as int) =~= s@.subrange(
            i + p.len(),
            s.len() as int,
        ));
        i += p.len();
    }
    proof {
        let t = s@.subrange(i as int, s.len() as int);
        if starts_with(t, p@) {
            assert(t.subrange(0, p.len() as int) =~= s@.subrange(i as int, i + p.len()));
        }
    }
    slice(s, i, s.len())
}

pub fn trim_start_char_exec(s: &Vec<char>, c: char) -> (r: Vec<char>)
    ensures
        r@ == trim_start_char(s@, c),
{
    assert(s@.subrange(0, s.len() as int) =~= s@);
    let mut i: usize = 0;
    while i < s.len() && s[i] == c
        invariant
            0 <= i <= s.len(),
            trim_start_char(s@, c) == trim_start_char(s@.subrange(i as int, s.len() as int), c),
        decreases s.len() - i,
    {
        assert(s@.subrange(i as int, s.len() as int).drop_first() =~= s@.subrange(
            i + 1,
            s.len() as int,
        ));
        i += 1;
    }
    slice(s, i, s.len())
}

pub fn trim_end_char_exec(s: &Vec<char>, c: char) -> (r: Vec<char>)
    ensures
        r@ == trim_end_char(s@, c),
{
    assert(s@.subrange(0, s.len() as int) =~= s@);
    let mut j: usize = s.len();
    while j > 0 && s[j - 1] == c
        invariant
            0 <= j <= s.len(),
            trim_end_char(s@, c) == trim_end_char(s@.subrange(0, j as int), c),
        decreases j,
    {
        assert(s@.subrange(0, j as int).drop_last() =~= s@.subrange(0, j - 1));
        j -= 1;
    }
    slice(s, 0, j)
}

pub fn trim_char_exec(s: &Vec<char>, c: char) -> (r: Vec<char>)
    ensures
        r@ == trim_char(s@, c),
{
    let t = trim_start_char_exec(s, c);
    trim_end_char_exec(&t, c)
}

pub fn replace_char_exec(s: &Vec<char>, from: char, to: char) -> (r: Vec<char>)
    ensures
        r@ == replace_char(s@, from, to),
{
    let mut r: Vec<char> = Vec::new();
    let mut i: usize = 0;
    while i < s.len()
        invariant
            0 <= i <= s.len(),
            r@ == replace_char(s@.subrange(0, i as int), from, to),
        decreases s.len() - i,
    {
        let c = if s[i] == from {
            to
        } else {
            s[i]
        };
        r.push(c);
        i += 1;
        assert(r@ =~= replace_char(s@.subrange(0, i as int), from, to));
    }
    assert(s@.subrange(0, s.len() as int) =~= s@);
    r
}

pub proof fn lemma_index_of(s: Seq<char>, c: char, i: int)
    requires
        0 <= i <= s.len(),
        forall|j: int| 0 <= j < i ==> s[j] != c,
    ensures
        i < s.len() && s[i] == c ==> index_of(s, c) == Some(i),
        i == s.len() ==> index_of(s, c) is None,
    decreases i,
{
    if i > 0 {
        lemma_index_of(s.drop_first(), c, i - 1);
    } else if s.len() > 0 {
    }
}

pub proof fn lemma_last_index_of(s: Seq<char>, c: char, j: int)
    requires
        -1 <= j < s.len(),
        forall|k: int| j < k < s.len() ==> s[k] != c,
    ensures
        j >= 0 && s[j] == c ==> last_index_of(s, c) == Some(j),
        j == -1 ==> last_index_of(s, c) is None,
    decreases s.len() - j,
{
    if s.len() > 0 && j < s.len() - 1 {
        lemma_last_index_of(s.drop_last(), c, j);
    }
}

/// The first index of `c` in `s`.
pub fn index_of_exec(s: &Vec<char>, c: char) -> (r: Option<usize>)
    ensures
        r matches Some(i) ==> index_of(s@, c) == Some(i as int) && i < s.len(),
        r is None ==> index_of(s@, c) is None,
{
    let mut i: usize = 0;
    while i < s.len()
        invariant
            0 <= i <= s.len(),
            forall|j: int| 0 <= j < i ==> s@[j] != c,
        decreases s.len() - i,
    {
        if s[i] == c {
            proof {
                lemma_index_of(s@, c, i as int);
            }
            return Some(i);
        }
        i += 1;
    }
    proof {
        lemma_index_of(s@, c, i as int);
    }
    None
}

/// The last index of `c` in `s`.
pub fn last_index_of_exec(s: &Vec<char>, c: char) -> (r: Option<usize>)
    ensures
        r matches Some(i) ==> last_index_of(s@, c) == Some(i as int) && i < s.len(),
        r is None ==> last_index_of(s@, c) is None,
{
    let mut j: usize = s.len();
    while j > 0
        invariant
            0 <= j <= s.len(),
            forall|k: int| j <= k < s.len() ==> s@[k] != c,
        decreases j,
    {
        if s[j - 1] == c {
            proof {
                lemma_last_index_of(s@, c, j - 1);
            }
            return Some(j - 1);
        }
        j -= 1;
    }
    proof {
        lemma_last_index_of(s@, c, -1);
    }
    None
}

pub fn split_once_exec(s: &Vec<char>, c: char) -> (r: Option<(Vec<char>, Vec<char>)>)
    ensures
        r matches Some((a, b)) ==> split_once(s@, c) == Some((a@, b@)),
        r is None ==> split_once(s@, c) is None,
{
    match index_of_exec(s, c) {
        Some(i) => Some((slice(s, 0, i), slice(s, i + 1, s.len()))),
        None => None,
    }
}

pub fn rsplit_once_exec(s: &Vec<char>, c: char) -> (r: Option<(Vec<char>, Vec<char>)>)
    ensures
        r matches Some((a, b)) ==> rsplit_once(s@, c) == Some((a@, b@)),
        r is None ==> rsplit_once(s@, c) is None,
{
    match last_index_of_exec(s, c) {
        Some(i) => Some((slice(s, 0, i), slice(s, i + 1, s.len()))),
        None => None,
    }
}

pub proof fn lemma_last_index_bound(s: Seq<char>, c: char)
    ensures
        last_index_of(s, c) matches Some(i) ==> 0 <= i < s.len() && s[i] == c,
    decreases s.len(),
{
    if s.len() > 0 && s.last() != c {
        lemma_last_index_bound(s.drop_last(), c);
    }
}

pub proof fn lemma_index_bound(s: Seq<char>, c: char)
    ensures
        index_of(s, c) matches Some(i) ==> 0 <= i < s.len() && s[i] == c && forall|j: int|
            0 <= j < i ==> s[j] != c,
        index_of(s, c) is None ==> forall|j: int| 0 <= j < s.len() ==> s[j] != c,
    decreases s.len(),
{
    if s.len() > 0 && s[0] != c {
        lemma_index_bound(s.drop_first(), c);
        assert forall|j: int| 1 <= j < s.len() implies s[j] == s.drop_first()[j - 1] by {}
    }
}

/// Drops a `'\r'` that ends a line.
pub fn strip_cr_exec(line: Vec<char>) -> (r: Vec<char>)
    ensures
        r@ == strip_cr(line@),
{
    let mut out = line;
    if out.len() > 0 && out[out.len() - 1] == '\r' {
        out.pop();
        assert(out@ =~= line@.drop_last());
    }
    out
}

/// `str::lines` on characters.
pub fn split_lines(s: &Vec<char>) -> (r: Vec<Vec<char>>)
    ensures
        r.len() == lines(s@).len(),
        forall|i: int| 0 <= i < r.len() ==> #[trigger] r[i]@ == lines(s@)[i],
{
    let mut r: Vec<Vec<char>> = Vec::new();
    let mut pos: usize = 0;
    let ghost mut done: Seq<Seq<char>> = Seq::empty();
    assert(s@.subrange(0, s.len() as int) =~= s@);
    assert(done + lines(s@) =~= lines(s@));
    while pos < s.len()
        invariant
            0 <= pos <= s.len(),
            r.len() == done.len(),
            forall|i: int| 0 <= i < r.len() ==> #[trigger] r[i]@ == done[i],
            lines(s@) == done + lines(s@.subrange(pos as int, s.len() as int)),
        decreases s.len() - pos,
    {
        let ghost t = s@.subrange(pos as int, s.len() as int);
        let mut j: usize = pos;
        while j < s.len() && s[j] != '\n'
            invariant
                pos <= j <= s.len(),
                forall|k: int| pos <= k < j ==> s@[k] != '\n',
            decreases s.len() - j,
        {
            j += 1;
        }
        proof {
            lemma_index_of(t, '\n', j - pos);
        }
        let line = slice(s, pos, j);
        let line = if j < s.len() {
            strip_cr_exec(line)
        } else {
            line
        };
        r.push(line);
        proof {
            if j < s.len() {
                assert(t.subrange(0, j - pos) =~= s@.subrange(pos as int, j as int));
                assert(t.subrange(j - pos + 1, t.len() as int) =~= s@.subrange(
                    j + 1,
                    s.len() as int,
                ));
                done = done.push(strip_cr(s@.subrange(pos as int, j as int)));
                assert(lines(s@) == done + lines(s@.subrange(j + 1, s.len() as int)));
            } else {
                assert(t =~= s@.subrange(pos as int, j as int));
                done = done.push(t);
                assert(s@.subrange(s.len() as int, s.len() as int) =~= Seq::<char>::empty());
            }
        }
        if j < s.len() {
            pos = j + 1;
        } else {
            pos = j;
        }
    }
    assert(s@.subrange(pos as int, s.len() as int) =~= Seq::<char>::empty());
    assert(done + Seq::<Seq<char>>::empty() =~= done);
    r
}

// ───────────────────────── numbers ─────────────────────────

/// Appends the decimal representation of `n`.
pub fn push_decimal(n: u64, out: &mut Vec<char>)
    ensures
        final(out)@ == old(out)@ + decimal(n as nat),
    decreases n,
{
    if n < 10 {
        let c = char_of_digit(n);
        out.push(c);
    } else {
        push_decimal(n / 10, out);
        let c = char_of_digit(n % 10);
        out.push(c);
        assert(decimal(n as nat) == decimal((n / 10) as nat).push(digit_char((n % 10) as nat)));
    }
}

pub fn char_of_digit(d: u64) -> (c: char)
    requires
        d < 10,
    ensures
        c == digit_char(d as nat),
{
    let b: u8 = 48u8 + (d as u8);
    b as char
}

/// The decimal representation of `n` as a `String` (`u64::to_string`).
pub fn decimal_string(n: u64) -> (r: String)
    ensures
        r@ == decimal(n as nat),
{
    let mut v: Vec<char> = Vec::new();
    push_decimal(n, &mut v);
    assert(v@ =~= decimal(n as nat));
    string_from_chars(v.as_slice())
}

pub proof fn lemma_digits_value_prefix(s: Seq<char>, k: int)
    requires
        0 <= k <= s.len(),
    ensures
        digits_value(s.subrange(0, k)) <= digits_value(s),
    decreases s.len(),
{
    if k < s.len() {
        lemma_digits_value_prefix(s.drop_last(), k);
        assert(s.drop_last().subrange(0, k) =~= s.subrange(0, k));
    } else {
        assert(s.subrange(0, k) =~= s);
    }
}

/// `str::parse::<u32>` on characters.
pub fn parse_u32_exec(s: &Vec<char>) -> (r: Option<u32>)
    ensures
        r == parse_u32(s@),
{
    let start: usize = if s.len() > 0 && s[0] == '+' {
        1
    } else {
        0
    };
    let ghost d = if s@.len() > 0 && s@[0] == '+' {
        s@.drop_first()
    } else {
        s@
    };
    assert(d =~= s@.subrange(start as int, s.len() as int));
    if start >= s.len() {
        return None;
    }
    let mut acc: u64 = 0;
    let mut i: usize = start;
    while i < s.len()
        invariant
            start <= i <= s.len(),
            d == s@.subrange(start as int, s.len() as int),
            d == (if s@.len() > 0 && s@[0] == '+' {
                s@.drop_first()
            } else {
                s@
            }),
            forall|k: int| start <= k < i ==> is_digit(#[trigger] s@[k]),
            acc as nat == digits_value(s@.subrange(start as int, i as int)),
            acc <= u32::MAX,
        decreases s.len() - i,
    {
        let c = s[i];
        if !('0' <= c && c <= '9') {
            assert(d[i - start] == c);
            assert(!is_digit(d[i - start]));
            assert(!all_digits(d));
            return None;
        }
        let dv: u64 = (c as u32 - '0' as u32) as u64;
        let ghost pre = s@.subrange(start as int, i as int);
        let ghost post = s@.subrange(start as int, i + 1);
        assert(post.drop_last() =~= pre);
        assert(post.last() == c);
        assert(digits_value(post) == digits_value(pre) * 10 + (c as nat - '0' as nat));
        acc = acc * 10 + dv;
        i += 1;
        assert(acc as nat == digits_value(post));
        if acc > 0xffff_ffff {
            proof {
                lemma_digits_value_prefix(d, i - start);
                assert(d.subrange(0, i - start) =~= s@.subrange(start as int, i as int));
                assert(digits_value(d) > u32::MAX);
            }
            return None;
        }
    }
    assert(s@.subrange(start as int, i as int) =~= d);
    Some(acc as u32)
}

// ───────────────────────── order ─────────────────────────

/// Lexicographic comparison of character sequences (`str` `<`).
pub fn chars_lt(a: &Vec<char>, b: &Vec<char>) -> (r: bool)
    ensures
        r == seq_lt(a@, b@),
{
    let mut i: usize = 0;
    assert(a@.subrange(0, a.len() as int) =~= a@);
    assert(b@.subrange(0, b.len() as int) =~= b@);
    while i < a.len() && i < b.len() && a[i] == b[i]
        invariant
            0 <= i <= a.len(),
            i <= b.len(),
            seq_lt(a@, b@) == seq_lt(
                a@.subrange(i as int, a.len() as int),
                b@.subrange(i as int, b.len() as int),
            ),
        decreases a.len() - i,
    {
        assert(a@.subrange(i as int, a.len() as int).drop_first() =~= a@.subrange(
            i + 1,
            a.len() as int,
        ));
        assert(b@.subrange(i as int, b.len() as int).drop_first() =~= b@.subrange(
            i + 1,
            b.len() as int,
        ));
        i += 1;
    }
    if i == a.len() {
        i < b.len()
    } else if i == b.len() {
        false
    } else {
        a[i] < b[i]
    }
}


// ───────────────────────── facts for reading back ─────────────────────────

/// `s` holds no line break.
pub open spec fn single_line(s: Seq<char>) -> bool {
    forall|i: int| 0 <= i < s.len() ==> #[trigger] s[i] != '\n'
}

/// Text that begins and ends with a character that is not white space
/// is its own trim.
pub proof fn lemma_trim_solid(s: Seq<char>)
    requires
        s.len() > 0,
        !is_white(s[0]),
        !is_white(s.last()),
    ensures
        trim(s) == s,
{
}

pub proof fn lemma_trim_start_len(s: Seq<char>)
    ensures
        trim_start(s).len() <= s.len(),
    decreases s.len(),
{
    if s.len() > 0 && is_white(s[0]) {
        lemma_trim_start_len(s.drop_first());
    }
}

pub proof fn lemma_trim_end_len(s: Seq<char>)
    ensures
        trim_end(s).len() <= s.len(),
    decreases s.len(),
{
    if s.len() > 0 && is_white(s.last()) {
        lemma_trim_end_len(s.drop_last());
    }
}

/// Text that is its own trim begins and ends with a character that is
/// not white space.
pub proof fn lemma_trimmed_ends(s: Seq<char>)
    requires
        trim(s) == s,
        s.len() > 0,
    ensures
        !is_white(s[0]),
        !is_white(s.last()),
{
    if is_white(s[0]) {
        lemma_trim_start_len(s.drop_first());
        lemma_trim_end_len(trim_start(s.drop_first()));
    } else if is_white(s.last()) {
        lemma_trim_end_len(s.drop_last());
    }
}

/// A leading space does not change the trim.
pub proof fn lemma_trim_space_first(v: Seq<char>)
    ensures
        trim(" "@ + v) == trim(v),
{
    reveal_strlit(" ");
    assert((" "@ + v).drop_first() =~= v);
}

/// Dropping white space at the end does not change the trim.
pub proof fn lemma_trim_drop_white_end(x: Seq<char>)
    requires
        x.len() > 0,
        is_white(x.last()),
    ensures
        trim(x.drop_last()) == trim(x),
    decreases x.len(),
{
    if is_white(x[0]) {
        if x.len() == 1 {
            assert(x.drop_first() =~= Seq::<char>::empty());
            assert(x.drop_last() =~= Seq::<char>::empty());
            assert(trim_start(x) == trim_start(x.drop_first()));
            assert(trim(x) == Seq::<char>::empty());
        } else {
            let y = x.drop_first();
            lemma_trim_drop_white_end(y);
            assert(x.drop_last().drop_first() =~= y.drop_last());
            assert(x.drop_last()[0] == x[0]);
            assert(trim_start(x) == trim_start(y));
            assert(trim_start(x.drop_last()) == trim_start(y.drop_last()));
        }
    } else {
        assert(x.len() >= 2);
        assert(x.drop_last()[0] == x[0]);
        assert(trim_start(x) == x);
        assert(trim_start(x.drop_last()) == x.drop_last());
        assert(trim_end(x) == trim_end(x.drop_last()));
    }
}

/// A `'\r'` that ends a line does not change its trim.
pub proof fn lemma_trim_strip_cr(x: Seq<char>)
    ensures
        trim(strip_cr(x)) == trim(x),
{
    if x.len() > 0 && x.last() == '\r' {
        lemma_trim_drop_white_end(x);
    }
}

/// The first line break of `h + "\n" + t`.
pub proof fn lemma_index_of_newline(h: Seq<char>, t: Seq<char>)
    ensures
        index_of(h + "\n"@ + t, '\n') == (match index_of(h, '\n') {
            Some(i) => Some(i),
            None => Some(h.len() as int),
        }),
{
    reveal_strlit("\n");
    let s = h + "\n"@ + t;
    lemma_index_bound(h, '\n');
    match index_of(h, '\n') {
        Some(i) => {
            assert forall|j: int| 0 <= j < i implies s[j] != '\n' by {
                assert(s[j] == h[j]);
            }
            lemma_index_of(s, '\n', i);
        },
        None => {
            assert forall|j: int| 0 <= j < h.len() implies s[j] != '\n' by {
                assert(s[j] == h[j]);
            }
            lemma_index_of(s, '\n', h.len() as int);
        },
    }
}

/// A digit character and its value.
pub proof fn lemma_digit_char(d: nat)
    requires
        d < 10,
    ensures
        is_digit(digit_char(d)),
        digit_char(d) as nat - '0' as nat == d,
{
}

/// The decimal representation of a number is a non-empty string of
/// digits whose value is the number.
pub proof fn lemma_decimal_digits(n: nat)
    ensures
        decimal(n).len() > 0,
        all_digits(decimal(n)),
        digits_value(decimal(n)) == n,
    decreases n,
{
    if n < 10 {
        lemma_digit_char(n);
        assert(decimal(n).drop_last() =~= Seq::<char>::empty());
        assert(decimal(n).last() == digit_char(n));
        assert(digits_value(decimal(n)) == digits_value(Seq::<char>::empty()) * 10 + (digit_char(n) as nat - '0' as nat) as nat);
    } else {
        lemma_decimal_digits(n / 10);
        lemma_digit_char(n % 10);
        let s = decimal(n / 10);
        assert(decimal(n).drop_last() =~= s);
        assert(decimal(n).last() == digit_char(n % 10));
        assert(digits_value(decimal(n)) == digits_value(s) * 10 + (n % 10));
        assert((n / 10) * 10 + n % 10 == n);
        assert(digits_value(s) * 10 == (n / 10) * 10);
    }
}

/// Reading a written number back gives the number.
pub proof fn lemma_parse_decimal(n: u32)
    ensures
        parse_u32(decimal(n as nat)) == Some(n),
{
    lemma_decimal_digits(n as nat);
    let s = decimal(n as nat);
    assert(is_digit(s[0]));
}

/// Nothing after the last occurrence of `c` is `c`.
pub proof fn lemma_last_index_after(s: Seq<char>, c: char)
    ensures
        last_index_of(s, c) matches Some(i) ==> 0 <= i < s.len() && s[i] == c && forall|j: int|
            i < j < s.len() ==> #[trigger] s[j] != c,
        last_index_of(s, c) is None ==> forall|j: int| 0 <= j < s.len() ==> #[trigger] s[j] != c,
    decreases s.len(),
{
    if s.len() > 0 && s.last() != c {
        let d = s.drop_last();
        lemma_last_index_after(d, c);
        match last_index_of(d, c) {
            Some(i) => {
                assert forall|j: int| i < j < s.len() implies #[trigger] s[j] != c by {
                    if j < s.len() - 1 {
                        assert(s[j] == d[j]);
                    }
                }
            },
            None => {
                assert forall|j: int| 0 <= j < s.len() implies #[trigger] s[j] != c by {
                    if j < s.len() - 1 {
                        assert(s[j] == d[j]);
                    }
                }
            },
        }
    }
}

/// Every line of a text is one line.
pub proof fn lemma_lines_single(s: Seq<char>)
    ensures
        forall|k: int| 0 <= k < lines(s).len() ==> single_line(#[trigger] lines(s)[k]),
    decreases s.len(),
{
    if s.len() > 0 {
        lemma_index_bound(s, '\n');
        match index_of(s, '\n') {
            Some(i) => {
                let rest = s.subrange(i + 1, s.len() as int);
                lemma_lines_single(rest);
                let first = s.subrange(0, i);
                assert(single_line(first));
                assert(single_line(strip_cr(first)));
                assert forall|k: int| 0 <= k < lines(s).len() implies single_line(#[trigger] lines(s)[k]) by {
                    if k > 0 {
                        assert(lines(s)[k] == lines(rest)[k - 1]);
                    }
                }
            },
            None => {},
        }
    }
}

} // verus!
