//! Character-level text primitives shared by the command modules: trimming,
//! prefix tests, decimal parsing and rendering, splitting, and ordering.
use vstd::prelude::*;
use crate::archive::{views, lemma_views_push, opt_view};

verus! {

// ---------------------------------------------------------------------------
// Specifications
// ---------------------------------------------------------------------------

/// Unicode `White_Space`, the set that `char::is_whitespace` tests.
pub open spec fn is_ws(c: char) -> bool {
    let u = c as u32;
    ||| 0x09 <= u && u <= 0x0D
    ||| u == 0x20
    ||| u == 0x85
    ||| u == 0xA0
    ||| u == 0x1680
    ||| 0x2000 <= u && u <= 0x200A
    ||| u == 0x2028
    ||| u == 0x2029
    ||| u == 0x202F
    ||| u == 0x205F
    ||| u == 0x3000
}

/// Index of the first non-whitespace character at or after `i` (or `s.len()`).
pub open spec fn first_non_ws_from(s: Seq<char>, i: int) -> int
    decreases s.len() - i,
{
    if i < 0 || i >= s.len() {
        s.len() as int
    } else if is_ws(s[i]) {
        first_non_ws_from(s, i + 1)
    } else {
        i
    }
}

/// One past the last non-whitespace character strictly before `j` (or 0).
pub open spec fn last_non_ws_end(s: Seq<char>, j: int) -> int
    decreases j,
{
    if j <= 0 || j > s.len() {
        0
    } else if is_ws(s[j - 1]) {
        last_non_ws_end(s, j - 1)
    } else {
        j
    }
}

/// `str::trim`: `s` without leading and trailing whitespace.
pub open spec fn trim(s: Seq<char>) -> Seq<char> {
    let a = first_non_ws_from(s, 0);
    let b = last_non_ws_end(s, s.len() as int);
    if b <= a {
        Seq::empty()
    } else {
        s.subrange(a, b)
    }
}

pub open spec fn starts_with(s: Seq<char>, p: Seq<char>) -> bool {
    p.len() <= s.len() && s.subrange(0, p.len() as int) == p
}

pub open spec fn ends_with(s: Seq<char>, p: Seq<char>) -> bool {
    p.len() <= s.len() && s.subrange(s.len() - p.len(), s.len() as int) == p
}

/// `str::strip_prefix`.
pub open spec fn strip_prefix(s: Seq<char>, p: Seq<char>) -> Option<Seq<char>> {
    if starts_with(s, p) {
        Some(s.subrange(p.len() as int, s.len() as int))
    } else {
        None
    }
}

/// `str::strip_suffix`.
pub open spec fn strip_suffix(s: Seq<char>, p: Seq<char>) -> Option<Seq<char>> {
    if ends_with(s, p) {
        Some(s.subrange(0, s.len() - p.len()))
    } else {
        None
    }
}

/// `needle` occurs in `hay` as a contiguous run (`str::contains`).
pub open spec fn contains_at(hay: Seq<char>, needle: Seq<char>, i: int) -> bool {
    0 <= i && i + needle.len() <= hay.len() && hay.subrange(i, i + needle.len()) == needle
}

pub open spec fn contains(hay: Seq<char>, needle: Seq<char>) -> bool {
    exists|i: int| contains_at(hay, needle, i)
}

pub open spec fn is_digit(c: char) -> bool {
    '0' as u32 <= c as u32 && c as u32 <= '9' as u32
}

pub open spec fn digit_value(c: char) -> int {
    c as u32 - '0' as u32
}

pub open spec fn all_digits(s: Seq<char>) -> bool {
    forall|i: int| 0 <= i < s.len() ==> is_digit(#[trigger] s[i])
}

/// The number that the decimal digits `s` spell.
pub open spec fn digits_value(s: Seq<char>) -> nat
    decreases s.len(),
{
    if s.len() == 0 {
        0
    } else {
        (digits_value(s.drop_last()) * 10 + digit_value(s.last())) as nat
    }
}

/// The digits after an optional leading `+`.
pub open spec fn unsigned_body(s: Seq<char>) -> Seq<char> {
    if s.len() > 0 && s[0] == '+' {
        s.drop_first()
    } else {
        s
    }
}

/// `str::parse` for an unsigned integer type whose largest value is `max`:
/// an optional `+`, then at least one ASCII digit, and a value at most `max`.
pub open spec fn parse_unsigned(s: Seq<char>, max: nat) -> Option<nat> {
    let d = unsigned_body(s);
    if d.len() > 0 && all_digits(d) && digits_value(d) <= max {
        Some(digits_value(d))
    } else {
        None
    }
}

/// `str::parse::<i64>`: an optional sign, then at least one ASCII digit,
/// within the range of `i64`.
pub open spec fn parse_i64_spec(s: Seq<char>) -> Option<int> {
    if s.len() > 0 && s[0] == '-' {
        let d = s.drop_first();
        if d.len() > 0 && all_digits(d) && digits_value(d) <= 0x8000_0000_0000_0000 {
            Some(-(digits_value(d) as int))
        } else {
            None
        }
    } else {
        match parse_unsigned(s, 0x7fff_ffff_ffff_ffff) {
            Some(v) => Some(v as int),
            None => None,
        }
    }
}

pub open spec fn digit_char(d: nat) -> char {
    (('0' as u32) + d) as char
}

/// The decimal rendering of `n`, as `Display` writes it.
pub open spec fn decimal(n: nat) -> Seq<char>
    decreases n,
{
    if n < 10 {
        seq![digit_char(n)]
    } else {
        decimal(n / 10).push(digit_char(n % 10))
    }
}

/// ASCII-only lowercase mapping (`char::to_ascii_lowercase`).
pub open spec fn ascii_lower_char(c: char) -> char {
    if 'A' as u32 <= c as u32 && c as u32 <= 'Z' as u32 {
        ((c as u32) + 32) as char
    } else {
        c
    }
}

pub open spec fn ascii_lower(s: Seq<char>) -> Seq<char> {
    s.map_values(|c: char| ascii_lower_char(c))
}

/// Lexicographic order on character sequences (the order of `str`'s `Ord`).
pub open spec fn lex_lt(a: Seq<char>, b: Seq<char>) -> bool
    decreases a.len(),
{
    if a.len() == 0 {
        b.len() > 0
    } else if b.len() == 0 {
        false
    } else if a[0] != b[0] {
        (a[0] as u32) < (b[0] as u32)
    } else {
        lex_lt(a.drop_first(), b.drop_first())
    }
}

pub open spec fn lex_le(a: Seq<char>, b: Seq<char>) -> bool {
    lex_lt(a, b) || a == b
}

/// Index of the first `c` at or after `i`, if any.
pub open spec fn find_char_from(s: Seq<char>, c: char, i: int) -> Option<int>
    decreases s.len() - i,
{
    if i < 0 || i >= s.len() {
        None
    } else if s[i] == c {
        Some(i)
    } else {
        find_char_from(s, c, i + 1)
    }
}

/// A line without its `\r` terminator half.
pub open spec fn strip_cr(line: Seq<char>) -> Seq<char> {
    if line.len() > 0 && line.last() == '\r' {
        line.drop_last()
    } else {
        line
    }
}

/// `str::lines`: pieces ended by `\n` (a `\r` before it dropped), and a
/// final unterminated piece when non-empty.
pub open spec fn lines(s: Seq<char>) -> Seq<Seq<char>>
    decreases s.len(),
{
    if s.len() == 0 {
        Seq::empty()
    } else {
        match find_char_from(s, '\n', 0) {
            Some(i) => {
                if 0 <= i < s.len() {
                    seq![strip_cr(s.subrange(0, i))] + lines(s.subrange(i + 1, s.len() as int))
                } else {
                    Seq::empty()
                }
            },
            None => seq![s],
        }
    }
}

/// UTF-8 length of one character (`char::len_utf8`).
pub open spec fn char_utf8_len(c: char) -> nat {
    if (c as u32) < 0x80 {
        1
    } else if (c as u32) < 0x800 {
        2
    } else if (c as u32) < 0x10000 {
        3
    } else {
        4
    }
}

/// UTF-8 length of a text (`str::len`).
pub open spec fn utf8_len(s: Seq<char>) -> nat
    decreases s.len(),
{
    if s.len() == 0 {
        0
    } else {
        utf8_len(s.drop_last()) + char_utf8_len(s.last())
    }
}

/// `sep`-joined texts (`[T]::join`).
pub open spec fn join_with(parts: Seq<Seq<char>>, sep: Seq<char>) -> Seq<char>
    decreases parts.len(),
{
    if parts.len() == 0 {
        Seq::empty()
    } else if parts.len() == 1 {
        parts[0]
    } else {
        join_with(parts.drop_last(), sep) + sep + parts.last()
    }
}

/// `str::split` on one separator character: the pieces between separators,
/// always at least one.
pub open spec fn split_on(s: Seq<char>, sep: char) -> Seq<Seq<char>>
    decreases s.len(),
{
    match find_char_from(s, sep, 0) {
        Some(i) => if 0 <= i < s.len() {
            seq![s.take(i)] + split_on(s.skip(i + 1), sep)
        } else {
            seq![s]
        },
        None => seq![s],
    }
}

/// The trimmed pieces, empty ones dropped.
pub open spec fn kept_trimmed(pieces: Seq<Seq<char>>) -> Seq<Seq<char>>
    decreases pieces.len(),
{
    if pieces.len() == 0 {
        Seq::empty()
    } else {
        (if trim(pieces[0]).len() == 0 {
            Seq::empty()
        } else {
            seq![trim(pieces[0])]
        }) + kept_trimmed(pieces.drop_first())
    }
}

/// A separated list: the trimmed, non-empty pieces of `s`.
pub open spec fn list_items(s: Seq<char>, sep: char) -> Seq<Seq<char>> {
    kept_trimmed(split_on(s, sep))
}

// ---------------------------------------------------------------------------
// Lemmas
// ---------------------------------------------------------------------------

pub proof fn lemma_find_char_from(s: Seq<char>, c: char, i: int)
    requires
        0 <= i <= s.len(),
    ensures
        match find_char_from(s, c, i) {
            Some(j) => i <= j < s.len() && s[j] == c && forall|k: int| i <= k < j ==> s[k] != c,
            None => forall|k: int| i <= k < s.len() ==> s[k] != c,
        },
    decreases s.len() - i,
{
    if i < s.len() && s[i] != c {
        lemma_find_char_from(s, c, i + 1);
    }
}

pub proof fn lemma_first_non_ws_bounds(s: Seq<char>, i: int)
    requires
        0 <= i <= s.len(),
    ensures
        i <= first_non_ws_from(s, i) <= s.len(),
        forall|k: int| i <= k < first_non_ws_from(s, i) ==> is_ws(#[trigger] s[k]),
        first_non_ws_from(s, i) < s.len() ==> !is_ws(s[first_non_ws_from(s, i)]),
    decreases s.len() - i,
{
    if i < s.len() && is_ws(s[i]) {
        lemma_first_non_ws_bounds(s, i + 1);
    }
}

pub proof fn lemma_last_non_ws_bounds(s: Seq<char>, j: int)
    requires
        0 <= j <= s.len(),
    ensures
        0 <= last_non_ws_end(s, j) <= j,
        forall|k: int| last_non_ws_end(s, j) <= k < j ==> is_ws(#[trigger] s[k]),
        last_non_ws_end(s, j) > 0 ==> !is_ws(s[last_non_ws_end(s, j) - 1]),
    decreases j,
{
    if j > 0 && is_ws(s[j - 1]) {
        lemma_last_non_ws_bounds(s, j - 1);
    }
}

/// What `trim` leaves has no whitespace at either end.
pub proof fn lemma_trim_shape(s: Seq<char>)
    ensures
        trim(s).len() > 0 ==> !is_ws(trim(s)[0]) && !is_ws(trim(s).last()),
{
    lemma_first_non_ws_bounds(s, 0);
    lemma_last_non_ws_bounds(s, s.len() as int);
}

/// A text with no whitespace at either end is its own trim.
pub proof fn lemma_trim_of_bare(s: Seq<char>)
    requires
        s.len() > 0 ==> !is_ws(s[0]) && !is_ws(s.last()),
    ensures
        trim(s) == s,
{
    lemma_first_non_ws_bounds(s, 0);
    lemma_last_non_ws_bounds(s, s.len() as int);
    if s.len() > 0 {
        assert(first_non_ws_from(s, 0) == 0);
        assert(last_non_ws_end(s, s.len() as int) == s.len());
        assert(s.subrange(0, s.len() as int) =~= s);
    }
}

/// Trimming twice is trimming once.
pub proof fn lemma_trim_idempotent(s: Seq<char>)
    ensures
        trim(trim(s)) == trim(s),
{
    lemma_trim_shape(s);
    lemma_trim_of_bare(trim(s));
}

/// The UTF-8 length of the first `i` characters never exceeds that of more.
pub proof fn lemma_utf8_len_prefix_mono(s: Seq<char>, i: int, j: int)
    requires
        0 <= i <= j <= s.len(),
    ensures
        utf8_len(s.take(i)) <= utf8_len(s.take(j)),
    decreases j - i,
{
    if i < j {
        lemma_utf8_len_prefix_mono(s, i, j - 1);
        assert(s.take(j).drop_last() =~= s.take(j - 1));
    }
}

/// Each character adds at least one byte.
pub proof fn lemma_utf8_len_prefix_strict(s: Seq<char>, i: int, j: int)
    requires
        0 <= i < j <= s.len(),
    ensures
        utf8_len(s.take(i)) < utf8_len(s.take(j)),
    decreases j - i,
{
    assert(s.take(j).drop_last() =~= s.take(j - 1));
    if i < j - 1 {
        lemma_utf8_len_prefix_strict(s, i, j - 1);
    }
}

pub proof fn lemma_digits_value_push(s: Seq<char>, c: char)
    requires
        is_digit(c),
    ensures
        digits_value(s.push(c)) == digits_value(s) * 10 + digit_value(c),
{
    assert(s.push(c).drop_last() =~= s);
}

pub proof fn lemma_decimal_nonempty(n: nat)
    ensures
        decimal(n).len() >= 1,
    decreases n,
{
    if n >= 10 {
        lemma_decimal_nonempty(n / 10);
    }
}

// ---------------------------------------------------------------------------
// Executable primitives
// ---------------------------------------------------------------------------

/// The Unicode lowercase mapping of a text, as std's `str::to_lowercase`
/// computes it.
pub uninterp spec fn lowercase(s: Seq<char>) -> Seq<char>;

/// std's `str::to_lowercase`. The contract names the result and claims
/// nothing more of it.
#[verifier::external_body]
pub(crate) fn to_lowercase(s: &str) -> (r: String)
    ensures
        r@ == lowercase(s@),
{
    s.to_lowercase()
}

/// `String::push` from std: appends one character.
#[verifier::external_body]
pub(crate) fn push_char(s: &mut String, c: char)
    ensures
        final(s)@ == old(s)@.push(c),
{
    s.push(c);
}

/// The text that `String::from_utf8_lossy` decodes from `bytes`.
pub uninterp spec fn utf8_lossy(bytes: Seq<u8>) -> Seq<char>;

/// `String::from_utf8_lossy`, owned: invalid sequences become U+FFFD.
#[verifier::external_body]
pub(crate) fn from_utf8_lossy(bytes: &[u8]) -> (r: String)
    ensures
        r@ == utf8_lossy(bytes@),
{
    String::from_utf8_lossy(bytes).into_owned()
}

/// The characters of `s`, in order.
pub fn chars_of(s: &str) -> (out: Vec<char>)
    ensures
        out@ == s@,
{
    let mut out: Vec<char> = Vec::new();
    for c in it: s.chars()
        invariant
            out@ == it.seq().take(it.index() as int),
            it.seq() == s@,
    {
        out.push(c);
    }
    out
}

/// The string made of `v[from..to]`.
pub fn string_of_range(v: &Vec<char>, from: usize, to: usize) -> (out: String)
    requires
        from <= to <= v.len(),
    ensures
        out@ == v@.subrange(from as int, to as int),
{
    let mut out = String::new();
    let mut i = from;
    while i < to
        invariant
            from <= i <= to <= v.len(),
            out@ == v@.subrange(from as int, i as int),
        decreases to - i,
    {
        push_char(&mut out, v[i]);
        assert(v@.subrange(from as int, i + 1) =~= v@.subrange(from as int, i as int).push(v@[i as int]));
        i += 1;
    }
    out
}

/// The string made of all of `v`.
pub fn string_of(v: &Vec<char>) -> (out: String)
    ensures
        out@ == v@,
{
    let out = string_of_range(v, 0, v.len());
    assert(v@.subrange(0, v@.len() as int) =~= v@);
    out
}

/// A copy of `s` as an owned string.
pub fn owned(s: &str) -> (out: String)
    ensures
        out@ == s@,
{
    let v = chars_of(s);
    string_of(&v)
}

pub fn is_ws_char(c: char) -> (b: bool)
    ensures
        b == is_ws(c),
{
    let u = c as u32;
    (0x09 <= u && u <= 0x0D) || u == 0x20 || u == 0x85 || u == 0xA0 || u == 0x1680 || (0x2000
        <= u && u <= 0x200A) || u == 0x2028 || u == 0x2029 || u == 0x202F || u == 0x205F || u
        == 0x3000
}

/// The bounds `[a, b)` of the trimmed part of `v`.
pub fn trim_bounds(v: &Vec<char>) -> (r: (usize, usize))
    ensures
        r.0 <= r.1 <= v.len(),
        v@.subrange(r.0 as int, r.1 as int) == trim(v@),
{
    let n = v.len();
    let mut a: usize = 0;
    while a < n && is_ws_char(v[a])
        invariant
            a <= n == v.len(),
            first_non_ws_from(v@, a as int) == first_non_ws_from(v@, 0),
        decreases n - a,
    {
        a += 1;
    }
    assert(first_non_ws_from(v@, a as int) == a);
    let mut b: usize = n;
    while b > 0 && is_ws_char(v[b - 1])
        invariant
            b <= n == v.len(),
            last_non_ws_end(v@, b as int) == last_non_ws_end(v@, n as int),
        decreases b,
    {
        b -= 1;
    }
    assert(last_non_ws_end(v@, b as int) == b);
    if b <= a {
        assert(v@.subrange(a as int, a as int) =~= Seq::<char>::empty());
        (a, a)
    } else {
        (a, b)
    }
}

/// `str::trim`, as an owned string.
pub fn trim_str(s: &str) -> (out: String)
    ensures
        out@ == trim(s@),
{
    let v = chars_of(s);
    let (a, b) = trim_bounds(&v);
    string_of_range(&v, a, b)
}

/// Whether `v` starts with `p`.
pub fn vec_starts_with(v: &Vec<char>, p: &Vec<char>) -> (b: bool)
    ensures
        b == starts_with(v@, p@),
{
    if p.len() > v.len() {
        return false;
    }
    let mut i: usize = 0;
    while i < p.len()
        invariant
            p.len() <= v.len(),
            i <= p.len(),
            forall|k: int| 0 <= k < i ==> v@[k] == p@[k],
        decreases p.len() - i,
    {
        if v[i] != p[i] {
            assert(v@.subrange(0, p@.len() as int)[i as int] != p@[i as int]);
            return false;
        }
        i += 1;
    }
    assert(v@.subrange(0, p@.len() as int) =~= p@);
    true
}

/// Whether `v[at..]` starts with `p`.
pub fn vec_matches_at(v: &Vec<char>, p: &Vec<char>, at: usize) -> (b: bool)
    requires
        at <= v.len(),
    ensures
        b == contains_at(v@, p@, at as int),
{
    if p.len() > v.len() - at {
        return false;
    }
    let mut i: usize = 0;
    while i < p.len()
        invariant
            at + p.len() <= v.len(),
            i <= p.len(),
            forall|k: int| 0 <= k < i ==> v@[at + k] == p@[k],
        decreases p.len() - i,
    {
        if v[at + i] != p[i] {
            assert(v@.subrange(at as int, at + p@.len())[i as int] != p@[i as int]);
            return false;
        }
        i += 1;
    }
    assert(v@.subrange(at as int, at + p@.len()) =~= p@);
    true
}

/// `str::contains` for a string needle.
pub fn vec_contains(hay: &Vec<char>, needle: &Vec<char>) -> (b: bool)
    ensures
        b == contains(hay@, needle@),
{
    let mut i: usize = 0;
    while i < hay.len()
        invariant
            i <= hay.len(),
            forall|k: int| 0 <= k < i ==> !contains_at(hay@, needle@, k),
        decreases hay.len() - i,
    {
        if vec_matches_at(hay, needle, i) {
            return true;
        }
        i += 1;
    }
    if vec_matches_at(hay, needle, i) {
        return true;
    }
    assert forall|k: int| !contains_at(hay@, needle@, k) by {
        if 0 <= k && k + needle@.len() <= hay@.len() {
            assert(k <= hay@.len());
        }
    }
    false
}

/// Whether two character vectors are equal.
pub fn vec_eq(a: &Vec<char>, b: &Vec<char>) -> (r: bool)
    ensures
        r == (a@ == b@),
{
    if a.len() != b.len() {
        return false;
    }
    let r = vec_starts_with(a, b);
    proof {
        if r {
            assert(a@.subrange(0, b@.len() as int) =~= a@);
        } else {
            assert(a@.subrange(0, b@.len() as int) =~= a@);
        }
    }
    r
}

/// Whether two strings are equal.
pub fn str_eq(a: &str, b: &str) -> (r: bool)
    ensures
        r == (a@ == b@),
{
    let va = chars_of(a);
    let vb = chars_of(b);
    vec_eq(&va, &vb)
}

/// Whether `s` starts with `p`.
pub fn str_starts_with(s: &str, p: &str) -> (b: bool)
    ensures
        b == starts_with(s@, p@),
{
    let vs = chars_of(s);
    let vp = chars_of(p);
    vec_starts_with(&vs, &vp)
}

/// `str::strip_prefix`, as an owned string.
pub fn str_strip_prefix(s: &str, p: &str) -> (out: Option<String>)
    ensures
        match out {
            Some(r) => strip_prefix(s@, p@) == Some(r@),
            None => strip_prefix(s@, p@) is None,
        },
{
    let vs = chars_of(s);
    let vp = chars_of(p);
    if vec_starts_with(&vs, &vp) {
        Some(string_of_range(&vs, vp.len(), vs.len()))
    } else {
        None
    }
}

/// `str::contains` for a string needle.
pub fn str_contains(hay: &str, needle: &str) -> (b: bool)
    ensures
        b == contains(hay@, needle@),
{
    let h = chars_of(hay);
    let n = chars_of(needle);
    vec_contains(&h, &n)
}

/// Decimal digits of the character sequence `v`, as a number no larger than
/// `max`, when `v` is made of digits only.
fn digits_upto(v: &Vec<char>, from: usize, max: u64) -> (r: Option<u64>)
    requires
        from <= v.len(),
    ensures
        match r {
            Some(n) => {
                &&& all_digits(v@.skip(from as int))
                &&& digits_value(v@.skip(from as int)) == n
                &&& n <= max
            },
            None => !all_digits(v@.skip(from as int)) || digits_value(v@.skip(from as int))
                > max,
        },
{
    let ghost d = v@.skip(from as int);
    let mut acc: u64 = 0;
    let mut i = from;
    assert(d.take(0) =~= Seq::<char>::empty());
    while i < v.len()
        invariant
            from <= i <= v.len(),
            d == v@.skip(from as int),
            all_digits(d.take(i - from)),
            digits_value(d.take(i - from)) == acc,
            acc <= max,
        decreases v.len() - i,
    {
        let c = v[i];
        let ghost pre = d.take(i - from);
        assert(d.take(i + 1 - from) =~= pre.push(c));
        let u = c as u32;
        if !(48 <= u && u <= 57) {
            assert(!is_digit(d[i - from]));
            return None;
        }
        proof {
            lemma_digits_value_push(pre, c);
        }
        let dv = (u - 48) as u64;
        if dv > max {
            proof {
                lemma_digits_prefix_le(d, i + 1 - from);
            }
            return None;
        }
        if acc > (max - dv) / 10 {
            proof {
                lemma_digits_prefix_le(d, i + 1 - from);
                assert(acc * 10 + dv > max) by (nonlinear_arith)
                    requires
                        acc > (max - dv) / 10,
                        dv <= 9,
                        dv <= max,
                ;
            }
            return None;
        }
        assert(acc * 10 + dv <= max) by (nonlinear_arith)
            requires
                acc <= (max - dv) / 10,
                dv <= max,
        ;
        acc = acc * 10 + dv;
        i += 1;
    }
    assert(d.take(i - from) =~= d);
    Some(acc)
}

/// The value of a digit prefix never exceeds that of the whole digit run.
pub proof fn lemma_digits_prefix_le(d: Seq<char>, k: int)
    requires
        0 <= k <= d.len(),
        all_digits(d.take(k)),
    ensures
        all_digits(d) ==> digits_value(d.take(k)) <= digits_value(d),
    decreases d.len() - k,
{
    if k < d.len() && all_digits(d) {
        let next = d.take(k + 1);
        assert(next =~= d.take(k).push(d[k]));
        lemma_digits_value_push(d.take(k), d[k]);
        assert(all_digits(next));
        lemma_digits_prefix_le(d, k + 1);
    }
    if k == d.len() {
        assert(d.take(k) =~= d);
    }
}

/// `str::parse` for an unsigned integer type whose largest value is `max`.
pub fn parse_unsigned_str(s: &str, max: u64) -> (r: Option<u64>)
    ensures
        match r {
            Some(n) => parse_unsigned(s@, max as nat) == Some(n as nat),
            None => parse_unsigned(s@, max as nat) is None,
        },
{
    let v = chars_of(s);
    let from: usize = if v.len() > 0 && v[0] == '+' { 1 } else { 0 };
    proof {
        if from == 1 {
            assert(v@.skip(1) =~= v@.drop_first());
        } else {
            assert(v@.skip(0) =~= v@);
        }
    }
    if from >= v.len() {
        return None;
    }
    digits_upto(&v, from, max)
}

/// `str::parse::<u32>`.
pub fn parse_u32(s: &str) -> (r: Option<u32>)
    ensures
        match r {
            Some(n) => parse_unsigned(s@, u32::MAX as nat) == Some(n as nat),
            None => parse_unsigned(s@, u32::MAX as nat) is None,
        },
{
    match parse_unsigned_str(s, u32::MAX as u64) {
        Some(n) => Some(n as u32),
        None => None,
    }
}

/// `str::parse::<i64>`.
pub fn parse_i64(s: &str) -> (r: Option<i64>)
    ensures
        match r {
            Some(n) => parse_i64_spec(s@) == Some(n as int),
            None => parse_i64_spec(s@) is None,
        },
{
    let v = chars_of(s);
    if v.len() > 0 && v[0] == '-' {
        assert(v@.skip(1) =~= v@.drop_first());
        if v.len() == 1 {
            return None;
        }
        match digits_upto(&v, 1, 0x8000_0000_0000_0000) {
            Some(n) => {
                if n == 0x8000_0000_0000_0000 {
                    Some(i64::MIN)
                } else {
                    Some(-(n as i64))
                }
            },
            None => None,
        }
    } else {
        match parse_unsigned_str(s, 0x7fff_ffff_ffff_ffff) {
            Some(n) => Some(n as i64),
            None => None,
        }
    }
}

/// The lines of `s` (`str::lines`).
pub fn lines_of(s: &str) -> (out: Vec<String>)
    ensures
        out@.map_values(|l: String| l@) == lines(s@),
{
    let v = chars_of(s);
    let mut out: Vec<String> = Vec::new();
    let mut start: usize = 0;
    let ghost whole = v@;
    assert(v@.subrange(0, v@.len() as int) =~= v@);
    while start < v.len()
        invariant
            start <= v.len(),
            whole == v@,
            lines(whole) == out@.map_values(|l: String| l@) + lines(
                whole.subrange(start as int, whole.len() as int),
            ),
        decreases v.len() - start,
    {
        let ghost rest = whole.subrange(start as int, whole.len() as int);
        let mut j = start;
        while j < v.len() && v[j] != '\n'
            invariant
                start <= j <= v.len(),
                whole == v@,
                forall|k: int| start <= k < j ==> v@[k] != '\n',
            decreases v.len() - j,
        {
            j += 1;
        }
        proof {
            lemma_find_char_from(rest, '\n', 0);
        }
        let ghost prev = out@;
        if j < v.len() {
            let end = if j > start && v[j - 1] == '\r' {
                j - 1
            } else {
                j
            };
            out.push(string_of_range(&v, start, end));
            proof {
                assert(rest[j - start] == '\n');
                assert forall|k: int| 0 <= k < j - start implies rest[k] != '\n' by {
                    assert(rest[k] == v@[start + k]);
                }
                assert(find_char_from(rest, '\n', 0) == Some((j - start) as int)) by {
                    lemma_find_char_from(rest, '\n', 0);
                    let f = find_char_from(rest, '\n', 0);
                    if f is None {
                        assert(rest[j - start] != '\n');
                    } else {
                        let fj = f.unwrap();
                        if fj < j - start {
                            assert(rest[fj] != '\n');
                        } else if fj > j - start {
                            assert(rest[j - start] != '\n');
                        }
                    }
                }
                let line = rest.subrange(0, (j - start) as int);
                assert(line =~= v@.subrange(start as int, j as int));
                assert(strip_cr(line) =~= v@.subrange(start as int, end as int));
                assert(rest.subrange((j - start) + 1, rest.len() as int) =~= whole.subrange(
                    j + 1,
                    whole.len() as int,
                ));
                assert(out@.map_values(|l: String| l@) =~= prev.map_values(|l: String| l@).push(
                    strip_cr(line),
                ));
            }
            start = j + 1;
        } else {
            out.push(string_of_range(&v, start, v.len()));
            proof {
                assert forall|k: int| 0 <= k < rest.len() implies rest[k] != '\n' by {
                    assert(rest[k] == v@[start + k]);
                }
                assert(find_char_from(rest, '\n', 0) is None) by {
                    lemma_find_char_from(rest, '\n', 0);
                    if find_char_from(rest, '\n', 0) is Some {
                        let fj = find_char_from(rest, '\n', 0).unwrap();
                        assert(rest[fj] != '\n');
                    }
                }
                assert(whole.subrange(v.len() as int, whole.len() as int) =~= Seq::<char>::empty());
                assert(out@.map_values(|l: String| l@) =~= prev.map_values(|l: String| l@).push(
                    rest,
                ));
            }
            start = v.len();
        }
    }
    assert(whole.subrange(start as int, whole.len() as int) =~= Seq::<char>::empty());
    assert(out@.map_values(|l: String| l@) + Seq::<Seq<char>>::empty() =~= out@.map_values(
        |l: String| l@,
    ));
    out
}

/// The UTF-8 length of `s` (`str::len`).
pub fn utf8_length(s: &str) -> (n: usize)
    requires
        s@.len() * 4 <= usize::MAX,
    ensures
        n == utf8_len(s@),
{
    let v = chars_of(s);
    let mut n: usize = 0;
    let mut i: usize = 0;
    while i < v.len()
        invariant
            i <= v.len(),
            v@ == s@,
            v@.len() * 4 <= usize::MAX,
            n == utf8_len(v@.take(i as int)),
            n <= i * 4,
        decreases v.len() - i,
    {
        assert(v@.take(i + 1).drop_last() =~= v@.take(i as int));
        let u = v[i] as u32;
        let w: usize = if u < 0x80 {
            1
        } else if u < 0x800 {
            2
        } else if u < 0x10000 {
            3
        } else {
            4
        };
        n = n + w;
        i += 1;
    }
    assert(v@.take(v@.len() as int) =~= v@);
    n
}

/// The character of the decimal digit `d`.
pub fn digit_to_char(d: u64) -> (c: char)
    requires
        d < 10,
    ensures
        c == digit_char(d as nat),
        is_digit(c),
{
    match d {
        0 => '0',
        1 => '1',
        2 => '2',
        3 => '3',
        4 => '4',
        5 => '5',
        6 => '6',
        7 => '7',
        8 => '8',
        _ => '9',
    }
}

/// Appends the decimal rendering of `n` to `out`.
pub fn push_decimal(out: &mut String, n: u64)
    ensures
        final(out)@ == old(out)@ + decimal(n as nat),
    decreases n,
{
    if n >= 10 {
        push_decimal(out, n / 10);
    }
    let c = digit_to_char(n % 10);
    push_char(out, c);
    proof {
        if n >= 10 {
            assert(decimal(n as nat) == decimal((n / 10) as nat).push(digit_char((n % 10) as nat)));
        } else {
            assert(decimal(n as nat) == seq![digit_char(n as nat)]);
        }
        assert(final(out)@ =~= old(out)@ + decimal(n as nat));
    }
}

/// Keeps the trimmed, non-empty strings of `v`, in order.
pub fn keep_trimmed(v: &Vec<String>) -> (out: Vec<String>)
    ensures
        views(out@) == kept_trimmed(views(v@)),
{
    let mut out: Vec<String> = Vec::new();
    let mut i: usize = 0;
    let ghost all = views(v@);
    assert(all.skip(0) =~= all);
    while i < v.len()
        invariant
            i <= v.len(),
            all == views(v@),
            kept_trimmed(all) == views(out@) + kept_trimmed(all.skip(i as int)),
        decreases v.len() - i,
    {
        let t = trim_str(v[i].as_str());
        proof {
            assert(all.skip(i as int).drop_first() =~= all.skip(i + 1));
            assert(all.skip(i as int)[0] == v@[i as int]@);
        }
        if t.as_str().is_empty() {
            assert(views(out@) + kept_trimmed(all.skip(i as int)) =~= views(out@) + kept_trimmed(
                all.skip(i + 1),
            ));
        } else {
            let ghost before = out@;
            out.push(t);
            proof {
                lemma_views_push(before, t);
                assert(views(out@) + kept_trimmed(all.skip(i + 1)) =~= views(before) + kept_trimmed(
                    all.skip(i as int),
                ));
            }
        }
        i += 1;
    }
    assert(all.skip(i as int) =~= Seq::<Seq<char>>::empty());
    assert(views(out@) + Seq::<Seq<char>>::empty() =~= views(out@));
    out
}

/// The trimmed, non-empty pieces of `s` split on `sep`.
pub fn split_items(s: &str, sep: char) -> (out: Vec<String>)
    ensures
        views(out@) == list_items(s@, sep),
{
    let v = chars_of(s);
    let ghost whole = v@;
    let mut out: Vec<String> = Vec::new();
    let mut start: usize = 0;
    let mut done = false;
    assert(whole.subrange(0, whole.len() as int) =~= whole);
    while !done
        invariant
            start <= v.len(),
            whole == v@,
            !done ==> list_items(whole, sep) == views(out@) + kept_trimmed(
                split_on(whole.subrange(start as int, whole.len() as int), sep),
            ),
            done ==> list_items(whole, sep) == views(out@),
        decreases (if done {
            0
        } else {
            v@.len() + 1 - start
        }),
    {
        let ghost rest = whole.subrange(start as int, whole.len() as int);
        let mut j = start;
        while j < v.len() && v[j] != sep
            invariant
                start <= j <= v.len(),
                whole == v@,
                forall|k: int| start <= k < j ==> v@[k] != sep,
            decreases v.len() - j,
        {
            j += 1;
        }
        proof {
            lemma_find_char_from(rest, sep, 0);
            assert forall|k: int| 0 <= k < j - start implies rest[k] != sep by {
                assert(rest[k] == v@[start + k]);
            }
            let f = find_char_from(rest, sep, 0);
            if j < v.len() {
                assert(rest[j - start] == sep);
                if f is None {
                    assert(rest[j - start] != sep);
                } else {
                    let fj = f.unwrap();
                    if fj < j - start {
                        assert(rest[fj] != sep);
                    } else if fj > j - start {
                        assert(rest[j - start] != sep);
                    }
                }
                assert(f == Some((j - start) as int));
            } else {
                if f is Some {
                    let fj = f.unwrap();
                    assert(rest[fj] != sep);
                }
                assert(f is None);
            }
        }
        let piece = string_of_range(&v, start, j);
        let t = trim_str(piece.as_str());
        let ghost before = out@;
        let ghost first = rest.take(j - start);
        proof {
            assert(first =~= whole.subrange(start as int, j as int));
        }
        if !t.as_str().is_empty() {
            out.push(t);
            proof {
                lemma_views_push(before, t);
            }
        }
        proof {
            assert(views(out@) =~= views(before) + (if trim(first).len() == 0 {
                Seq::<Seq<char>>::empty()
            } else {
                seq![trim(first)]
            }));
        }
        if j < v.len() {
            proof {
                let tail = rest.skip(j - start + 1);
                assert(tail =~= whole.subrange(j + 1, whole.len() as int));
                let pieces = split_on(rest, sep);
                assert(pieces == seq![first] + split_on(tail, sep));
                assert(pieces.drop_first() =~= split_on(tail, sep));
                assert(pieces[0] == first);
                assert(views(out@) + kept_trimmed(split_on(tail, sep)) =~= views(before)
                    + kept_trimmed(pieces));
            }
            start = j + 1;
        } else {
            proof {
                assert(first =~= rest);
                let pieces = split_on(rest, sep);
                assert(pieces == seq![rest]);
                assert(pieces.drop_first() =~= Seq::<Seq<char>>::empty());
                assert(kept_trimmed(Seq::<Seq<char>>::empty()) == Seq::<Seq<char>>::empty());
                assert(views(out@) =~= views(before) + kept_trimmed(pieces));
            }
            done = true;
        }
    }
    out
}


/// `&s[..n]` when byte `n` is a character boundary of `s`: the characters
/// whose UTF-8 encoding takes exactly the first `n` bytes.
pub open spec fn byte_prefix(s: Seq<char>, n: nat) -> Option<Seq<char>> {
    if exists|k: int| 0 <= k <= s.len() && #[trigger] utf8_len(s.take(k)) == n {
        Some(s.take(choose|k: int| 0 <= k <= s.len() && #[trigger] utf8_len(s.take(k)) == n))
    } else {
        None
    }
}

/// Every character of `s` is ASCII.
pub open spec fn is_ascii_text(s: Seq<char>) -> bool {
    forall|i: int| 0 <= i < s.len() ==> (#[trigger] s[i] as u32) < 0x80
}

/// An ASCII text has one byte per character.
pub proof fn lemma_ascii_utf8_len(s: Seq<char>)
    requires
        is_ascii_text(s),
    ensures
        utf8_len(s) == s.len(),
    decreases s.len(),
{
    if s.len() > 0 {
        assert(is_ascii_text(s.drop_last())) by {
            assert forall|i: int| 0 <= i < s.drop_last().len() implies (
            #[trigger] s.drop_last()[i] as u32) < 0x80 by {
                assert(s.drop_last()[i] == s[i]);
            }
        }
        lemma_ascii_utf8_len(s.drop_last());
        assert((s[s.len() - 1] as u32) < 0x80);
    }
}

/// An ASCII text can be cut after any of its first characters.
pub proof fn lemma_ascii_byte_prefix(s: Seq<char>, n: nat)
    requires
        is_ascii_text(s),
        n <= s.len(),
    ensures
        byte_prefix(s, n) == Some(s.take(n as int)),
{
    assert forall|k: int| 0 <= k <= s.len() implies #[trigger] utf8_len(s.take(k)) == k by {
        assert(is_ascii_text(s.take(k))) by {
            assert forall|i: int| 0 <= i < s.take(k).len() implies (#[trigger] s.take(k)[i] as u32)
                < 0x80 by {
                assert(s.take(k)[i] == s[i]);
            }
        }
        lemma_ascii_utf8_len(s.take(k));
    }
    assert(utf8_len(s.take(n as int)) == n);
}

/// `&s[..n]`, or `None` where that slice would panic.
pub fn byte_prefix_of(s: &str, n: usize) -> (r: Option<String>)
    requires
        n <= usize::MAX - 4,
    ensures
        opt_view(r) == byte_prefix(s@, n as nat),
{
    let v = chars_of(s);
    let mut len: usize = 0;
    let mut k: usize = 0;
    while k < v.len() && len < n
        invariant
            k <= v.len(),
            v@ == s@,
            len == utf8_len(v@.take(k as int)),
            forall|j: int| 0 <= j < k ==> utf8_len(v@.take(j)) < n,
            len <= n + 4,
            n <= usize::MAX - 4,
        decreases v.len() - k,
    {
        assert(v@.take(k + 1).drop_last() =~= v@.take(k as int));
        let u = v[k] as u32;
        let w: usize = if u < 0x80 {
            1
        } else if u < 0x800 {
            2
        } else if u < 0x10000 {
            3
        } else {
            4
        };
        len = len + w;
        k += 1;
    }
    if len == n {
        proof {
            let c = choose|j: int| 0 <= j <= s@.len() && #[trigger] utf8_len(s@.take(j)) == n;
            assert(utf8_len(s@.take(k as int)) == n);
            if c < k {
                assert(utf8_len(v@.take(c)) < n);
            } else if c > k {
                lemma_utf8_len_prefix_strict(s@, k as int, c);
            }
        }
        Some(string_of_range(&v, 0, k))
    } else {
        proof {
            assert forall|j: int| 0 <= j <= s@.len() implies #[trigger] utf8_len(s@.take(j)) != n by {
                if j < k {
                } else if j == k {
                } else {
                    lemma_utf8_len_prefix_strict(s@, k as int, j);
                    if k < v.len() {
                        assert(len > n);
                    } else {
                        assert(false);
                    }
                }
            }
        }
        None
    }
}


/// A copy of each string of `v`, in order.
pub fn clone_strings(v: &Vec<String>) -> (out: Vec<String>)
    ensures
        views(out@) == views(v@),
{
    let mut out: Vec<String> = Vec::new();
    let mut i: usize = 0;
    while i < v.len()
        invariant
            i <= v.len(),
            views(out@) == views(v@).take(i as int),
        decreases v.len() - i,
    {
        let ghost prev = out@;
        let x = owned(v[i].as_str());
        out.push(x);
        proof {
            lemma_views_push(prev, x);
            assert(views(v@).take(i + 1) =~= views(v@).take(i as int).push(v@[i as int]@));
        }
        i += 1;
    }
    assert(views(v@).take(v@.len() as int) =~= views(v@));
    out
}

} // verus!
