//! Character-level helpers shared by the protocol modules.
//!
//! Strings are reasoned about through their view, the sequence of their
//! characters. The spec functions below say what the executable helpers
//! compute over those sequences.
use vstd::prelude::*;
use vstd::std_specs::iter::IteratorSpec;

verus! {

broadcast use vstd::string::group_string_axioms;

// ─── Spec vocabulary ────────────────────────────────────────────────────────

/// ASCII lower-casing of one character (other characters are unchanged).
pub open spec fn lower_char(c: char) -> char {
    if 'A' <= c && c <= 'Z' {
        ((c as u32) + 32) as char
    } else {
        c
    }
}

/// ASCII upper-casing of one character (other characters are unchanged).
pub open spec fn upper_char(c: char) -> char {
    if 'a' <= c && c <= 'z' {
        ((c as u32) - 32) as char
    } else {
        c
    }
}

/// ASCII lower-casing of a character sequence.
pub open spec fn lower(s: Seq<char>) -> Seq<char> {
    s.map_values(|c: char| lower_char(c))
}

/// ASCII upper-casing of a character sequence.
pub open spec fn upper(s: Seq<char>) -> Seq<char> {
    s.map_values(|c: char| upper_char(c))
}

/// Equality that ignores ASCII case.
pub open spec fn eq_ignore_case(a: Seq<char>, b: Seq<char>) -> bool {
    lower(a) == lower(b)
}

/// The Unicode `White_Space` property.
pub open spec fn is_ws(c: char) -> bool {
    let u = c as u32;
    (0x09 <= u && u <= 0x0d) || u == 0x20 || u == 0x85 || u == 0xa0 || u == 0x1680
        || (0x2000 <= u && u <= 0x200a) || u == 0x2028 || u == 0x2029 || u == 0x202f
        || u == 0x205f || u == 0x3000
}

pub open spec fn is_digit(c: char) -> bool {
    '0' <= c && c <= '9'
}

pub open spec fn is_hex_digit(c: char) -> bool {
    ('0' <= c && c <= '9') || ('a' <= c && c <= 'f') || ('A' <= c && c <= 'F')
}

pub open spec fn all_digits(s: Seq<char>) -> bool {
    forall|i: int| 0 <= i < s.len() ==> is_digit(#[trigger] s[i])
}

/// `s` with leading whitespace removed.
pub open spec fn trim_start(s: Seq<char>) -> Seq<char>
    decreases s.len(),
{
    if s.len() > 0 && is_ws(s[0]) {
        trim_start(s.drop_first())
    } else {
        s
    }
}

/// `s` with trailing whitespace removed.
pub open spec fn trim_end(s: Seq<char>) -> Seq<char>
    decreases s.len(),
{
    if s.len() > 0 && is_ws(s.last()) {
        trim_end(s.drop_last())
    } else {
        s
    }
}

/// `s` with leading and trailing whitespace removed (`str::trim`).
pub open spec fn trim(s: Seq<char>) -> Seq<char> {
    trim_end(trim_start(s))
}

/// `s` with every trailing `c` removed (`str::trim_end_matches(c)`).
pub open spec fn strip_trailing(s: Seq<char>, c: char) -> Seq<char>
    decreases s.len(),
{
    if s.len() > 0 && s.last() == c {
        strip_trailing(s.drop_last(), c)
    } else {
        s
    }
}

/// `t` occurs in `s` starting at index `i`.
pub open spec fn occurs_at(s: Seq<char>, t: Seq<char>, i: int) -> bool {
    0 <= i && i + t.len() <= s.len() && s.subrange(i, i + t.len()) == t
}

/// `t` occurs somewhere in `s`.
pub open spec fn contains_seq(s: Seq<char>, t: Seq<char>) -> bool {
    exists|i: int| occurs_at(s, t, i)
}

/// Index of the first occurrence of `t` in `s` at or after `from`.
pub open spec fn find_from(s: Seq<char>, t: Seq<char>, from: int) -> Option<int>
    decreases s.len() + 1 - from,
{
    if from < 0 || from + t.len() > s.len() {
        None
    } else if occurs_at(s, t, from) {
        Some(from)
    } else {
        find_from(s, t, from + 1)
    }
}

/// The decimal digit for `d < 10`.
pub open spec fn digit_char(d: nat) -> char {
    if d == 0 { '0' } else if d == 1 { '1' } else if d == 2 { '2' } else if d == 3 { '3' }
    else if d == 4 { '4' } else if d == 5 { '5' } else if d == 6 { '6' } else if d == 7 { '7' }
    else if d == 8 { '8' } else { '9' }
}

/// Decimal rendering of a natural number, without sign or leading zeros.
pub open spec fn decimal(n: nat) -> Seq<char>
    decreases n,
{
    if n < 10 {
        seq![digit_char(n)]
    } else {
        decimal(n / 10).push(digit_char(n % 10))
    }
}

/// Decimal rendering of an integer, with a leading `-` when negative.
pub open spec fn decimal_int(n: int) -> Seq<char> {
    if n < 0 {
        seq!['-'] + decimal((-n) as nat)
    } else {
        decimal(n as nat)
    }
}

// ─── Lemmas ─────────────────────────────────────────────────────────────────

pub proof fn lemma_decimal_digits(n: nat)
    ensures
        decimal(n).len() >= 1,
        all_digits(decimal(n)),
    decreases n,
{
    if n >= 10 {
        lemma_decimal_digits(n / 10);
        let d = decimal(n / 10);
        assert forall|i: int| 0 <= i < decimal(n).len() implies is_digit(#[trigger] decimal(n)[i]) by {
            if i < d.len() {
                assert(decimal(n)[i] == d[i]);
            }
        }
    }
}

/// Different numbers have different decimal renderings.
pub proof fn lemma_decimal_injective(a: nat, b: nat)
    requires
        decimal(a) == decimal(b),
    ensures
        a == b,
    decreases a,
{
    lemma_decimal_digits(a / 10);
    lemma_decimal_digits(b / 10);
    if a < 10 && b < 10 {
        assert(decimal(a) == seq![digit_char(a)]);
        assert(decimal(b) == seq![digit_char(b)]);
        assert(seq![digit_char(a)][0] == digit_char(a));
        assert(seq![digit_char(b)][0] == digit_char(b));
    } else if a < 10 {
        assert(decimal(b).len() >= 2);
    } else if b < 10 {
        assert(decimal(a).len() >= 2);
    } else {
        let da = decimal(a / 10);
        let db = decimal(b / 10);
        assert(decimal(a) == da.push(digit_char(a % 10)));
        assert(decimal(b) == db.push(digit_char(b % 10)));
        assert(da.push(digit_char(a % 10)).last() == digit_char(a % 10));
        assert(db.push(digit_char(b % 10)).last() == digit_char(b % 10));
        assert(a % 10 == b % 10);
        assert(da == decimal(a).drop_last());
        assert(db == decimal(b).drop_last());
        lemma_decimal_injective(a / 10, b / 10);
        assert(a == 10 * (a / 10) + a % 10);
        assert(b == 10 * (b / 10) + b % 10);
    }
}

pub proof fn lemma_trim_start_is_suffix(s: Seq<char>)
    ensures
        trim_start(s).len() <= s.len(),
        trim_start(s) == s.subrange(s.len() - trim_start(s).len(), s.len() as int),
    decreases s.len(),
{
    if s.len() > 0 && is_ws(s[0]) {
        lemma_trim_start_is_suffix(s.drop_first());
    } else {
        assert(s == s.subrange(0, s.len() as int));
    }
}

pub proof fn lemma_trim_end_is_prefix(s: Seq<char>)
    ensures
        trim_end(s).len() <= s.len(),
        trim_end(s) == s.subrange(0, trim_end(s).len() as int),
    decreases s.len(),
{
    if s.len() > 0 && is_ws(s.last()) {
        lemma_trim_end_is_prefix(s.drop_last());
    } else {
        assert(s == s.subrange(0, s.len() as int));
    }
}

// ─── Standard-library wrappers ──────────────────────────────────────────────

/// Appends one character to a `String` (`String::push`): the string afterwards
/// holds its former characters followed by `c`.
#[verifier::external_body]
pub(crate) fn string_push(s: &mut String, c: char)
    ensures
        final(s)@ == old(s)@.push(c),
{
    s.push(c);
}

// ─── Conversions ────────────────────────────────────────────────────────────

/// The characters of a string, in order.
pub fn chars_of(s: &str) -> (v: Vec<char>)
    ensures
        v@ == s@,
{
    let mut v: Vec<char> = Vec::new();
    for c in it: s.chars()
        invariant
            v@ == it.seq().take(it.index() as int),
            it.seq() == s@,
    {
        v.push(c);
    }
    v
}

/// A `String` holding exactly the given characters.
pub fn string_of(v: &Vec<char>) -> (s: String)
    ensures
        s@ == v@,
{
    string_of_range(v, 0, v.len())
}

/// A `String` holding `v[from..to]`.
pub fn string_of_range(v: &Vec<char>, from: usize, to: usize) -> (s: String)
    requires
        from <= to <= v.len(),
    ensures
        s@ == v@.subrange(from as int, to as int),
{
    let mut s = String::new();
    let mut i: usize = from;
    while i < to
        invariant
            from <= i <= to <= v.len(),
            s@ == v@.subrange(from as int, i as int),
        decreases to - i,
    {
        string_push(&mut s, v[i]);
        i = i + 1;
        assert(v@.subrange(from as int, i as int) == v@.subrange(from as int, (i - 1) as int).push(
            v@[i - 1],
        ));
    }
    s
}

/// An owned copy of a string slice.
pub fn owned(s: &str) -> (r: String)
    ensures
        r@ == s@,
{
    s.to_string()
}

/// Appends the characters of `t` to `s`.
pub fn push_str(s: &mut String, t: &str)
    ensures
        final(s)@ == old(s)@ + t@,
{
    let v = chars_of(t);
    let ghost start = s@;
    let mut i: usize = 0;
    while i < v.len()
        invariant
            i <= v.len(),
            v@ == t@,
            s@ == start + v@.take(i as int),
        decreases v.len() - i,
    {
        string_push(s, v[i]);
        i = i + 1;
        assert(v@.take(i as int) == v@.take((i - 1) as int).push(v@[i - 1]));
    }
    assert(v@.take(v.len() as int) == v@);
}

/// The concatenation of two strings.
pub fn concat(a: &str, b: &str) -> (r: String)
    ensures
        r@ == a@ + b@,
{
    let mut s = owned(a);
    push_str(&mut s, b);
    s
}

/// The concatenation of three strings.
pub fn concat3(a: &str, b: &str, c: &str) -> (r: String)
    ensures
        r@ == a@ + b@ + c@,
{
    let mut s = owned(a);
    push_str(&mut s, b);
    push_str(&mut s, c);
    s
}

// ─── Character classes ──────────────────────────────────────────────────────

pub fn lower_c(c: char) -> (r: char)
    ensures
        r == lower_char(c),
{
    if 'A' <= c && c <= 'Z' {
        ((c as u8) + 32) as char
    } else {
        c
    }
}

pub fn upper_c(c: char) -> (r: char)
    ensures
        r == upper_char(c),
{
    if 'a' <= c && c <= 'z' {
        ((c as u8) - 32) as char
    } else {
        c
    }
}

pub fn is_whitespace(c: char) -> (r: bool)
    ensures
        r == is_ws(c),
{
    let u = c as u32;
    (0x09 <= u && u <= 0x0d) || u == 0x20 || u == 0x85 || u == 0xa0 || u == 0x1680 || (0x2000 <= u
        && u <= 0x200a) || u == 0x2028 || u == 0x2029 || u == 0x202f || u == 0x205f || u == 0x3000
}

pub fn is_digit_c(c: char) -> (r: bool)
    ensures
        r == is_digit(c),
{
    '0' <= c && c <= '9'
}

// ─── Sequence operations ────────────────────────────────────────────────────

/// Equality of two character vectors.
pub fn vec_eq(a: &Vec<char>, b: &Vec<char>) -> (r: bool)
    ensures
        r == (a@ == b@),
{
    if a.len() != b.len() {
        return false;
    }
    let mut i: usize = 0;
    while i < a.len()
        invariant
            i <= a.len() == b.len(),
            forall|j: int| 0 <= j < i ==> a@[j] == b@[j],
        decreases a.len() - i,
    {
        if a[i] != b[i] {
            return false;
        }
        i = i + 1;
    }
    assert(a@ =~= b@);
    true
}

/// Equality of two strings.
pub fn str_eq(a: &str, b: &str) -> (r: bool)
    ensures
        r == (a@ == b@),
{
    vec_eq(&chars_of(a), &chars_of(b))
}

/// ASCII lower-casing of a character vector.
pub fn lower_vec(a: &Vec<char>) -> (r: Vec<char>)
    ensures
        r@ == lower(a@),
{
    let mut r: Vec<char> = Vec::new();
    let mut i: usize = 0;
    while i < a.len()
        invariant
            i <= a.len(),
            r@ == lower(a@.take(i as int)),
        decreases a.len() - i,
    {
        r.push(lower_c(a[i]));
        i = i + 1;
        assert(lower(a@.take(i as int)) =~= lower(a@.take((i - 1) as int)).push(lower_char(a@[i - 1])));
    }
    assert(a@.take(a.len() as int) == a@);
    r
}

/// ASCII upper-casing of a character vector.
pub fn upper_vec(a: &Vec<char>) -> (r: Vec<char>)
    ensures
        r@ == upper(a@),
{
    let mut r: Vec<char> = Vec::new();
    let mut i: usize = 0;
    while i < a.len()
        invariant
            i <= a.len(),
            r@ == upper(a@.take(i as int)),
        decreases a.len() - i,
    {
        r.push(upper_c(a[i]));
        i = i + 1;
        assert(upper(a@.take(i as int)) =~= upper(a@.take((i - 1) as int)).push(upper_char(a@[i - 1])));
    }
    assert(a@.take(a.len() as int) == a@);
    r
}

/// Equality that ignores ASCII case (`str::eq_ignore_ascii_case`).
pub fn eq_ignore_ascii_case(a: &str, b: &str) -> (r: bool)
    ensures
        r == eq_ignore_case(a@, b@),
{
    vec_eq(&lower_vec(&chars_of(a)), &lower_vec(&chars_of(b)))
}

/// Does `t` occur in `s` at index `i`?
pub fn occurs_at_exec(s: &Vec<char>, t: &Vec<char>, i: usize) -> (r: bool)
    ensures
        r == occurs_at(s@, t@, i as int),
{
    if i > s.len() || t.len() > s.len() - i {
        return false;
    }
    let mut j: usize = 0;
    while j < t.len()
        invariant
            i + t.len() <= s.len(),
            j <= t.len(),
            forall|k: int| 0 <= k < j ==> s@[i + k] == t@[k],
        decreases t.len() - j,
    {
        if s[i + j] != t[j] {
            assert(s@.subrange(i as int, i + t.len())[j as int] != t@[j as int]);
            return false;
        }
        j = j + 1;
    }
    assert(s@.subrange(i as int, i + t.len()) =~= t@);
    true
}

/// Index of the first occurrence of `t` in `s` at or after `from`.
pub fn find_from_exec(s: &Vec<char>, t: &Vec<char>, from: usize) -> (r: Option<usize>)
    ensures
        match r {
            Some(i) => find_from(s@, t@, from as int) == Some(i as int),
            None => find_from(s@, t@, from as int) is None,
        },
{
    if t.len() > s.len() || from > s.len() - t.len() {
        return None;
    }
    let last = s.len() - t.len();
    let mut i: usize = from;
    while i <= last
        invariant
            from <= i,
            last == s.len() - t.len(),
            find_from(s@, t@, from as int) == find_from(s@, t@, i as int),
        decreases last + 1 - i,
    {
        if occurs_at_exec(s, t, i) {
            return Some(i);
        }
        if i == last {
            assert(find_from(s@, t@, i as int + 1) is None);
            return None;
        }
        i = i + 1;
    }
    None
}

/// Does `t` occur in `s`?
pub fn contains_exec(s: &Vec<char>, t: &Vec<char>) -> (r: bool)
    ensures
        r == contains_seq(s@, t@),
{
    let res = find_from_exec(s, t, 0);
    proof {
        lemma_find_from_complete(s@, t@, 0);
    }
    res.is_some()
}

/// `find_from` finds the first occurrence, and finds one whenever there is one.
proof fn lemma_trim_start_shape(s: Seq<char>)
    ensures
        trim_start(s).len() == 0 || !is_ws(trim_start(s)[0]),
    decreases s.len(),
{
    if s.len() > 0 && is_ws(s[0]) {
        lemma_trim_start_shape(s.drop_first());
    }
}

proof fn lemma_trim_end_shape(s: Seq<char>)
    ensures
        trim_end(s).len() == 0 || !is_ws(trim_end(s).last()),
    decreases s.len(),
{
    if s.len() > 0 && is_ws(s.last()) {
        lemma_trim_end_shape(s.drop_last());
    }
}

/// The trimmed text is the middle of the text.
pub proof fn lemma_trim_is_infix(s: Seq<char>)
    ensures
        trim(s).len() <= trim_start(s).len() <= s.len(),
        trim(s) == s.subrange(
            s.len() - trim_start(s).len(),
            s.len() - trim_start(s).len() + trim(s).len(),
        ),
{
    lemma_trim_start_is_suffix(s);
    lemma_trim_end_is_prefix(trim_start(s));
    let a = s.len() - trim_start(s).len();
    assert(trim(s) =~= s.subrange(a, a + trim(s).len()));
}

/// Trimming twice is trimming once.
pub proof fn lemma_trim_trimmed(s: Seq<char>)
    ensures
        trim(trim(s)) == trim(s),
{
    let t = trim_start(s);
    let u = trim(s);
    lemma_trim_start_shape(s);
    lemma_trim_end_shape(t);
    lemma_trim_end_is_prefix(t);
    if u.len() > 0 {
        assert(u[0] == t[0]);
    }
    assert(trim_start(u) == u);
    assert(trim_end(u) == u);
}

pub proof fn lemma_find_from_complete(s: Seq<char>, t: Seq<char>, from: int)
    requires
        0 <= from,
    ensures
        (exists|i: int| from <= i && occurs_at(s, t, i)) <==> find_from(s, t, from) is Some,
        find_from(s, t, from) matches Some(i) ==> from <= i && occurs_at(s, t, i) && (forall|j: int|
            from <= j < i ==> !occurs_at(s, t, j)),
    decreases s.len() + 1 - from,
{
    if from + t.len() > s.len() {
        assert forall|i: int| from <= i implies !occurs_at(s, t, i) by {}
    } else if occurs_at(s, t, from) {
    } else {
        lemma_find_from_complete(s, t, from + 1);
        if exists|i: int| from <= i && occurs_at(s, t, i) {
            let i = choose|i: int| from <= i && occurs_at(s, t, i);
            assert(i != from);
            assert(from + 1 <= i && occurs_at(s, t, i));
        }
    }
}

/// Does `p` start `s`?
pub fn starts_with_vec(s: &Vec<char>, p: &Vec<char>) -> (r: bool)
    ensures
        r == p@.is_prefix_of(s@),
{
    let r = occurs_at_exec(s, p, 0);
    proof {
        if r {
            assert(s@.subrange(0, p@.len() as int) == s@.take(p@.len() as int));
        }
        if p@.is_prefix_of(s@) {
            assert(s@.subrange(0, p@.len() as int) == s@.take(p@.len() as int));
        }
    }
    r
}

/// Does `p` end `s`?
pub fn ends_with_vec(s: &Vec<char>, p: &Vec<char>) -> (r: bool)
    ensures
        r == p@.is_suffix_of(s@),
{
    if p.len() > s.len() {
        return false;
    }
    let r = occurs_at_exec(s, p, s.len() - p.len());
    proof {
        assert(s@.subrange(s@.len() - p@.len(), s@.len() as int) == s@.skip(s@.len() - p@.len()));
    }
    r
}

/// Does the string `s` start with `p` (`str::starts_with`)?
pub fn starts_with(s: &str, p: &str) -> (r: bool)
    ensures
        r == p@.is_prefix_of(s@),
{
    starts_with_vec(&chars_of(s), &chars_of(p))
}

/// Does the string `s` end with `p` (`str::ends_with`)?
pub fn ends_with(s: &str, p: &str) -> (r: bool)
    ensures
        r == p@.is_suffix_of(s@),
{
    ends_with_vec(&chars_of(s), &chars_of(p))
}

/// Does `t` occur in `s` (`str::contains`)?
pub fn contains(s: &str, t: &str) -> (r: bool)
    ensures
        r == contains_seq(s@, t@),
{
    contains_exec(&chars_of(s), &chars_of(t))
}

/// Bounds `[start, end)` of `s` with surrounding whitespace removed.
pub fn trim_bounds(s: &Vec<char>) -> (r: (usize, usize))
    ensures
        r.0 <= r.1 <= s.len(),
        s@.subrange(r.0 as int, r.1 as int) == trim(s@),
{
    let mut a: usize = 0;
    assert(s@.subrange(0, s.len() as int) == s@);
    while a < s.len() && is_whitespace(s[a])
        invariant
            a <= s.len(),
            trim_start(s@) == trim_start(s@.subrange(a as int, s.len() as int)),
        decreases s.len() - a,
    {
        assert(s@.subrange(a as int, s.len() as int).drop_first() == s@.subrange(a + 1, s.len() as int));
        a = a + 1;
    }
    assert(trim_start(s@.subrange(a as int, s.len() as int)) == s@.subrange(a as int, s.len() as int));
    let mut b: usize = s.len();
    while b > a && is_whitespace(s[b - 1])
        invariant
            a <= b <= s.len(),
            trim(s@) == trim_end(s@.subrange(a as int, b as int)),
        decreases b,
    {
        assert(s@.subrange(a as int, b as int).drop_last() == s@.subrange(a as int, b - 1));
        b = b - 1;
    }
    (a, b)
}

/// `s` with surrounding whitespace removed (`str::trim`).
pub fn trim_str(s: &str) -> (r: String)
    ensures
        r@ == trim(s@),
{
    let v = chars_of(s);
    let (a, b) = trim_bounds(&v);
    string_of_range(&v, a, b)
}

/// Length of `s` once every trailing `c` is removed.
pub fn strip_trailing_len(s: &Vec<char>, c: char) -> (r: usize)
    ensures
        r <= s.len(),
        s@.subrange(0, r as int) == strip_trailing(s@, c),
{
    let mut n: usize = s.len();
    assert(s@.subrange(0, s.len() as int) == s@);
    while n > 0 && s[n - 1] == c
        invariant
            n <= s.len(),
            strip_trailing(s@, c) == strip_trailing(s@.subrange(0, n as int), c),
        decreases n,
    {
        assert(s@.subrange(0, n as int).drop_last() == s@.subrange(0, n - 1));
        n = n - 1;
    }
    n
}

/// `s` with every trailing `c` removed (`str::trim_end_matches(c)`).
pub fn strip_trailing_str(s: &str, c: char) -> (r: String)
    ensures
        r@ == strip_trailing(s@, c),
{
    let v = chars_of(s);
    let n = strip_trailing_len(&v, c);
    string_of_range(&v, 0, n)
}

/// Are all characters of `v[from..]` ASCII digits?
pub fn all_digits_from(v: &Vec<char>, from: usize) -> (r: bool)
    requires
        from <= v.len(),
    ensures
        r == all_digits(v@.subrange(from as int, v.len() as int)),
{
    let mut i: usize = from;
    while i < v.len()
        invariant
            from <= i <= v.len(),
            forall|k: int| from <= k < i ==> is_digit(v@[k]),
        decreases v.len() - i,
    {
        if !is_digit_c(v[i]) {
            assert(v@.subrange(from as int, v.len() as int)[i - from] == v@[i as int]);
            return false;
        }
        i = i + 1;
    }
    assert forall|k: int| 0 <= k < v@.subrange(from as int, v.len() as int).len() implies is_digit(
        #[trigger] v@.subrange(from as int, v.len() as int)[k],
    ) by {
        assert(v@.subrange(from as int, v.len() as int)[k] == v@[from + k]);
    }
    true
}

/// The decimal digit for `d < 10`.
pub fn digit_exec(d: u64) -> (c: char)
    requires
        d < 10,
    ensures
        c == digit_char(d as nat),
{
    match d {
        0 => '0',
        1 => '1',
        2 => '2',
        3 => '3',
        4 => '4',
        5 => '5',
        6 => '6',
        7 => '7',
        8 => '8',
        _ => '9',
    }
}

/// Decimal rendering of an unsigned integer (`u128::to_string`).
pub fn u128_decimal(n: u128) -> (r: String)
    ensures
        r@ == decimal(n as nat),
{
    let mut digits: Vec<char> = Vec::new();
    let mut m: u128 = n;
    // digits are produced least significant first
    while m >= 10
        invariant
            decimal(n as nat) == decimal(m as nat) + digits@.reverse(),
        decreases m,
    {
        let c = digit_exec((m % 10) as u64);
        assert(c == digit_char((m % 10) as nat));
        let ghost old_digits = digits@;
        digits.push(c);
        assert(digits@.reverse() =~= seq![c] + old_digits.reverse());
        assert(decimal(m as nat) == decimal((m / 10) as nat).push(c));
        assert(decimal(m as nat) + old_digits.reverse() =~= decimal((m / 10) as nat) + digits@.reverse());
        m = m / 10;
    }
    let d0 = digit_exec(m as u64);
    let mut out: Vec<char> = Vec::new();
    out.push(d0);
    let mut i: usize = digits.len();
    while i > 0
        invariant
            i <= digits.len(),
            out@ == seq![d0] + digits@.reverse().take((digits.len() - i) as int),
        decreases i,
    {
        out.push(digits[i - 1]);
        assert(digits@.reverse().take((digits.len() - (i - 1)) as int) =~= digits@.reverse().take(
            (digits.len() - i) as int,
        ).push(digits@[i - 1]));
        i = i - 1;
    }
    assert(digits@.reverse().take(digits.len() as int) == digits@.reverse());
    string_of(&out)
}

/// Decimal rendering of an unsigned integer (`u64::to_string`).
pub fn u64_decimal(n: u64) -> (r: String)
    ensures
        r@ == decimal(n as nat),
{
    u128_decimal(n as u128)
}

/// Decimal rendering of a signed integer (`i64::to_string`).
pub fn i64_decimal(n: i64) -> (r: String)
    ensures
        r@ == decimal_int(n as int),
{
    if n < 0 {
        let m: u64 = if n == i64::MIN {
            9223372036854775808u64
        } else {
            (-n) as u64
        };
        proof {
            reveal_strlit("-");
        }
        let r = concat("-", &u64_decimal(m));
        assert(m as int == -(n as int));
        r
    } else {
        u64_decimal(n as u64)
    }
}

/// Decimal rendering of a signed integer (`i128::to_string`).
pub fn i128_decimal(n: i128) -> (r: String)
    ensures
        r@ == decimal_int(n as int),
{
    if n < 0 {
        let m: u128 = if n == i128::MIN {
            170141183460469231731687303715884105728u128
        } else {
            (-n) as u128
        };
        proof {
            reveal_strlit("-");
        }
        let r = concat("-", &u128_decimal(m));
        assert(m as int == -(n as int));
        r
    } else {
        u128_decimal(n as u128)
    }
}

} // verus!
