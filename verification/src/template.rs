//! URI templates with `{name}` placeholders, and `{{key}}` text interpolation.
//!
//! A template is read left to right: text up to the next `{` is a literal,
//! `{name}` is a placeholder that matches one non-empty path segment (no `/`).
use vstd::prelude::*;
use crate::text::{
    chars_of, contains, contains_seq, find_from, find_from_exec, lemma_find_from_complete,
    occurs_at, occurs_at_exec, owned, string_of_range, string_push, push_str,
};
use crate::textmap::{TextMap, lookup};

verus! {

broadcast use vstd::string::group_string_axioms;

// ─── Template structure ─────────────────────────────────────────────────────

/// One piece of a parsed template.
pub enum Segment {
    Lit(Seq<char>),
    Param(Seq<char>),
}

/// Does `s` contain the character `c`?
pub open spec fn has_char(s: Seq<char>, c: char) -> bool {
    exists|k: int| 0 <= k < s.len() && s[k] == c
}

/// The segments of `t` from position `pos` on; `None` when a `{` is never
/// closed or a placeholder name is empty or holds a `/`.
pub open spec fn parse_from(t: Seq<char>, pos: int) -> Option<Seq<Segment>>
    decreases t.len() - pos,
{
    if pos < 0 || pos > t.len() {
        None
    } else {
        match find_from(t, seq!['{'], pos) {
            None => if pos < t.len() {
                Some(seq![Segment::Lit(t.subrange(pos, t.len() as int))])
            } else {
                Some(Seq::empty())
            },
            Some(s) => match find_from(t, seq!['}'], s + 1) {
                None => None,
                Some(e) => {
                    let name = t.subrange(s + 1, e);
                    if name.len() == 0 || has_char(name, '/') {
                        None
                    } else {
                        proof {
                            lemma_find_from_complete(t, seq!['{'], pos);
                            lemma_find_from_complete(t, seq!['}'], s + 1);
                        }
                        match parse_from(t, e + 1) {
                            None => None,
                            Some(rest) => {
                                let pre = if s > pos {
                                    seq![Segment::Lit(t.subrange(pos, s))]
                                } else {
                                    Seq::empty()
                                };
                                Some(pre + seq![Segment::Param(name)] + rest)
                            },
                        }
                    }
                },
            },
        }
    }
}

/// Where a placeholder at segment `i` stops when its value starts at `cursor`:
/// at the next occurrence of the following literal, or at the end of `u`.
pub open spec fn param_end(segs: Seq<Segment>, i: int, u: Seq<char>, cursor: int) -> Option<int> {
    if i + 1 < segs.len() && segs[i + 1] is Lit {
        find_from(u, segs[i + 1]->Lit_0, cursor)
    } else {
        Some(u.len() as int)
    }
}

/// The `(name, value)` pairs that segments `i..` take from `u` starting at `cursor`.
pub open spec fn match_from(segs: Seq<Segment>, i: int, u: Seq<char>, cursor: int) -> Option<
    Seq<(Seq<char>, Seq<char>)>,
>
    decreases segs.len() - i,
{
    if i < 0 || cursor < 0 || cursor > u.len() {
        None
    } else if i >= segs.len() {
        if cursor == u.len() {
            Some(Seq::empty())
        } else {
            None
        }
    } else {
        match segs[i] {
            Segment::Lit(l) => if occurs_at(u, l, cursor) {
                match_from(segs, i + 1, u, cursor + l.len())
            } else {
                None
            },
            Segment::Param(name) => match param_end(segs, i, u, cursor) {
                None => None,
                Some(end) => {
                    let value = u.subrange(cursor, end);
                    if end < cursor || value.len() == 0 || has_char(value, '/') {
                        None
                    } else {
                        match match_from(segs, i + 1, u, end) {
                            None => None,
                            Some(rest) => Some(seq![(name, value)] + rest),
                        }
                    }
                },
            },
        }
    }
}

/// The placeholder values that `u` gives to `template`, in template order.
pub open spec fn extracted_pairs(template: Seq<char>, u: Seq<char>) -> Option<
    Seq<(Seq<char>, Seq<char>)>,
> {
    match parse_from(template, 0) {
        None => None,
        Some(segs) => match_from(segs, 0, u, 0),
    }
}

/// The value of the last pair named `k` (later pairs override earlier ones).
pub open spec fn pairs_lookup(p: Seq<(Seq<char>, Seq<char>)>, k: Seq<char>) -> Option<Seq<char>>
    decreases p.len(),
{
    if p.len() == 0 {
        None
    } else if p.last().0 == k {
        Some(p.last().1)
    } else {
        pairs_lookup(p.drop_last(), k)
    }
}

/// The text value stored under `k` in a map of strings.
pub open spec fn lookup_text(m: Seq<(Seq<char>, String)>, k: Seq<char>) -> Option<Seq<char>> {
    match lookup(m, k) {
        Some(v) => Some(v@),
        None => None,
    }
}

// ─── Parsing ────────────────────────────────────────────────────────────────

/// A segment of the template held as character bounds: `(is_param, start, end)`.
pub open spec fn seg_of(t: Seq<char>, b: (bool, usize, usize)) -> Segment {
    if b.0 {
        Segment::Param(t.subrange(b.1 as int, b.2 as int))
    } else {
        Segment::Lit(t.subrange(b.1 as int, b.2 as int))
    }
}

pub open spec fn segs_of(t: Seq<char>, v: Seq<(bool, usize, usize)>) -> Seq<Segment> {
    Seq::new(v.len(), |i: int| seg_of(t, v[i]))
}

pub open spec fn bounds_ok(t: Seq<char>, v: Seq<(bool, usize, usize)>) -> bool {
    forall|i: int| 0 <= i < v.len() ==> #[trigger] v[i].1 <= v[i].2 <= t.len()
}

/// Does `t[from..to]` hold the character `c`?
fn has_char_in(t: &Vec<char>, from: usize, to: usize, c: char) -> (r: bool)
    requires
        from <= to <= t.len(),
    ensures
        r == has_char(t@.subrange(from as int, to as int), c),
{
    let mut k: usize = from;
    while k < to
        invariant
            from <= k <= to <= t.len(),
            forall|j: int| from <= j < k ==> t@[j] != c,
        decreases to - k,
    {
        if t[k] == c {
            assert(t@.subrange(from as int, to as int)[k - from] == c);
            return true;
        }
        k = k + 1;
    }
    assert forall|j: int| 0 <= j < to - from implies t@.subrange(from as int, to as int)[j] != c by {
        assert(t@.subrange(from as int, to as int)[j] == t@[from + j]);
    }
    false
}

#[verifier::spinoff_prover]
#[verifier::rlimit(40)]
fn parse_exec(t: &Vec<char>, pos: usize) -> (r: Option<Vec<(bool, usize, usize)>>)
    requires
        pos <= t.len(),
    ensures
        match r {
            Some(v) => bounds_ok(t@, v@) && parse_from(t@, pos as int) == Some(segs_of(t@, v@)),
            None => parse_from(t@, pos as int) is None,
        },
    decreases t.len() - pos,
{
    let open_brace = vec!['{'];
    let close_brace = vec!['}'];
    proof {
        assert(open_brace@ == seq!['{']);
        assert(close_brace@ == seq!['}']);
        lemma_find_from_complete(t@, seq!['{'], pos as int);
    }
    match find_from_exec(t, &open_brace, pos) {
        None => {
            let mut v: Vec<(bool, usize, usize)> = Vec::new();
            if pos < t.len() {
                v.push((false, pos, t.len()));
                assert(segs_of(t@, v@) =~= seq![Segment::Lit(t@.subrange(pos as int, t.len() as int))]);
            } else {
                assert(segs_of(t@, v@) =~= Seq::<Segment>::empty());
            }
            Some(v)
        },
        Some(s) => {
            proof {
                lemma_find_from_complete(t@, seq!['}'], s + 1);
            }
            match find_from_exec(t, &close_brace, s + 1) {
                None => None,
                Some(e) => {
                    if e == s + 1 || has_char_in(t, s + 1, e, '/') {
                        return None;
                    }
                    match parse_exec(t, e + 1) {
                        None => None,
                        Some(rest) => {
                            let mut v: Vec<(bool, usize, usize)> = Vec::new();
                            if s > pos {
                                v.push((false, pos, s));
                            }
                            v.push((true, s + 1, e));
                            let ghost pre = v@;
                            let mut k: usize = 0;
                            while k < rest.len()
                                invariant
                                    k <= rest.len(),
                                    v@ == pre + rest@.take(k as int),
                                    bounds_ok(t@, rest@),
                                    bounds_ok(t@, pre),
                                decreases rest.len() - k,
                            {
                                v.push(rest[k]);
                                k = k + 1;
                                assert(rest@.take(k as int) =~= rest@.take(k - 1).push(rest@[k - 1]));
                            }
                            proof {
                                assert(rest@.take(rest.len() as int) =~= rest@);
                                let name = t@.subrange(s + 1, e as int);
                                let pre_s = if s > pos {
                                    seq![Segment::Lit(t@.subrange(pos as int, s as int))]
                                } else {
                                    Seq::empty()
                                };
                                assert(segs_of(t@, v@) =~= pre_s + seq![Segment::Param(name)]
                                    + segs_of(t@, rest@));
                                assert forall|i: int| 0 <= i < v@.len() implies #[trigger] v@[i].1
                                    <= v@[i].2 <= t.len() by {
                                    if i >= pre.len() {
                                        assert(v@[i] == rest@[i - pre.len()]);
                                    }
                                }
                            }
                            Some(v)
                        },
                    }
                },
            }
        },
    }
}

// ─── Matching ───────────────────────────────────────────────────────────────

/// Matched pairs held as character bounds into the template and the URI.
pub open spec fn pair_of(t: Seq<char>, u: Seq<char>, p: (usize, usize, usize, usize)) -> (
    Seq<char>,
    Seq<char>,
) {
    (t.subrange(p.0 as int, p.1 as int), u.subrange(p.2 as int, p.3 as int))
}

pub open spec fn pairs_of(t: Seq<char>, u: Seq<char>, v: Seq<(usize, usize, usize, usize)>) -> Seq<
    (Seq<char>, Seq<char>),
> {
    Seq::new(v.len(), |i: int| pair_of(t, u, v[i]))
}

pub open spec fn pair_bounds_ok(t: Seq<char>, u: Seq<char>, v: Seq<(usize, usize, usize, usize)>) -> bool {
    forall|i: int|
        0 <= i < v.len() ==> #[trigger] v[i].0 <= v[i].1 <= t.len() && v[i].2 <= v[i].3 <= u.len()
}

fn match_exec(
    t: &Vec<char>,
    segs: &Vec<(bool, usize, usize)>,
    i: usize,
    u: &Vec<char>,
    cursor: usize,
) -> (r: Option<Vec<(usize, usize, usize, usize)>>)
    requires
        bounds_ok(t@, segs@),
        i <= segs.len(),
        cursor <= u.len(),
    ensures
        match r {
            Some(v) => pair_bounds_ok(t@, u@, v@) && match_from(
                segs_of(t@, segs@),
                i as int,
                u@,
                cursor as int,
            ) == Some(pairs_of(t@, u@, v@)),
            None => match_from(segs_of(t@, segs@), i as int, u@, cursor as int) is None,
        },
    decreases segs.len() - i,
{
    let ghost sv = segs_of(t@, segs@);
    if i == segs.len() {
        if cursor == u.len() {
            let v: Vec<(usize, usize, usize, usize)> = Vec::new();
            assert(pairs_of(t@, u@, v@) =~= Seq::<(Seq<char>, Seq<char>)>::empty());
            return Some(v);
        } else {
            return None;
        }
    }
    let (is_param, a, b) = segs[i];
    assert(a <= b <= t.len());
    let text = slice_vec(t, a, b);
    if !is_param {
        if !occurs_at_exec(u, &text, cursor) {
            return None;
        }
        return match_exec(t, segs, i + 1, u, cursor + text.len());
    }
    let end: usize;
    if i + 1 < segs.len() && !segs[i + 1].0 {
        let (_, a2, b2) = segs[i + 1];
        assert(a2 <= b2 <= t.len());
        let next = slice_vec(t, a2, b2);
        assert(sv[i + 1] == Segment::Lit(next@));
        proof {
            lemma_find_from_complete(u@, next@, cursor as int);
        }
        match find_from_exec(u, &next, cursor) {
            None => {
                return None;
            },
            Some(k) => {
                end = k;
            },
        }
    } else {
        end = u.len();
    }
    assert(param_end(sv, i as int, u@, cursor as int) == Some(end as int));
    if end < cursor || end == cursor || has_char_in(u, cursor, end, '/') {
        return None;
    }
    match match_exec(t, segs, i + 1, u, end) {
        None => None,
        Some(rest) => {
            let mut v: Vec<(usize, usize, usize, usize)> = Vec::new();
            v.push((a, b, cursor, end));
            let ghost head = v@;
            let mut k: usize = 0;
            assert(v@ =~= head + rest@.take(0));
            while k < rest.len()
                invariant
                    k <= rest.len(),
                    v@ == head + rest@.take(k as int),
                decreases rest.len() - k,
            {
                v.push(rest[k]);
                k = k + 1;
                assert(head + rest@.take(k as int) =~= (head + rest@.take(k - 1)).push(rest@[k - 1]));
            }
            proof {
                assert(rest@.take(rest.len() as int) =~= rest@);
                assert(pairs_of(t@, u@, v@) =~= seq![
                    (t@.subrange(a as int, b as int), u@.subrange(cursor as int, end as int)),
                ] + pairs_of(t@, u@, rest@));
                assert forall|j: int| 0 <= j < v@.len() implies #[trigger] v@[j].0 <= v@[j].1
                    <= t.len() && v@[j].2 <= v@[j].3 <= u.len() by {
                    if j > 0 {
                        assert(v@[j] == rest@[j - 1]);
                    }
                }
            }
            Some(v)
        },
    }
}

/// The characters `v[from..to]` as a new vector.
fn slice_vec(v: &Vec<char>, from: usize, to: usize) -> (r: Vec<char>)
    requires
        from <= to <= v.len(),
    ensures
        r@ == v@.subrange(from as int, to as int),
{
    let mut r: Vec<char> = Vec::new();
    let mut k: usize = from;
    while k < to
        invariant
            from <= k <= to <= v.len(),
            r@ == v@.subrange(from as int, k as int),
        decreases to - k,
    {
        r.push(v[k]);
        k = k + 1;
        assert(v@.subrange(from as int, k as int) =~= v@.subrange(from as int, k - 1).push(
            v@[k - 1],
        ));
    }
    r
}

/// Parameters of `uri` against `template`, or `None` when it does not match.
///
/// Each `{name}` takes one non-empty path segment. Parameters are stored in
/// template order, so a name that occurs twice keeps its last value.
pub fn extract_params(template: &str, uri: &str) -> (r: Option<TextMap<String>>)
    ensures
        match r {
            Some(m) => {
                &&& m.wf()
                &&& extracted_pairs(template@, uri@) matches Some(p) && forall|k: Seq<char>|
                    #[trigger] lookup_text(m@, k) == pairs_lookup(p, k)
            },
            None => extracted_pairs(template@, uri@) is None,
        },
{
    let t = chars_of(template);
    let u = chars_of(uri);
    let segs = match parse_exec(&t, 0) {
        None => {
            return None;
        },
        Some(s) => s,
    };
    let pairs = match match_exec(&t, &segs, 0, &u, 0) {
        None => {
            return None;
        },
        Some(p) => p,
    };
    let ghost p = pairs_of(t@, u@, pairs@);
    let mut m: TextMap<String> = TextMap::new();
    let mut j: usize = 0;
    while j < pairs.len()
        invariant
            j <= pairs.len(),
            m.wf(),
            pair_bounds_ok(t@, u@, pairs@),
            p == pairs_of(t@, u@, pairs@),
            forall|k: Seq<char>| #[trigger] lookup_text(m@, k) == pairs_lookup(p.take(j as int), k),
        decreases pairs.len() - j,
    {
        let (a, b, c, d) = pairs[j];
        assert(a <= b <= t.len() && c <= d <= u.len());
        let name = string_of_range(&t, a, b);
        let value = string_of_range(&u, c, d);
        let ghost before = m@;
        let ghost value_v = value;
        m.insert(name, value);
        proof {
            assert(p.take(j + 1).drop_last() =~= p.take(j as int));
            assert(p.take(j + 1).last() == p[j as int]);
            assert(p[j as int] == (t@.subrange(a as int, b as int), u@.subrange(c as int, d as int)));
            assert forall|k: Seq<char>| #[trigger]
                lookup_text(m@, k) == pairs_lookup(p.take(j + 1), k) by {
                if k == p[j as int].0 {
                    assert(lookup(m@, k) == Some(value_v));
                } else {
                    assert(lookup(m@, k) == lookup(before, k));
                    assert(lookup_text(before, k) == pairs_lookup(p.take(j as int), k));
                }
            }
        }
        j = j + 1;
    }
    assert(p.take(pairs.len() as int) =~= p);
    Some(m)
}

/// Does `uri` match `template`?
pub fn matches_template(template: &str, uri: &str) -> (r: bool)
    ensures
        r == (extracted_pairs(template@, uri@) is Some),
{
    extract_params(template, uri).is_some()
}

// ─── Filling a template ─────────────────────────────────────────────────────

/// `t` from position `pos` with each `{name}` replaced by its value in `m`;
/// `None` when a `{` is never closed or a value is missing, empty or holds a `/`.
pub open spec fn apply_from(t: Seq<char>, pos: int, m: Seq<(Seq<char>, String)>) -> Option<Seq<char>>
    decreases t.len() - pos,
{
    if pos < 0 || pos > t.len() {
        None
    } else {
        match find_from(t, seq!['{'], pos) {
            None => Some(t.subrange(pos, t.len() as int)),
            Some(s) => match find_from(t, seq!['}'], s + 1) {
                None => None,
                Some(e) => match lookup_text(m, t.subrange(s + 1, e)) {
                    None => None,
                    Some(value) => if value.len() == 0 || has_char(value, '/') {
                        None
                    } else {
                        proof {
                            lemma_find_from_complete(t, seq!['{'], pos);
                            lemma_find_from_complete(t, seq!['}'], s + 1);
                        }
                        match apply_from(t, e + 1, m) {
                            None => None,
                            Some(rest) => Some(t.subrange(pos, s) + value + rest),
                        }
                    },
                },
            },
        }
    }
}

fn apply_exec(t: &Vec<char>, pos: usize, params: &TextMap<String>, out: &mut String) -> (ok: bool)
    requires
        pos <= t.len(),
    ensures
        match apply_from(t@, pos as int, params@) {
            Some(rest) => ok && final(out)@ == old(out)@ + rest,
            None => !ok,
        },
    decreases t.len() - pos,
{
    let open_brace = vec!['{'];
    let close_brace = vec!['}'];
    proof {
        assert(open_brace@ == seq!['{']);
        assert(close_brace@ == seq!['}']);
        lemma_find_from_complete(t@, seq!['{'], pos as int);
    }
    match find_from_exec(t, &open_brace, pos) {
        None => {
            let rest = string_of_range(t, pos, t.len());
            push_str(out, rest.as_str());
            true
        },
        Some(s) => {
            proof {
                lemma_find_from_complete(t@, seq!['}'], s + 1);
            }
            match find_from_exec(t, &close_brace, s + 1) {
                None => false,
                Some(e) => {
                    let name = string_of_range(t, s + 1, e);
                    match params.get(name.as_str()) {
                        None => false,
                        Some(value) => {
                            let vv = chars_of(value.as_str());
                            if vv.len() == 0 || has_char_in(&vv, 0, vv.len(), '/') {
                                assert(vv@.subrange(0, vv.len() as int) =~= vv@);
                                return false;
                            }
                            assert(vv@.subrange(0, vv.len() as int) =~= vv@);
                            let lit = string_of_range(t, pos, s);
                            let ghost start = out@;
                            push_str(out, lit.as_str());
                            push_str(out, value.as_str());
                            let ok = apply_exec(t, e + 1, params, out);
                            proof {
                                if ok {
                                    let rest = apply_from(t@, e + 1, params@)->Some_0;
                                    assert(out@ =~= start + (t@.subrange(pos as int, s as int)
                                        + value@ + rest));
                                }
                            }
                            ok
                        },
                    }
                },
            }
        },
    }
}

/// Fills `template`'s placeholders from `params`; `None` when a placeholder
/// has no value, an empty value or a value holding `/`, or a `{` is not closed.
pub fn apply_template_params(template: &str, params: &TextMap<String>) -> (r: Option<String>)
    ensures
        match r {
            Some(s) => apply_from(template@, 0, params@) == Some(s@),
            None => apply_from(template@, 0, params@) is None,
        },
{
    let t = chars_of(template);
    let mut out = String::new();
    if apply_exec(&t, 0, params, &mut out) {
        Some(out)
    } else {
        None
    }
}

// ─── `{{key}}` interpolation ────────────────────────────────────────────────

/// A character allowed in an interpolation key.
pub open spec fn key_char(c: char) -> bool {
    ('a' <= c && c <= 'z') || ('A' <= c && c <= 'Z') || ('0' <= c && c <= '9') || c == '_'
}

pub open spec fn valid_key(k: Seq<char>) -> bool {
    k.len() > 0 && forall|i: int| 0 <= i < k.len() ==> key_char(#[trigger] k[i])
}

/// When a placeholder `{{key}}` with a valid key starts at `i`, the position
/// of its closing `}}`.
pub open spec fn placeholder_at(t: Seq<char>, i: int) -> Option<int> {
    if 0 <= i && i + 1 < t.len() && t[i] == '{' && t[i + 1] == '{' {
        match find_from(t, seq!['}', '}'], i + 2) {
            Some(j) => if valid_key(t.subrange(i + 2, j)) {
                Some(j)
            } else {
                None
            },
            None => None,
        }
    } else {
        None
    }
}

/// `t[i..]` with each `{{key}}` replaced by its value; keys without a value
/// stay as written.
pub open spec fn interp_from(t: Seq<char>, i: int, args: Seq<(Seq<char>, String)>) -> Seq<char>
    decreases t.len() - i,
{
    if i < 0 || i >= t.len() {
        Seq::empty()
    } else {
        match placeholder_at(t, i) {
            Some(j) => {
                proof {
                    lemma_find_from_complete(t, seq!['}', '}'], i + 2);
                }
                let key = t.subrange(i + 2, j);
                let shown = match lookup_text(args, key) {
                    Some(v) => v,
                    None => seq!['{', '{'] + key + seq!['}', '}'],
                };
                shown + interp_from(t, j + 2, args)
            },
            None => seq![t[i]] + interp_from(t, i + 1, args),
        }
    }
}

fn placeholder_exec(t: &Vec<char>, i: usize) -> (r: Option<usize>)
    requires
        i < t.len(),
    ensures
        match r {
            Some(j) => placeholder_at(t@, i as int) == Some(j as int),
            None => placeholder_at(t@, i as int) is None,
        },
{
    if i + 1 < t.len() && t[i] == '{' && t[i + 1] == '{' {
        let close = vec!['}', '}'];
        assert(close@ == seq!['}', '}']);
        match find_from_exec(t, &close, i + 2) {
            Some(j) => {
                proof {
                    lemma_find_from_complete(t@, seq!['}', '}'], i + 2);
                }
                let mut k: usize = i + 2;
                while k < j
                    invariant
                        i + 2 <= k <= j <= t.len(),
                        forall|x: int| i + 2 <= x < k ==> key_char(t@[x]),
                        i + 1 < t.len(),
                        t@[i as int] == '{',
                        t@[i + 1] == '{',
                        find_from(t@, seq!['}', '}'], i + 2) == Some(j as int),
                    decreases j - k,
                {
                    let c = t[k];
                    if !(('a' <= c && c <= 'z') || ('A' <= c && c <= 'Z') || ('0' <= c && c <= '9')
                        || c == '_') {
                        assert(t@.subrange(i + 2, j as int)[k - (i + 2)] == c);
                        assert(!key_char(c));
                        assert(!valid_key(t@.subrange(i + 2, j as int)));
                        return None;
                    }
                    k = k + 1;
                }
                if j == i + 2 {
                    return None;
                }
                assert forall|x: int| 0 <= x < j - (i + 2) implies key_char(
                    #[trigger] t@.subrange(i + 2, j as int)[x],
                ) by {
                    assert(t@.subrange(i + 2, j as int)[x] == t@[i + 2 + x]);
                }
                Some(j)
            },
            None => None,
        }
    } else {
        None
    }
}

/// Replaces each `{{key}}` (key of ASCII letters, digits and `_`) by its value
/// in `args`; a key without a value stays as `{{key}}`.
pub fn interpolate(template: &str, args: &TextMap<String>) -> (r: String)
    ensures
        r@ == interp_from(template@, 0, args@),
{
    let t = chars_of(template);
    let mut out = String::new();
    let mut i: usize = 0;
    while i < t.len()
        invariant
            i <= t.len(),
            out@ + interp_from(t@, i as int, args@) == interp_from(t@, 0, args@),
        decreases t.len() - i,
    {
        let ghost before = out@;
        match placeholder_exec(&t, i) {
            Some(j) => {
                proof {
                    lemma_find_from_complete(t@, seq!['}', '}'], i + 2);
                }
                let key = string_of_range(&t, i + 2, j);
                match args.get(key.as_str()) {
                    Some(v) => {
                        push_str(&mut out, v.as_str());
                    },
                    None => {
                        string_push(&mut out, '{');
                        string_push(&mut out, '{');
                        push_str(&mut out, key.as_str());
                        string_push(&mut out, '}');
                        string_push(&mut out, '}');
                    },
                }
                proof {
                    let k = t@.subrange(i + 2, j as int);
                    let shown = match lookup_text(args@, k) {
                        Some(v) => v,
                        None => seq!['{', '{'] + k + seq!['}', '}'],
                    };
                    assert(out@ =~= before + shown);
                    assert(before + interp_from(t@, i as int, args@) =~= out@ + interp_from(
                        t@,
                        j + 2,
                        args@,
                    ));
                }
                i = j + 2;
            },
            None => {
                string_push(&mut out, t[i]);
                proof {
                    assert(before + interp_from(t@, i as int, args@) =~= out@ + interp_from(
                        t@,
                        i + 1,
                        args@,
                    ));
                }
                i = i + 1;
            },
        }
    }
    proof {
        assert(out@ + interp_from(t@, i as int, args@) =~= out@);
    }
    out
}

/// Text without `{` is copied through unchanged up to the next placeholder.
proof fn lemma_interp_plain_prefix(t: Seq<char>, n: int, i: int, args: Seq<(Seq<char>, String)>)
    requires
        0 <= i <= n <= t.len(),
        forall|x: int| 0 <= x < n ==> t[x] != '{',
    ensures
        interp_from(t, i, args) == t.subrange(i, n) + interp_from(t, n, args),
    decreases n - i,
{
    if i < n {
        assert(placeholder_at(t, i) is None);
        lemma_interp_plain_prefix(t, n, i + 1, args);
        assert(t.subrange(i, n) =~= seq![t[i]] + t.subrange(i + 1, n));
    } else {
        assert(t.subrange(i, n) =~= Seq::<char>::empty());
    }
}

/// A `{{key}}` placeholder whose key is a non-empty run of ASCII letters of
/// either case, digits and `_`, and which `args` holds, is replaced by its
/// value; text before it that holds no `{` is kept as written.
pub proof fn lemma_interpolate_fills_key(
    pre: Seq<char>,
    k: Seq<char>,
    args: Seq<(Seq<char>, String)>,
    v: Seq<char>,
)
    requires
        forall|x: int| 0 <= x < pre.len() ==> pre[x] != '{',
        k.len() > 0,
        forall|x: int|
            0 <= x < k.len() ==> ({
                let c = #[trigger] k[x];
                ('a' <= c && c <= 'z') || ('A' <= c && c <= 'Z') || ('0' <= c && c <= '9') || c == '_'
            }),
        lookup_text(args, k) == Some(v),
    ensures
        interp_from(pre + seq!['{', '{'] + k + seq!['}', '}'], 0, args) == pre + v,
{
    let t = pre + seq!['{', '{'] + k + seq!['}', '}'];
    let p = pre.len() as int;
    let n = k.len() as int;
    let close = seq!['}', '}'];
    assert forall|x: int| 0 <= x < p implies t[x] != '{' by {
        assert(t[x] == pre[x]);
    }
    lemma_interp_plain_prefix(t, p, 0, args);
    assert(t.subrange(0, p) =~= pre);
    assert(t[p] == '{' && t[p + 1] == '{');
    assert(t.subrange(p + 2 + n, p + 4 + n) =~= close);
    assert(occurs_at(t, close, p + 2 + n));
    lemma_find_from_complete(t, close, p + 2);
    let j = find_from(t, close, p + 2)->Some_0;
    if j < p + 2 + n {
        assert(t.subrange(j, j + 2)[0] == t[j]);
        assert(t[j] == k[j - p - 2]);
        assert(false);
    }
    assert(j == p + 2 + n);
    assert(t.subrange(p + 2, j) =~= k);
    assert(valid_key(k));
    assert(placeholder_at(t, p) == Some(j));
    assert(interp_from(t, j + 2, args) =~= Seq::<char>::empty());
    assert(interp_from(t, p, args) =~= v);
    assert(interp_from(t, 0, args) =~= pre + v);
}

// ─── URI helpers ────────────────────────────────────────────────────────────

pub open spec fn ascii_alpha(c: char) -> bool {
    ('a' <= c && c <= 'z') || ('A' <= c && c <= 'Z')
}

pub open spec fn ascii_alnum(c: char) -> bool {
    ascii_alpha(c) || ('0' <= c && c <= '9')
}

/// A scheme per RFC 3986: a letter, then letters, digits, `+`, `-` or `.`.
pub open spec fn valid_scheme(s: Seq<char>) -> bool {
    s.len() > 0 && ascii_alpha(s[0]) && forall|i: int|
        1 <= i < s.len() ==> ascii_alnum(#[trigger] s[i]) || s[i] == '+' || s[i] == '-' || s[i]
            == '.'
}

/// The text before the first `:` of `u`, when it is a valid scheme.
pub open spec fn uri_scheme_of(u: Seq<char>) -> Option<Seq<char>> {
    match find_from(u, seq![':'], 0) {
        None => None,
        Some(idx) => if valid_scheme(u.subrange(0, idx)) {
            Some(u.subrange(0, idx))
        } else {
            None
        },
    }
}

/// The scheme of `uri` (before the first `:`), e.g. `file` or `https`.
pub fn uri_scheme(uri: &str) -> (r: Option<String>)
    ensures
        match r {
            Some(s) => uri_scheme_of(uri@) == Some(s@),
            None => uri_scheme_of(uri@) is None,
        },
{
    let u = chars_of(uri);
    let colon = vec![':'];
    assert(colon@ == seq![':']);
    proof {
        lemma_find_from_complete(u@, seq![':'], 0);
    }
    let idx = match find_from_exec(&u, &colon, 0) {
        None => {
            return None;
        },
        Some(i) => i,
    };
    if idx == 0 {
        return None;
    }
    let c0 = u[0];
    if !(('a' <= c0 && c0 <= 'z') || ('A' <= c0 && c0 <= 'Z')) {
        assert(u@.subrange(0, idx as int)[0] == c0);
        assert(!valid_scheme(u@.subrange(0, idx as int)));
        return None;
    }
    let mut k: usize = 1;
    while k < idx
        invariant
            1 <= k <= idx <= u.len(),
            find_from(u@, seq![':'], 0) == Some(idx as int),
            ascii_alpha(u@[0]),
            u@ == uri@,
            forall|x: int| 1 <= x < k ==> ascii_alnum(u@[x]) || u@[x] == '+' || u@[x] == '-'
                || u@[x] == '.',
        decreases idx - k,
    {
        let c = u[k];
        if !(('a' <= c && c <= 'z') || ('A' <= c && c <= 'Z') || ('0' <= c && c <= '9') || c
            == '+' || c == '-' || c == '.') {
            assert(u@.subrange(0, idx as int)[k as int] == c);
            assert(!valid_scheme(u@.subrange(0, idx as int)));
            return None;
        }
        k = k + 1;
    }
    assert forall|x: int| 1 <= x < idx implies ascii_alnum(
        #[trigger] u@.subrange(0, idx as int)[x],
    ) || u@.subrange(0, idx as int)[x] == '+' || u@.subrange(0, idx as int)[x] == '-'
        || u@.subrange(0, idx as int)[x] == '.' by {
        assert(u@.subrange(0, idx as int)[x] == u@[x]);
    }
    Some(string_of_range(&u, 0, idx))
}

/// Is the scheme of `uri` exactly `http` or `https`?
pub fn is_http_or_https_uri(uri: &str) -> (r: bool)
    ensures
        r == (uri_scheme_of(uri@) == Some("http"@) || uri_scheme_of(uri@) == Some("https"@)),
{
    match uri_scheme(uri) {
        Some(s) => crate::text::str_eq(s.as_str(), "http") || crate::text::str_eq(
            s.as_str(),
            "https",
        ),
        None => false,
    }
}

/// Does `uri` start with `file://`?
pub fn is_file_uri(uri: &str) -> (r: bool)
    ensures
        r == "file://"@.is_prefix_of(uri@),
{
    crate::text::starts_with(uri, "file://")
}

// ─── Subscriptions and completion values ────────────────────────────────────

/// The texts of a sequence of strings.
pub open spec fn texts(s: Seq<String>) -> Seq<Seq<char>> {
    s.map_values(|x: String| x@)
}

/// `s` without the elements equal to `x`, order kept.
pub open spec fn without(s: Seq<Seq<char>>, x: Seq<char>) -> Seq<Seq<char>>
    decreases s.len(),
{
    if s.len() == 0 {
        s
    } else if s.last() == x {
        without(s.drop_last(), x)
    } else {
        without(s.drop_last(), x).push(s.last())
    }
}

/// The elements of `s` that contain `v`, order kept.
pub open spec fn containing(s: Seq<Seq<char>>, v: Seq<char>) -> Seq<Seq<char>>
    decreases s.len(),
{
    if s.len() == 0 {
        s
    } else if contains_seq(s.last(), v) {
        containing(s.drop_last(), v).push(s.last())
    } else {
        containing(s.drop_last(), v)
    }
}

proof fn lemma_without_len(s: Seq<Seq<char>>, x: Seq<char>)
    ensures
        without(s, x).len() <= s.len(),
        (without(s, x).len() < s.len()) == s.contains(x),
    decreases s.len(),
{
    if s.len() > 0 {
        lemma_without_len(s.drop_last(), x);
        if s.drop_last().contains(x) {
            let i = choose|i: int| 0 <= i < s.drop_last().len() && #[trigger] s.drop_last()[i] == x;
            assert(s[i] == x);
        }
        if s.contains(x) && s.last() != x {
            let i = choose|i: int| 0 <= i < s.len() && #[trigger] s[i] == x;
            assert(i != s.len() - 1);
            assert(s.drop_last()[i] == x);
        }
        if s.last() == x {
            assert(s[s.len() - 1] == x);
        }
    }
}

/// Adds `uri` to a subscription list; the flag tells whether the list grew.
pub fn subscription_add(existing: &[String], uri: &str) -> (r: (Vec<String>, bool))
    ensures
        r.1 == !texts(existing@).contains(uri@),
        texts(r.0@) == if r.1 {
            texts(existing@).push(uri@)
        } else {
            texts(existing@)
        },
{
    let mut next: Vec<String> = Vec::new();
    let mut found = false;
    let mut i: usize = 0;
    while i < existing.len()
        invariant
            i <= existing@.len(),
            texts(next@) == texts(existing@).take(i as int),
            found == texts(existing@).take(i as int).contains(uri@),
        decreases existing.len() - i,
    {
        let s = existing[i].clone();
        if crate::text::str_eq(s.as_str(), uri) {
            found = true;
        }
        next.push(s);
        i = i + 1;
        proof {
            let e = texts(existing@);
            assert(e.take(i as int) =~= e.take(i - 1).push(e[i - 1]));
            assert(texts(next@) =~= texts(existing@).take(i as int));
            if e.take(i - 1).contains(uri@) {
                let j = choose|j: int| 0 <= j < e.take(i - 1).len() && #[trigger] e.take(i - 1)[j] == uri@;
                assert(e.take(i as int)[j] == uri@);
            }
            if e.take(i as int).contains(uri@) && e[i - 1] != uri@ {
                let j = choose|j: int| 0 <= j < e.take(i as int).len() && #[trigger] e.take(i as int)[j] == uri@;
                assert(e.take(i - 1)[j] == uri@);
            }
            if e[i - 1] == uri@ {
                assert(e.take(i as int)[i - 1] == uri@);
            }
        }
    }
    assert(texts(existing@).take(existing@.len() as int) =~= texts(existing@));
    if found {
        (next, false)
    } else {
        next.push(owned(uri));
        assert(texts(next@) =~= texts(existing@).push(uri@));
        (next, true)
    }
}

/// Removes `uri` from a subscription list; the flag tells whether the list shrank.
pub fn subscription_remove(existing: &[String], uri: &str) -> (r: (Vec<String>, bool))
    ensures
        texts(r.0@) == without(texts(existing@), uri@),
        r.1 == (r.0@.len() < existing@.len()),
        r.1 == texts(existing@).contains(uri@),
{
    let mut next: Vec<String> = Vec::new();
    let mut i: usize = 0;
    while i < existing.len()
        invariant
            i <= existing@.len(),
            texts(next@) == without(texts(existing@).take(i as int), uri@),
        decreases existing.len() - i,
    {
        let ghost e = texts(existing@);
        proof {
            assert(e.take(i + 1).drop_last() =~= e.take(i as int));
            assert(e.take(i + 1).last() == e[i as int]);
        }
        if !crate::text::str_eq(existing[i].as_str(), uri) {
            next.push(existing[i].clone());
            assert(texts(next@) =~= without(e.take(i as int), uri@).push(e[i as int]));
        }
        i = i + 1;
    }
    proof {
        assert(texts(existing@).take(existing@.len() as int) =~= texts(existing@));
        lemma_without_len(texts(existing@), uri@);
    }
    let removed = next.len() < existing.len();
    (next, removed)
}

/// Does `uri` contain the completion argument value?
pub fn resource_uri_matches_completion(uri: &str, argument_value: &str) -> (r: bool)
    ensures
        r == contains_seq(uri@, argument_value@),
{
    contains(uri, argument_value)
}

/// The URIs that contain the completion argument value, in order.
pub fn completion_values_from_resource_uris(uris: &[&str], argument_value: &str) -> (r: Vec<String>)
    ensures
        texts(r@) == containing(uris@.map_values(|s: &str| s@), argument_value@),
{
    let ghost us = uris@.map_values(|s: &str| s@);
    let mut out: Vec<String> = Vec::new();
    let mut i: usize = 0;
    while i < uris.len()
        invariant
            i <= uris@.len(),
            us == uris@.map_values(|s: &str| s@),
            texts(out@) == containing(us.take(i as int), argument_value@),
        decreases uris.len() - i,
    {
        proof {
            assert(us.take(i + 1).drop_last() =~= us.take(i as int));
            assert(us.take(i + 1).last() == us[i as int]);
        }
        if resource_uri_matches_completion(uris[i], argument_value) {
            out.push(owned(uris[i]));
            assert(texts(out@) =~= containing(us.take(i as int), argument_value@).push(us[i as int]));
        }
        i = i + 1;
    }
    assert(us.take(uris@.len() as int) =~= us);
    out
}

// ─── Laws ───────────────────────────────────────────────────────────────────

/// Matching from segment `i` of `pre + rest` is matching from segment
/// `i - pre.len()` of `rest`.
proof fn lemma_match_from_shift(pre: Seq<Segment>, rest: Seq<Segment>, i: int, u: Seq<char>, c: int)
    requires
        i >= pre.len(),
    ensures
        match_from(pre + rest, i, u, c) == match_from(rest, i - pre.len(), u, c),
    decreases rest.len() + pre.len() - i,
{
    let segs = pre + rest;
    let j = i - pre.len();
    if c < 0 || c > u.len() || i >= segs.len() {
    } else {
        assert(segs[i] == rest[j]);
        if i + 1 < segs.len() {
            assert(segs[i + 1] == rest[j + 1]);
        }
        assert(param_end(segs, i, u, c) == param_end(rest, j, u, c));
        match segs[i] {
            Segment::Lit(l) => {
                lemma_match_from_shift(pre, rest, i + 1, u, c + l.len());
            },
            Segment::Param(name) => {
                match param_end(segs, i, u, c) {
                    Some(end) => {
                        lemma_match_from_shift(pre, rest, i + 1, u, end);
                    },
                    None => {},
                }
            },
        }
    }
}

/// With distinct names, the last pair named `p[j].0` is `p[j]` itself.
proof fn lemma_pairs_lookup_distinct(p: Seq<(Seq<char>, Seq<char>)>, j: int)
    requires
        0 <= j < p.len(),
        forall|a: int, b: int| 0 <= a < b < p.len() ==> p[a].0 != p[b].0,
    ensures
        pairs_lookup(p, p[j].0) == Some(p[j].1),
    decreases p.len(),
{
    if j < p.len() - 1 {
        let q = p.drop_last();
        assert(q[j] == p[j]);
        assert(p.last().0 != p[j].0) by {
            assert(p.last() == p[p.len() - 1]);
        }
        lemma_pairs_lookup_distinct(q, j);
    }
}

/// Filling the template from position `pos` with values that agree with the
/// pairs matched from `u` at `c` gives back `u[c..]`.
proof fn lemma_apply_matched(
    t: Seq<char>,
    pos: int,
    segs: Seq<Segment>,
    u: Seq<char>,
    c: int,
    pairs: Seq<(Seq<char>, Seq<char>)>,
    m: Seq<(Seq<char>, String)>,
)
    requires
        parse_from(t, pos) == Some(segs),
        match_from(segs, 0, u, c) == Some(pairs),
        forall|j: int| 0 <= j < pairs.len() ==> lookup_text(m, #[trigger] pairs[j].0) == Some(
            pairs[j].1,
        ),
    ensures
        apply_from(t, pos, m) == Some(u.subrange(c, u.len() as int)),
    decreases t.len() - pos,
{
    lemma_find_from_complete(t, seq!['{'], pos);
    match find_from(t, seq!['{'], pos) {
        None => {
            if pos < t.len() {
                let l = t.subrange(pos, t.len() as int);
                assert(segs == seq![Segment::Lit(l)]);
                assert(segs[0] == Segment::Lit(l));
                assert(occurs_at(u, l, c));
                assert(match_from(segs, 1, u, c + l.len()) is Some);
                assert(c + l.len() == u.len());
                assert(u.subrange(c, u.len() as int) =~= l);
            } else {
                assert(segs.len() == 0);
                assert(c == u.len());
                assert(u.subrange(c, u.len() as int) =~= t.subrange(pos, t.len() as int));
            }
        },
        Some(s) => {
            lemma_find_from_complete(t, seq!['}'], s + 1);
            let e = find_from(t, seq!['}'], s + 1)->Some_0;
            let name = t.subrange(s + 1, e);
            let rest = parse_from(t, e + 1)->Some_0;
            let pre = if s > pos {
                seq![Segment::Lit(t.subrange(pos, s))]
            } else {
                Seq::<Segment>::empty()
            };
            let head = pre + seq![Segment::Param(name)];
            assert(segs == head + rest);
            let ip = pre.len() as int;
            assert(segs[ip] == Segment::Param(name));
            let c1 = if s > pos {
                assert(segs[0] == Segment::Lit(t.subrange(pos, s)));
                assert(occurs_at(u, t.subrange(pos, s), c));
                c + (s - pos)
            } else {
                c
            };
            assert(match_from(segs, ip, u, c1) == match_from(segs, 0, u, c));
            lemma_match_from_shift(head, rest, ip + 1, u, 0);
            if ip + 1 < segs.len() {
                assert(segs[ip + 1] == rest[0]);
            }
            let end = param_end(segs, ip, u, c1)->Some_0;
            let value = u.subrange(c1, end);
            let rest_pairs = match_from(segs, ip + 1, u, end)->Some_0;
            lemma_match_from_shift(head, rest, ip + 1, u, end);
            assert(pairs == seq![(name, value)] + rest_pairs);
            assert(pairs[0] == (name, value));
            assert forall|j: int| 0 <= j < rest_pairs.len() implies lookup_text(
                m,
                #[trigger] rest_pairs[j].0,
            ) == Some(rest_pairs[j].1) by {
                assert(rest_pairs[j] == pairs[j + 1]);
            }
            lemma_apply_matched(t, e + 1, rest, u, end, rest_pairs, m);
            assert(lookup_text(m, pairs[0].0) == Some(pairs[0].1));
            assert(lookup_text(m, name) == Some(value));
            assert(apply_from(t, pos, m) == Some(
                t.subrange(pos, s) + value + u.subrange(end, u.len() as int),
            ));
            assert(t.subrange(pos, s) =~= u.subrange(c, c1));
            assert(u.subrange(c, c1) + u.subrange(c1, end) + u.subrange(end, u.len() as int)
                =~= u.subrange(c, u.len() as int));
        },
    }
}

/// Filling a template with the parameters extracted from a URI gives back the
/// URI, whenever the template's placeholder names are all different.
pub proof fn lemma_apply_extract_roundtrip(
    t: Seq<char>,
    u: Seq<char>,
    p: Seq<(Seq<char>, Seq<char>)>,
    m: Seq<(Seq<char>, String)>,
)
    requires
        extracted_pairs(t, u) == Some(p),
        forall|a: int, b: int| 0 <= a < b < p.len() ==> p[a].0 != p[b].0,
        forall|k: Seq<char>| #[trigger] lookup_text(m, k) == pairs_lookup(p, k),
    ensures
        apply_from(t, 0, m) == Some(u),
{
    let segs = parse_from(t, 0)->Some_0;
    assert forall|j: int| 0 <= j < p.len() implies lookup_text(m, #[trigger] p[j].0) == Some(
        p[j].1,
    ) by {
        lemma_pairs_lookup_distinct(p, j);
    }
    lemma_apply_matched(t, 0, segs, u, 0, p, m);
    assert(u.subrange(0, u.len() as int) =~= u);
}

} // verus!
