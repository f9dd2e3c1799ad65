//! JSON text of values, compact or pretty: the members of an object in the
//! order of their keys, as a `serde_json::Map` keeps them; records (messages
//! and their parts) with members in declared order; strings escaped as JSON
//! requires.
use vstd::prelude::*;
use crate::json::{Json, JsonV, fields_view};
use crate::text::{chars_of, decimal_int, push_str, string_push};
use crate::textmap::{chars_lt, lemma_str_lt_irreflexive, lemma_str_lt_transitive, str_lt};

verus! {

broadcast use vstd::string::group_string_axioms;

/// A lower-case hexadecimal digit.
pub open spec fn hex_lower(d: nat) -> char {
    if d < 10 {
        ((d + 48) as u32) as char
    } else {
        ((d + 87) as u32) as char
    }
}

/// The JSON text of one character inside a string.
pub open spec fn escape_char(c: char) -> Seq<char> {
    if c == '"' {
        seq!['\\', '"']
    } else if c == '\\' {
        seq!['\\', '\\']
    } else if c == '\n' {
        seq!['\\', 'n']
    } else if c == '\r' {
        seq!['\\', 'r']
    } else if c == '\t' {
        seq!['\\', 't']
    } else if (c as u32) == 8 {
        seq!['\\', 'b']
    } else if (c as u32) == 12 {
        seq!['\\', 'f']
    } else if (c as u32) < 32 {
        seq!['\\', 'u', '0', '0', hex_lower((c as u32 / 16) as nat), hex_lower((c as u32 % 16) as nat)]
    } else {
        seq![c]
    }
}

/// The JSON text of the characters of a string, without the quotes.
pub open spec fn escape(s: Seq<char>) -> Seq<char>
    decreases s.len(),
{
    if s.len() == 0 {
        Seq::empty()
    } else {
        escape(s.drop_last()) + escape_char(s.last())
    }
}

/// Puts member index `i` into `idx` after every index whose key is not
/// greater than the key of member `i`.
pub open spec fn insert_index(f: Seq<(Seq<char>, JsonV)>, idx: Seq<int>, i: int) -> Seq<int>
    decreases idx.len(),
{
    if idx.len() == 0 {
        seq![i]
    } else if str_lt(f[i].0, f[idx[0]].0) {
        seq![i] + idx
    } else {
        seq![idx[0]] + insert_index(f, idx.drop_first(), i)
    }
}

/// The indices of the first `n` members, ordered by key; members with equal
/// keys keep their order.
pub open spec fn sorted_indices(f: Seq<(Seq<char>, JsonV)>, n: nat) -> Seq<int>
    decreases n,
{
    if n == 0 {
        Seq::empty()
    } else {
        insert_index(f, sorted_indices(f, (n - 1) as nat), n - 1)
    }
}

/// The order in which an object's members are written: by key.
pub open spec fn member_order(f: Seq<(Seq<char>, JsonV)>) -> Seq<int> {
    sorted_indices(f, f.len())
}

/// The JSON text of a value; the members of an object in the order of their
/// keys.
pub open spec fn render(v: JsonV) -> Seq<char>
    decreases v, 0int, 0int,
{
    match v {
        JsonV::Null => "null"@,
        JsonV::Bool(b) => if b {
            "true"@
        } else {
            "false"@
        },
        JsonV::Int(n) => decimal_int(n),
        JsonV::Float(t) => t,
        JsonV::Str(s) => seq!['"'] + escape(s) + seq!['"'],
        JsonV::Array(a) => seq!['['] + render_list(a) + seq![']'],
        JsonV::Object(f) => seq!['{'] + render_members(f, member_order(f)) + seq!['}'],
    }
}

/// The elements of an array, separated by commas.
pub open spec fn render_list(a: Seq<JsonV>) -> Seq<char>
    decreases a, 1int, 0int,
{
    if a.len() == 0 {
        Seq::empty()
    } else if a.len() == 1 {
        render(a[0])
    } else {
        render_list(a.drop_last()) + seq![','] + render(a.last())
    }
}

/// The members of `f` at the indices `idx`, `"key":value`, separated by commas.
pub open spec fn render_members(f: Seq<(Seq<char>, JsonV)>, idx: Seq<int>) -> Seq<char>
    decreases f, 1int, idx.len(),
{
    if idx.len() == 0 {
        Seq::empty()
    } else {
        let j = idx.last();
        let item = if 0 <= j < f.len() {
            seq!['"'] + escape(f[j].0) + seq!['"', ':'] + render(f[j].1)
        } else {
            Seq::empty()
        };
        if idx.len() == 1 {
            item
        } else {
            render_members(f, idx.drop_last()) + seq![','] + item
        }
    }
}

/// The members of a record, `"key":text` with each text already written,
/// in the order given and separated by commas.
pub open spec fn record_members(f: Seq<(Seq<char>, Seq<char>)>) -> Seq<char>
    decreases f.len(),
{
    if f.len() == 0 {
        Seq::empty()
    } else {
        let item = seq!['"'] + escape(f.last().0) + seq!['"', ':'] + f.last().1;
        if f.len() == 1 {
            item
        } else {
            record_members(f.drop_last()) + seq![','] + item
        }
    }
}

/// The text of a record: an object whose members keep the order in which
/// its type declares them.
pub open spec fn record_text(f: Seq<(Seq<char>, Seq<char>)>) -> Seq<char> {
    seq!['{'] + record_members(f) + seq!['}']
}

proof fn lemma_insert_index(f: Seq<(Seq<char>, JsonV)>, idx: Seq<int>, i: int, p: int)
    requires
        0 <= p <= idx.len(),
        forall|q: int| 0 <= q < p ==> !str_lt(f[i].0, #[trigger] f[idx[q]].0),
        p < idx.len() ==> str_lt(f[i].0, f[idx[p]].0),
    ensures
        insert_index(f, idx, i) == idx.take(p) + seq![i] + idx.skip(p),
    decreases idx.len(),
{
    if idx.len() == 0 {
        assert(idx.take(p) + seq![i] + idx.skip(p) =~= seq![i]);
    } else if p == 0 {
        assert(idx.take(p) + seq![i] + idx.skip(p) =~= seq![i] + idx);
    } else {
        let t = idx.drop_first();
        assert forall|q: int| 0 <= q < p - 1 implies !str_lt(f[i].0, #[trigger] f[t[q]].0) by {
            assert(t[q] == idx[q + 1]);
        }
        if p - 1 < t.len() {
            assert(t[p - 1] == idx[p]);
        }
        lemma_insert_index(f, t, i, p - 1);
        assert(seq![idx[0]] + (t.take(p - 1) + seq![i] + t.skip(p - 1)) =~= idx.take(p) + seq![i] + idx.skip(p));
    }
}

proof fn lemma_insert_index_range(f: Seq<(Seq<char>, JsonV)>, idx: Seq<int>, i: int, hi: int)
    requires
        0 <= i < hi,
        forall|q: int| 0 <= q < idx.len() ==> 0 <= #[trigger] idx[q] < hi,
    ensures
        insert_index(f, idx, i).len() == idx.len() + 1,
        forall|q: int| 0 <= q < idx.len() + 1 ==> 0 <= #[trigger] insert_index(f, idx, i)[q] < hi,
    decreases idx.len(),
{
    if idx.len() > 0 && !str_lt(f[i].0, f[idx[0]].0) {
        let t = idx.drop_first();
        assert forall|q: int| 0 <= q < t.len() implies 0 <= #[trigger] t[q] < hi by {
            assert(t[q] == idx[q + 1]);
        }
        lemma_insert_index_range(f, t, i, hi);
        let r = insert_index(f, idx, i);
        assert(r == seq![idx[0]] + insert_index(f, t, i));
        assert forall|q: int| 0 <= q < idx.len() + 1 implies 0 <= #[trigger] r[q] < hi by {
            if q > 0 {
                assert(r[q] == insert_index(f, t, i)[q - 1]);
            }
        }
    } else if idx.len() > 0 {
        let r = insert_index(f, idx, i);
        assert forall|q: int| 0 <= q < idx.len() + 1 implies 0 <= #[trigger] r[q] < hi by {
            if q > 0 {
                assert(r[q] == idx[q - 1]);
            }
        }
    }
}

/// The sorted indices of the first `n` members are `n` indices below `n`.
proof fn lemma_sorted_indices(f: Seq<(Seq<char>, JsonV)>, n: nat)
    requires
        n <= f.len(),
    ensures
        sorted_indices(f, n).len() == n,
        forall|q: int| 0 <= q < n ==> 0 <= #[trigger] sorted_indices(f, n)[q] < n,
    decreases n,
{
    if n > 0 {
        lemma_sorted_indices(f, (n - 1) as nat);
        lemma_insert_index_range(f, sorted_indices(f, (n - 1) as nat), n - 1, n as int);
    }
}

proof fn lemma_insert_index_members(f: Seq<(Seq<char>, JsonV)>, idx: Seq<int>, i: int)
    ensures
        insert_index(f, idx, i).len() == idx.len() + 1,
        forall|q: int| 0 <= q < idx.len() + 1 ==> #[trigger] insert_index(f, idx, i)[q] == i || idx.contains(insert_index(f, idx, i)[q]),
        insert_index(f, idx, i).contains(i),
        forall|q: int| 0 <= q < idx.len() ==> insert_index(f, idx, i).contains(#[trigger] idx[q]),
    decreases idx.len(),
{
    let r = insert_index(f, idx, i);
    if idx.len() == 0 {
        assert(r[0] == i);
    } else if str_lt(f[i].0, f[idx[0]].0) {
        assert(r[0] == i);
        assert forall|q: int| 0 <= q < idx.len() + 1 implies #[trigger] r[q] == i || idx.contains(r[q]) by {
            if q > 0 {
                assert(r[q] == idx[q - 1]);
            }
        }
        assert forall|q: int| 0 <= q < idx.len() implies r.contains(#[trigger] idx[q]) by {
            assert(r[q + 1] == idx[q]);
        }
    } else {
        let t = idx.drop_first();
        lemma_insert_index_members(f, t, i);
        let rt = insert_index(f, t, i);
        assert(r == seq![idx[0]] + rt);
        assert forall|q: int| 0 <= q < idx.len() + 1 implies #[trigger] r[q] == i || idx.contains(r[q]) by {
            if q == 0 {
                assert(idx[0] == r[0]);
            } else {
                assert(r[q] == rt[q - 1]);
                if rt[q - 1] != i {
                    let w = choose|w: int| 0 <= w < t.len() && t[w] == rt[q - 1];
                    assert(idx[w + 1] == r[q]);
                }
            }
        }
        let w = choose|w: int| 0 <= w < rt.len() && rt[w] == i;
        assert(r[w + 1] == i);
        assert forall|q: int| 0 <= q < idx.len() implies r.contains(#[trigger] idx[q]) by {
            if q == 0 {
                assert(r[0] == idx[0]);
            } else {
                assert(t[q - 1] == idx[q]);
                assert(rt.contains(t[q - 1]));
                let w = choose|w: int| 0 <= w < rt.len() && rt[w] == t[q - 1];
                assert(r[w + 1] == idx[q]);
            }
        }
    }
}

proof fn lemma_insert_index_sorted(f: Seq<(Seq<char>, JsonV)>, idx: Seq<int>, i: int)
    requires
        forall|p: int, q: int| 0 <= p < q < idx.len() ==> !str_lt(f[#[trigger] idx[q]].0, f[#[trigger] idx[p]].0),
        forall|p: int, q: int| 0 <= p < q < idx.len() ==> #[trigger] idx[p] != #[trigger] idx[q],
        !idx.contains(i),
    ensures
        forall|p: int, q: int|
            0 <= p < q < idx.len() + 1 ==> !str_lt(
                f[#[trigger] insert_index(f, idx, i)[q]].0,
                f[#[trigger] insert_index(f, idx, i)[p]].0,
            ),
        forall|p: int, q: int|
            0 <= p < q < idx.len() + 1 ==> #[trigger] insert_index(f, idx, i)[p] != #[trigger] insert_index(
                f,
                idx,
                i,
            )[q],
    decreases idx.len(),
{
    let r = insert_index(f, idx, i);
    lemma_insert_index_members(f, idx, i);
    if idx.len() == 0 {
    } else if str_lt(f[i].0, f[idx[0]].0) {
        assert forall|p: int, q: int| 0 <= p < q < idx.len() + 1 implies !str_lt(
            f[#[trigger] r[q]].0,
            f[#[trigger] r[p]].0,
        ) by {
            assert(r[q] == idx[q - 1]);
            if p == 0 {
                if q - 1 > 0 {
                    assert(!str_lt(f[idx[q - 1]].0, f[idx[0]].0));
                }
                if str_lt(f[idx[q - 1]].0, f[i].0) {
                    lemma_str_lt_transitive(f[idx[q - 1]].0, f[i].0, f[idx[0]].0);
                }
                lemma_str_lt_irreflexive(f[idx[0]].0);
            } else {
                assert(r[p] == idx[p - 1]);
            }
        }
        assert forall|p: int, q: int| 0 <= p < q < idx.len() + 1 implies #[trigger] r[p] != #[trigger] r[q] by {
            assert(r[q] == idx[q - 1]);
            if p > 0 {
                assert(r[p] == idx[p - 1]);
            }
        }
    } else {
        let t = idx.drop_first();
        assert forall|p: int, q: int| 0 <= p < q < t.len() implies !str_lt(f[#[trigger] t[q]].0, f[#[trigger] t[p]].0) by {
            assert(t[q] == idx[q + 1] && t[p] == idx[p + 1]);
        }
        assert forall|p: int, q: int| 0 <= p < q < t.len() implies #[trigger] t[p] != #[trigger] t[q] by {
            assert(t[q] == idx[q + 1] && t[p] == idx[p + 1]);
        }
        assert(!t.contains(i)) by {
            if t.contains(i) {
                let w = choose|w: int| 0 <= w < t.len() && t[w] == i;
                assert(idx[w + 1] == i);
            }
        }
        lemma_insert_index_sorted(f, t, i);
        lemma_insert_index_members(f, t, i);
        let rt = insert_index(f, t, i);
        assert(r == seq![idx[0]] + rt);
        assert forall|p: int, q: int| 0 <= p < q < idx.len() + 1 implies !str_lt(
            f[#[trigger] r[q]].0,
            f[#[trigger] r[p]].0,
        ) && r[p] != r[q] by {
            assert(r[q] == rt[q - 1]);
            if p == 0 {
                assert(r[0] == idx[0]);
                if rt[q - 1] != i {
                    assert(t.contains(rt[q - 1]));
                    let w = choose|w: int| 0 <= w < t.len() && t[w] == rt[q - 1];
                    assert(idx[w + 1] == rt[q - 1]);
                    assert(!str_lt(f[idx[w + 1]].0, f[idx[0]].0));
                }
            } else {
                assert(r[p] == rt[p - 1]);
            }
        }
    }
}

/// The order in which an object's members are written lists every member
/// exactly once, and never a member before one whose key is smaller.
pub proof fn lemma_member_order(f: Seq<(Seq<char>, JsonV)>)
    ensures
        member_order(f).len() == f.len(),
        forall|q: int| 0 <= q < f.len() ==> 0 <= #[trigger] member_order(f)[q] < f.len(),
        forall|p: int, q: int|
            0 <= p < q < f.len() ==> #[trigger] member_order(f)[p] != #[trigger] member_order(f)[q],
        forall|p: int, q: int|
            0 <= p < q < f.len() ==> !str_lt(
                f[#[trigger] member_order(f)[q]].0,
                f[#[trigger] member_order(f)[p]].0,
            ),
{
    lemma_sorted_indices_sorted(f, f.len());
    lemma_sorted_indices(f, f.len());
}

proof fn lemma_sorted_indices_sorted(f: Seq<(Seq<char>, JsonV)>, n: nat)
    requires
        n <= f.len(),
    ensures
        forall|p: int, q: int|
            0 <= p < q < n ==> #[trigger] sorted_indices(f, n)[p] != #[trigger] sorted_indices(f, n)[q],
        forall|p: int, q: int|
            0 <= p < q < n ==> !str_lt(
                f[#[trigger] sorted_indices(f, n)[q]].0,
                f[#[trigger] sorted_indices(f, n)[p]].0,
            ),
    decreases n,
{
    if n > 0 {
        let prev = sorted_indices(f, (n - 1) as nat);
        lemma_sorted_indices_sorted(f, (n - 1) as nat);
        lemma_sorted_indices(f, (n - 1) as nat);
        assert(!prev.contains(n - 1)) by {
            if prev.contains(n - 1) {
                let w = choose|w: int| 0 <= w < prev.len() && prev[w] == n - 1;
                assert(0 <= prev[w] < n - 1);
            }
        }
        lemma_insert_index_sorted(f, prev, n - 1);
    }
}

/// The indices of the members of `v`, in the order they are written.
pub(crate) fn member_order_of(v: &Vec<(String, Json)>) -> (order: Vec<usize>)
    ensures
        order.len() == v.len(),
        forall|q: int| 0 <= q < v.len() ==> #[trigger] order@[q] as int == member_order(fields_view(v@))[q],
        forall|q: int| 0 <= q < v.len() ==> #[trigger] order@[q] < v.len(),
{
    let ghost f = fields_view(v@);
    let mut keys: Vec<Vec<char>> = Vec::new();
    let mut k: usize = 0;
    while k < v.len()
        invariant
            k <= v.len(),
            f == fields_view(v@),
            keys.len() == k,
            forall|q: int| 0 <= q < k ==> #[trigger] keys@[q]@ == f[q].0,
        decreases v.len() - k,
    {
        keys.push(chars_of(v[k].0.as_str()));
        k = k + 1;
    }
    let mut order: Vec<usize> = Vec::new();
    let mut k: usize = 0;
    while k < v.len()
        invariant
            k <= v.len(),
            f == fields_view(v@),
            f.len() == v.len(),
            keys.len() == v.len(),
            forall|q: int| 0 <= q < v.len() ==> #[trigger] keys@[q]@ == f[q].0,
            order.len() == k,
            forall|q: int| 0 <= q < k ==> #[trigger] order@[q] as int == sorted_indices(f, k as nat)[q],
        decreases v.len() - k,
    {
        proof {
            lemma_sorted_indices(f, k as nat);
        }
        let ghost idx = sorted_indices(f, k as nat);
        let mut p: usize = 0;
        while p < order.len() && !chars_lt(&keys[k], &keys[order[p]])
            invariant
                p <= order.len(),
                order.len() == k,
                k < v.len(),
                idx.len() == k,
                keys.len() == v.len(),
                forall|q: int| 0 <= q < v.len() ==> #[trigger] keys@[q]@ == f[q].0,
                forall|q: int| 0 <= q < k ==> #[trigger] order@[q] as int == idx[q],
                forall|q: int| 0 <= q < k ==> 0 <= #[trigger] idx[q] < k,
                forall|q: int| 0 <= q < p ==> !str_lt(f[k as int].0, #[trigger] f[idx[q]].0),
            decreases order.len() - p,
        {
            assert(order@[p as int] as int == idx[p as int]);
            p = p + 1;
        }
        proof {
            if p < order.len() {
                assert(order@[p as int] as int == idx[p as int]);
            }
            lemma_insert_index(f, idx, k as int, p as int);
        }
        let ghost before = order@;
        order.insert(p, k);
        k = k + 1;
        proof {
            let next = sorted_indices(f, k as nat);
            assert(next == insert_index(f, idx, (k - 1) as int));
            assert forall|q: int| 0 <= q < k implies #[trigger] order@[q] as int == next[q] by {
                if q < p {
                    assert(order@[q] == before[q]);
                } else if q > p {
                    assert(order@[q] == before[q - 1]);
                }
            }
        }
    }
    proof {
        lemma_sorted_indices(f, v.len() as nat);
        assert forall|q: int| 0 <= q < v.len() implies #[trigger] order@[q] < v.len() by {
            assert(order@[q] as int == sorted_indices(f, v.len() as nat)[q]);
        }
    }
    order
}

fn hex_exec(d: u32) -> (c: char)
    requires
        d < 16,
    ensures
        c == hex_lower(d as nat),
{
    if d < 10 {
        ((d + 48) as u8) as char
    } else {
        ((d + 87) as u8) as char
    }
}

/// Appends the escaped characters of `s`.
fn push_escaped(out: &mut String, s: &str)
    ensures
        final(out)@ == old(out)@ + escape(s@),
{
    let v = chars_of(s);
    let ghost start = out@;
    let mut i: usize = 0;
    assert(v@.take(0) =~= Seq::<char>::empty());
    while i < v.len()
        invariant
            i <= v.len(),
            v@ == s@,
            out@ == start + escape(v@.take(i as int)),
        decreases v.len() - i,
    {
        let c = v[i];
        let ghost before = out@;
        let u = c as u32;
        if c == '"' {
            string_push(out, '\\');
            string_push(out, '"');
        } else if c == '\\' {
            string_push(out, '\\');
            string_push(out, '\\');
        } else if c == '\n' {
            string_push(out, '\\');
            string_push(out, 'n');
        } else if c == '\r' {
            string_push(out, '\\');
            string_push(out, 'r');
        } else if c == '\t' {
            string_push(out, '\\');
            string_push(out, 't');
        } else if u == 8 {
            string_push(out, '\\');
            string_push(out, 'b');
        } else if u == 12 {
            string_push(out, '\\');
            string_push(out, 'f');
        } else if u < 32 {
            string_push(out, '\\');
            string_push(out, 'u');
            string_push(out, '0');
            string_push(out, '0');
            string_push(out, hex_exec(u / 16));
            string_push(out, hex_exec(u % 16));
        } else {
            string_push(out, c);
        }
        assert(out@ =~= before + escape_char(c));
        i = i + 1;
        assert(v@.take(i as int).drop_last() =~= v@.take(i - 1));
        assert(v@.take(i as int).last() == c);
    }
    assert(v@.take(v.len() as int) =~= v@);
}

/// Appends the JSON text of `j`.
#[verifier::spinoff_prover]
#[verifier::rlimit(40)]
fn push_json(out: &mut String, j: &Json)
    ensures
        final(out)@ == old(out)@ + render(j@),
    decreases j@,
{
    match j {
        Json::Null => {
            push_str(out, "null");
        },
        Json::Bool(b) => {
            if *b {
                push_str(out, "true");
            } else {
                push_str(out, "false");
            }
        },
        Json::Int(n) => {
            let t = crate::text::i128_decimal(*n);
            push_str(out, t.as_str());
        },
        Json::Float(t) => {
            push_str(out, t.as_str());
        },
        Json::Str(s) => {
            let ghost start = out@;
            string_push(out, '"');
            push_escaped(out, s.as_str());
            string_push(out, '"');
            assert(out@ =~= start + render(j@));
        },
        Json::Array(v) => {
            let ghost start = out@;
            proof {
                reveal_with_fuel(<Json as View>::view, 2);
            }
            let ghost a = j@->Array_0;
            string_push(out, '[');
            let mut i: usize = 0;
            assert(a.take(0) =~= Seq::<JsonV>::empty());
            while i < v.len()
                invariant
                    i <= v.len(),
                    j@ is Array,
                    a == j@->Array_0,
                    a.len() == v.len(),
                    forall|k: int| 0 <= k < v.len() ==> #[trigger] a[k] == v@[k]@,
                    out@ == start + seq!['['] + render_list(a.take(i as int)),
                decreases v.len() - i,
            {
                let ghost before = out@;
                if i > 0 {
                    string_push(out, ',');
                }
                proof {
                    assert(decreases_to!(j@ => a));
                    assert(decreases_to!(a => a[i as int]));
                }
                push_json(out, &v[i]);
                i = i + 1;
                proof {
                    let t = a.take(i as int);
                    assert(t.drop_last() =~= a.take(i - 1));
                    assert(t.last() == a[i - 1]);
                    if i == 1 {
                        assert(t =~= seq![a[0]]);
                        assert(out@ =~= start + seq!['['] + render_list(t));
                    } else {
                        assert(out@ =~= start + seq!['['] + render_list(t));
                    }
                }
            }
            string_push(out, ']');
            assert(a.take(v.len() as int) =~= a);
            assert(out@ =~= start + render(j@));
        },
        Json::Object(v) => {
            let ghost start = out@;
            proof {
                reveal_with_fuel(<Json as View>::view, 2);
            }
            let ghost f = j@->Object_0;
            assert(f =~= fields_view(v@));
            let order = member_order_of(v);
            let ghost ord = member_order(f);
            proof {
                lemma_sorted_indices(f, f.len());
            }
            string_push(out, '{');
            let mut i: usize = 0;
            assert(ord.take(0) =~= Seq::<int>::empty());
            while i < order.len()
                invariant
                    i <= order.len(),
                    order.len() == v.len(),
                    ord.len() == v.len(),
                    j@ is Object,
                    f == j@->Object_0,
                    f == fields_view(v@),
                    ord == member_order(f),
                    forall|q: int| 0 <= q < v.len() ==> #[trigger] order@[q] as int == ord[q],
                    forall|q: int| 0 <= q < v.len() ==> #[trigger] order@[q] < v.len(),
                    out@ == start + seq!['{'] + render_members(f, ord.take(i as int)),
                decreases order.len() - i,
            {
                let m = order[i];
                assert(order@[i as int] as int == ord[i as int]);
                if i > 0 {
                    string_push(out, ',');
                }
                let ghost mid = out@;
                string_push(out, '"');
                push_escaped(out, v[m].0.as_str());
                string_push(out, '"');
                string_push(out, ':');
                proof {
                    assert(decreases_to!(j@ => f));
                    assert(decreases_to!(f => f[m as int]));
                    assert(decreases_to!(f[m as int] => f[m as int].1));
                }
                push_json(out, &v[m].1);
                i = i + 1;
                proof {
                    let t = ord.take(i as int);
                    assert(t.drop_last() =~= ord.take(i - 1));
                    assert(t.last() == m as int);
                    if i == 1 {
                        assert(mid == start + seq!['{']);
                    }
                    assert(out@ =~= start + seq!['{'] + render_members(f, t));
                }
            }
            string_push(out, '}');
            assert(ord.take(v.len() as int) =~= ord);
            assert(out@ =~= start + render(j@));
        },
    }
}

/// The view of record members whose texts are written.
pub open spec fn record_view(f: Seq<(&str, String)>) -> Seq<(Seq<char>, Seq<char>)> {
    Seq::new(f.len(), |i: int| (f[i].0@, f[i].1@))
}

/// The text of a record, members in the order given.
pub fn record_to_text(f: &Vec<(&str, String)>) -> (r: String)
    ensures
        r@ == record_text(record_view(f@)),
{
    let ghost g = record_view(f@);
    let mut out = String::new();
    string_push(&mut out, '{');
    let mut i: usize = 0;
    assert(g.take(0) =~= Seq::<(Seq<char>, Seq<char>)>::empty());
    while i < f.len()
        invariant
            i <= f.len(),
            g == record_view(f@),
            out@ == seq!['{'] + record_members(g.take(i as int)),
        decreases f.len() - i,
    {
        if i > 0 {
            string_push(&mut out, ',');
        }
        let ghost mid = out@;
        string_push(&mut out, '"');
        push_escaped(&mut out, f[i].0);
        string_push(&mut out, '"');
        string_push(&mut out, ':');
        push_str(&mut out, f[i].1.as_str());
        i = i + 1;
        proof {
            let t = g.take(i as int);
            assert(t.drop_last() =~= g.take(i - 1));
            assert(t.last() == g[i - 1]);
            if i == 1 {
                assert(mid == seq!['{']);
            }
            assert(out@ =~= seq!['{'] + record_members(t));
        }
    }
    string_push(&mut out, '}');
    assert(g.take(f.len() as int) =~= g);
    assert(out@ =~= record_text(g));
    out
}

/// The compact JSON text of a value.
pub fn to_json_text(j: &Json) -> (r: String)
    ensures
        r@ == render(j@),
{
    let mut out = String::new();
    push_json(&mut out, j);
    assert(out@ =~= render(j@));
    out
}

// ─── Pretty text ────────────────────────────────────────────────────────────

/// The pretty JSON text of a value at indentation `ind`: arrays and objects
/// with one element or member per line, indented two spaces per level,
/// `"key": value` members in the order of their keys; empty ones as `[]`
/// and `{}`.
pub open spec fn pretty(v: JsonV, ind: Seq<char>) -> Seq<char>
    decreases v, 0int, 0int,
{
    match v {
        JsonV::Array(a) => if a.len() == 0 {
            "[]"@
        } else {
            seq!['['] + pretty_list(a, ind + "  "@) + seq!['\n'] + ind + seq![']']
        },
        JsonV::Object(f) => if f.len() == 0 {
            "{}"@
        } else {
            seq!['{'] + pretty_members(f, member_order(f), ind + "  "@) + seq!['\n'] + ind + seq!['}']
        },
        _ => render(v),
    }
}

/// The elements of an array, each on a new line at indentation `ind`.
pub open spec fn pretty_list(a: Seq<JsonV>, ind: Seq<char>) -> Seq<char>
    decreases a, 1int, 0int,
{
    if a.len() == 0 {
        Seq::empty()
    } else if a.len() == 1 {
        seq!['\n'] + ind + pretty(a[0], ind)
    } else {
        pretty_list(a.drop_last(), ind) + seq![','] + seq!['\n'] + ind + pretty(a.last(), ind)
    }
}

/// The members of `f` at the indices `idx`, each on a new line at
/// indentation `ind`.
pub open spec fn pretty_members(f: Seq<(Seq<char>, JsonV)>, idx: Seq<int>, ind: Seq<char>) -> Seq<char>
    decreases f, 1int, idx.len(),
{
    if idx.len() == 0 {
        Seq::empty()
    } else {
        let j = idx.last();
        let item = if 0 <= j < f.len() {
            seq!['\n'] + ind + seq!['"'] + escape(f[j].0) + seq!['"', ':', ' '] + pretty(f[j].1, ind)
        } else {
            Seq::empty()
        };
        if idx.len() == 1 {
            item
        } else {
            pretty_members(f, idx.drop_last(), ind) + seq![','] + item
        }
    }
}

/// Appends the pretty JSON text of `j` at indentation `ind`.
#[verifier::spinoff_prover]
#[verifier::rlimit(40)]
fn push_pretty(out: &mut String, j: &Json, ind: &str)
    ensures
        final(out)@ == old(out)@ + pretty(j@, ind@),
    decreases j@,
{
    match j {
        Json::Array(v) => {
            let ghost start = out@;
            proof {
                reveal_with_fuel(<Json as View>::view, 2);
            }
            let ghost a = j@->Array_0;
            if v.len() == 0 {
                push_str(out, "[]");
                return;
            }
            let inner = crate::text::concat(ind, "  ");
            string_push(out, '[');
            let mut i: usize = 0;
            assert(a.take(0) =~= Seq::<JsonV>::empty());
            while i < v.len()
                invariant
                    i <= v.len(),
                    j@ is Array,
                    a == j@->Array_0,
                    a.len() == v.len(),
                    inner@ == ind@ + "  "@,
                    forall|k: int| 0 <= k < v.len() ==> #[trigger] a[k] == v@[k]@,
                    out@ == start + seq!['['] + pretty_list(a.take(i as int), inner@),
                decreases v.len() - i,
            {
                if i > 0 {
                    string_push(out, ',');
                }
                string_push(out, '\n');
                push_str(out, inner.as_str());
                proof {
                    assert(decreases_to!(j@ => a));
                    assert(decreases_to!(a => a[i as int]));
                }
                push_pretty(out, &v[i], inner.as_str());
                i = i + 1;
                proof {
                    let t = a.take(i as int);
                    assert(t.drop_last() =~= a.take(i - 1));
                    assert(t.last() == a[i - 1]);
                    if i == 1 {
                        assert(t =~= seq![a[0]]);
                    }
                    assert(out@ =~= start + seq!['['] + pretty_list(t, inner@));
                }
            }
            string_push(out, '\n');
            push_str(out, ind);
            string_push(out, ']');
            assert(a.take(v.len() as int) =~= a);
            assert(out@ =~= start + pretty(j@, ind@));
        },
        Json::Object(v) => {
            let ghost start = out@;
            proof {
                reveal_with_fuel(<Json as View>::view, 2);
            }
            let ghost f = j@->Object_0;
            if v.len() == 0 {
                push_str(out, "{}");
                return;
            }
            assert(f =~= fields_view(v@));
            let order = member_order_of(v);
            let ghost ord = member_order(f);
            proof {
                lemma_sorted_indices(f, f.len());
            }
            let inner = crate::text::concat(ind, "  ");
            string_push(out, '{');
            let mut i: usize = 0;
            assert(ord.take(0) =~= Seq::<int>::empty());
            while i < order.len()
                invariant
                    i <= order.len(),
                    order.len() == v.len(),
                    ord.len() == v.len(),
                    j@ is Object,
                    f == j@->Object_0,
                    f == fields_view(v@),
                    ord == member_order(f),
                    inner@ == ind@ + "  "@,
                    forall|q: int| 0 <= q < v.len() ==> #[trigger] order@[q] as int == ord[q],
                    forall|q: int| 0 <= q < v.len() ==> #[trigger] order@[q] < v.len(),
                    out@ == start + seq!['{'] + pretty_members(f, ord.take(i as int), inner@),
                decreases order.len() - i,
            {
                let m = order[i];
                assert(order@[i as int] as int == ord[i as int]);
                if i > 0 {
                    string_push(out, ',');
                }
                let ghost mid = out@;
                string_push(out, '\n');
                push_str(out, inner.as_str());
                string_push(out, '"');
                push_escaped(out, v[m].0.as_str());
                string_push(out, '"');
                string_push(out, ':');
                string_push(out, ' ');
                proof {
                    assert(decreases_to!(j@ => f));
                    assert(decreases_to!(f => f[m as int]));
                    assert(decreases_to!(f[m as int] => f[m as int].1));
                }
                push_pretty(out, &v[m].1, inner.as_str());
                i = i + 1;
                proof {
                    let t = ord.take(i as int);
                    assert(t.drop_last() =~= ord.take(i - 1));
                    assert(t.last() == m as int);
                    if i == 1 {
                        assert(mid == start + seq!['{']);
                    }
                    assert(out@ =~= start + seq!['{'] + pretty_members(f, t, inner@));
                }
            }
            string_push(out, '\n');
            push_str(out, ind);
            string_push(out, '}');
            assert(ord.take(v.len() as int) =~= ord);
            assert(out@ =~= start + pretty(j@, ind@));
        },
        _ => {
            push_json(out, j);
        },
    }
}

/// The pretty JSON text of a value, two spaces per level.
pub fn to_pretty_text(j: &Json) -> (r: String)
    ensures
        r@ == pretty(j@, Seq::empty()),
{
    let mut out = String::new();
    push_pretty(&mut out, j, "");
    proof {
        reveal_strlit("");
        assert(""@ =~= Seq::<char>::empty());
    }
    out
}

} // verus!
