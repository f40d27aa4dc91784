use vstd::prelude::*;

use vstd::utf8::encode_utf8;

use crate::roster::ScheduleRow;

verus! {

broadcast use vstd::seq_lib::group_to_multiset_ensures;

/// `x[i..] <= y[i..]` in lexicographic byte order.
pub open spec fn le_from(x: Seq<u8>, y: Seq<u8>, i: int) -> bool
    decreases x.len() - i,
{
    if i >= x.len() {
        true
    } else if i >= y.len() {
        false
    } else if x[i] < y[i] {
        true
    } else if x[i] > y[i] {
        false
    } else {
        le_from(x, y, i + 1)
    }
}

/// Names ordered as strings are: lexicographically by their UTF-8 bytes.
pub open spec fn name_le(a: Seq<char>, b: Seq<char>) -> bool {
    le_from(encode_utf8(a), encode_utf8(b), 0)
}

pub proof fn lemma_le_from_total(x: Seq<u8>, y: Seq<u8>, i: int)
    requires
        0 <= i,
    ensures
        le_from(x, y, i) || le_from(y, x, i),
    decreases x.len() - i,
{
    if i < x.len() && i < y.len() && x[i] == y[i] {
        lemma_le_from_total(x, y, i + 1);
    }
}

/// Whether name `a` sorts no later than name `b`.
pub fn name_le_exec(a: &String, b: &String) -> (r: bool)
    ensures
        r == name_le(a@, b@),
{
    let x = a.as_str().as_bytes();
    let y = b.as_str().as_bytes();
    let mut i: usize = 0;
    while i < x.len()
        invariant
            x@ == encode_utf8(a@),
            y@ == encode_utf8(b@),
            i <= x@.len(),
            forall|k: int| 0 <= k < i ==> k < y@.len() && x@[k] == y@[k],
            le_from(x@, y@, 0) == le_from(x@, y@, i as int),
        decreases x@.len() - i,
    {
        if i >= y.len() {
            return false;
        }
        if x[i] < y[i] {
            return true;
        }
        if x[i] > y[i] {
            return false;
        }
        i = i + 1;
    }
    true
}

/// Consecutive rows are in name order.
pub open spec fn sorted_by_name(rows: Seq<ScheduleRow>) -> bool {
    forall|i: int| 0 <= i < rows.len() - 1 ==> name_le(#[trigger] rows[i].name@, rows[i + 1].name@)
}

/// The rows in lexical name order: the same rows, rearranged.
pub fn by_name(rows: Vec<ScheduleRow>) -> (r: Vec<ScheduleRow>)
    ensures
        r@.to_multiset() == rows@.to_multiset(),
        sorted_by_name(r@),
{
    let ghost input = rows@;
    let mut rest = rows;
    let mut out: Vec<ScheduleRow> = Vec::new();
    while rest.len() > 0
        invariant
            out@.to_multiset().add(rest@.to_multiset()) == input.to_multiset(),
            sorted_by_name(out@),
        decreases rest@.len(),
    {
        let ghost before = rest@;
        let x = rest.pop().unwrap();
        proof {
            assert(before =~= rest@.push(x));
        }
        let mut p: usize = 0;
        while p < out.len() && name_le_exec(&out[p].name, &x.name)
            invariant
                p <= out@.len(),
                forall|k: int| 0 <= k < p ==> name_le(#[trigger] out@[k].name@, x.name@),
            decreases out@.len() - p,
        {
            p = p + 1;
        }
        let ghost old_out = out@;
        proof {
            if p < out@.len() {
                lemma_le_from_total(encode_utf8(out@[p as int].name@), encode_utf8(x.name@), 0);
            }
        }
        out.insert(p, x);
        proof {
            assert(out@.remove(p as int) =~= old_out);
            assert(out@[p as int] == x);
            assert(out@.to_multiset() =~= old_out.to_multiset().insert(x));
            assert forall|i: int| 0 <= i < out@.len() - 1 implies name_le(
                #[trigger] out@[i].name@,
                out@[i + 1].name@,
            ) by {
                if i < p - 1 {
                    assert(out@[i] == old_out[i] && out@[i + 1] == old_out[i + 1]);
                } else if i == p - 1 {
                    assert(out@[i] == old_out[i]);
                } else if i == p {
                    assert(out@[i + 1] == old_out[i]);
                } else {
                    assert(out@[i] == old_out[i - 1] && out@[i + 1] == old_out[i]);
                }
            }
            assert(out@.to_multiset().add(rest@.to_multiset()) =~= input.to_multiset());
        }
    }
    proof {
        assert(rest@ =~= Seq::<ScheduleRow>::empty());
        assert(out@.to_multiset().add(rest@.to_multiset()) =~= out@.to_multiset());
    }
    out
}

} // verus!
