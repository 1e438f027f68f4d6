use vstd::prelude::*;
use vstd::string::*;

use crate::config::{PREFIX, SEPARATOR, SUFFIX};

verus! {

/// The texts held by a sequence of strings.
pub open spec fn texts(v: Seq<String>) -> Seq<Seq<char>> {
    v.map_values(|s: String| s@)
}

/// The non-empty texts of `slots`, in their order.
pub open spec fn nonempty_slots(slots: Seq<Seq<char>>) -> Seq<Seq<char>>
    decreases slots.len(),
{
    if slots.len() == 0 {
        seq![]
    } else if slots.last().len() == 0 {
        nonempty_slots(slots.drop_last())
    } else {
        nonempty_slots(slots.drop_last()).push(slots.last())
    }
}

/// `parts` with `sep` between each two neighbours.
pub open spec fn join(parts: Seq<Seq<char>>, sep: Seq<char>) -> Seq<char>
    decreases parts.len(),
{
    if parts.len() == 0 {
        seq![]
    } else if parts.len() == 1 {
        parts[0]
    } else {
        join(parts.drop_last(), sep) + sep + parts.last()
    }
}

/// The status string shown for the slots of an output table: the non-empty
/// slots in declaration order, joined by `sep` and wrapped by `prefix` and
/// `suffix`. A table with no non-empty slot shows `prefix + suffix`.
pub open spec fn status_text(
    slots: Seq<Seq<char>>,
    prefix: Seq<char>,
    sep: Seq<char>,
    suffix: Seq<char>,
) -> Seq<char> {
    prefix + join(nonempty_slots(slots), sep) + suffix
}

/// Joins the non-empty entries of `outputs` with `sep`, between `prefix` and `suffix`.
pub fn join_status(outputs: &[String], prefix: &str, sep: &str, suffix: &str) -> (r: String)
    ensures
        r@ == status_text(texts(outputs@), prefix@, sep@, suffix@),
{
    let mut joined = String::new();
    let mut any = false;
    let mut i: usize = 0;
    while i < outputs.len()
        invariant
            i <= outputs@.len(),
            joined@ == join(nonempty_slots(texts(outputs@.subrange(0, i as int))), sep@),
            any == (nonempty_slots(texts(outputs@.subrange(0, i as int))).len() > 0),
        decreases outputs@.len() - i,
    {
        let ghost prev = texts(outputs@.subrange(0, i as int));
        let ghost next = texts(outputs@.subrange(0, i + 1));
        assert(next.drop_last() =~= prev);
        assert(next.last() == outputs@[i as int]@);
        let entry: &String = &outputs[i];
        if !entry.as_str().is_empty() {
            let ghost ne = nonempty_slots(prev);
            assert(ne.push(entry@).drop_last() =~= ne);
            if any {
                joined.append(sep);
            }
            joined.append(entry.as_str());
            any = true;
        }
        i = i + 1;
    }
    assert(outputs@.subrange(0, outputs@.len() as int) =~= outputs@);
    let mut r = String::new();
    r.append(prefix);
    r.append(joined.as_str());
    r.append(suffix);
    r
}

/// The status string for `outputs` with this program's separator and wrapping.
pub fn infer_status(outputs: &[String]) -> (r: String)
    ensures
        r@ == status_text(texts(outputs@), PREFIX@, SEPARATOR@, SUFFIX@),
{
    join_status(outputs, PREFIX, SEPARATOR, SUFFIX)
}

} // verus!
