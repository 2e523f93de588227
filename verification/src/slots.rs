//! Slot tables: growable sequences of optional entries. A `Some` entry is
//! live; a `None` entry is a freed slot whose index may be handed out again.
//! Subscriber sets and the record tables share this vocabulary.

use vstd::prelude::*;

verus! {

/// Slot `h` of `s` holds a live entry.
pub open spec fn live<V>(s: Seq<Option<V>>, h: int) -> bool {
    0 <= h < s.len() && s[h] is Some
}

/// How many slots of `s` hold a live entry.
pub open spec fn count_live<V>(s: Seq<Option<V>>) -> nat
    decreases s.len(),
{
    if s.len() == 0 {
        0
    } else {
        count_live(s.drop_last()) + if s.last() is Some {
            1nat
        } else {
            0nat
        }
    }
}

/// `post` is `pre` with `v` filled into the free slot `h`: either a recycled
/// slot that was free in `pre`, or a fresh slot at the end.
pub open spec fn slot_filled<V>(pre: Seq<Option<V>>, post: Seq<Option<V>>, h: int, v: V) -> bool {
    if h < pre.len() {
        &&& 0 <= h
        &&& pre[h] is None
        &&& post == pre.update(h, Some(v))
    } else {
        &&& h == pre.len()
        &&& post == pre.push(Some(v))
    }
}

/// The live entries of `s`, in slot order.
pub open spec fn live_entries<V>(s: Seq<Option<V>>) -> Seq<V>
    decreases s.len(),
{
    if s.len() == 0 {
        Seq::empty()
    } else {
        match s.last() {
            Some(v) => live_entries(s.drop_last()).push(v),
            None => live_entries(s.drop_last()),
        }
    }
}

/// Overwriting one slot changes the live count by the difference between the
/// new and the old occupancy of that slot.
pub proof fn lemma_count_live_update<V>(s: Seq<Option<V>>, h: int, v: Option<V>)
    requires
        0 <= h < s.len(),
    ensures
        count_live(s.update(h, v)) + (if s[h] is Some {
            1nat
        } else {
            0nat
        }) == count_live(s) + (if v is Some {
            1nat
        } else {
            0nat
        }),
    decreases s.len(),
{
    let s2 = s.update(h, v);
    if h == s.len() - 1 {
        assert(s2.drop_last() =~= s.drop_last());
    } else {
        assert(s2.drop_last() =~= s.drop_last().update(h, v));
        lemma_count_live_update(s.drop_last(), h, v);
    }
}

/// Appending a slot adds its occupancy to the live count.
pub proof fn lemma_count_live_push<V>(s: Seq<Option<V>>, v: Option<V>)
    ensures
        count_live(s.push(v)) == count_live(s) + (if v is Some {
            1nat
        } else {
            0nat
        }),
{
    assert(s.push(v).drop_last() =~= s);
}

/// Filling a free slot leaves every live slot exactly as it was: a newcomer
/// can never take, or touch, the slot of an existing entry.
pub proof fn lemma_slot_filled_preserves_others<V>(
    pre: Seq<Option<V>>,
    post: Seq<Option<V>>,
    h: int,
    v: V,
    y: int,
)
    requires
        slot_filled(pre, post, h, v),
        live(pre, y),
    ensures
        y != h,
        live(post, y),
        post[y] == pre[y],
{
}

/// One step of scanning a table from the front for its live count.
pub proof fn lemma_count_live_take_step<V>(s: Seq<Option<V>>, i: int)
    requires
        0 <= i < s.len(),
    ensures
        count_live(s.take(i + 1)) == count_live(s.take(i)) + (if s[i] is Some {
            1nat
        } else {
            0nat
        }),
{
    assert(s.take(i + 1).drop_last() =~= s.take(i));
    assert(s.take(i + 1).last() == s[i]);
}

/// One step of scanning a table from the front for its live entries.
pub proof fn lemma_live_entries_take_step<V>(s: Seq<Option<V>>, i: int)
    requires
        0 <= i < s.len(),
    ensures
        live_entries(s.take(i + 1)) == (match s[i] {
            Some(v) => live_entries(s.take(i)).push(v),
            None => live_entries(s.take(i)),
        }),
{
    assert(s.take(i + 1).drop_last() =~= s.take(i));
    assert(s.take(i + 1).last() == s[i]);
}

} // verus!
