//! The library-wide guarantees, stated over the abstract buffer model and
//! proved once and for all: point writes are readable until evicted, the
//! contiguous-confirmation boundary never hides an unconfirmed tick, evicted
//! ticks stay evicted, merge order does not matter, and a connection that
//! never receives input always simulates with the neutral default.

use vstd::prelude::*;

use crate::input::Input;
use crate::input_buffer::{
    current_input_spec, entry_applies, fallback_input, is_latest_contiguous, model_get,
    model_merge, model_merge_entry, model_merge_prefix, model_stale, model_wf,
    model_write, scan_confirmed_from, BufferModel, SlotEntry,
};
use crate::message::{InputEntry, InputWindowMessage};
use crate::reconciler::{entry_diverges, model_divergence_prefix, model_retire_prefix};
use crate::tick::{lemma_tick_sub_chain, tick_newer, tick_sub, Tick};

verus! {

/// A tick value lies within the half-span arc above `base`. All ordering
/// facts among ticks of one arc behave like a total order; every law that
/// compares ticks across a merge restricts itself to one arc, which is
/// exactly the documented demand that the tick width be large enough to
/// make wraparound ambiguity practically irrelevant.
pub open spec fn in_arc(base: int, x: int) -> bool {
    &&& 0 <= base < 65536
    &&& 0 <= x < 65536
    &&& tick_sub(x, base) < 32768
}

/// A write that is not stale is immediately readable: `get` on the written
/// tick returns exactly the value just written.
pub proof fn lemma_set_then_get(m: BufferModel, wt: int, e: SlotEntry)
    requires
        model_wf(m),
        0 <= wt < 65536,
        !model_stale(m, wt),
    ensures
        model_write(m, wt, e).entries[wt] == Some(e),
        model_get(model_write(m, wt, e), wt) == Some(e.input),
{
}

/// A write leaves every other tick that remains inside the window exactly as
/// it was: the value last written for a tick stays readable until the tick
/// falls outside the window.
pub proof fn lemma_write_preserves_others(m: BufferModel, wt: int, e: SlotEntry, t: int)
    requires
        model_wf(m),
        0 <= wt < 65536,
        0 <= t < 65536,
        t != wt,
        !model_stale(m, wt),
        tick_sub(crate::input_buffer::model_hw_after_write(m, wt), t) < m.window,
    ensures
        model_write(m, wt, e).entries[t] == m.entries[t],
        model_get(model_write(m, wt, e), t) == model_get(m, t),
{
}

/// The contiguous-confirmation boundary never hides a gap: every tick that
/// precedes the returned tick and still lies inside the retained window is
/// confirmed.
pub proof fn lemma_no_gap_behind_boundary(m: BufferModel, tc: Tick, u: int)
    requires
        model_wf(m),
        is_latest_contiguous(m, Some(tc)),
        0 <= u < 65536,
        tick_newer(tc.0 as int, u),
        m.high_water is Some,
        tick_sub(m.high_water->Some_0, u) < m.window,
    ensures
        m.entries[u] is Some,
{
    let h = m.high_water->Some_0;
    lemma_tick_sub_chain(h, tc.0 as int, u);
}

/// Merging any prefix of a message never moves the high-water mark backward
/// and never brings a stale tick back inside the window, as long as the
/// merge stays within one half-span arc: the state of an evicted tick after
/// the merge is still `None`.
proof fn lemma_merge_prefix_keeps_stale(
    m: BufferModel,
    stamp: Tick,
    entries: Seq<InputEntry>,
    t: int,
    base: int,
    n: int,
)
    requires
        model_wf(m),
        model_stale(m, t),
        in_arc(base, t),
        m.high_water is Some,
        in_arc(base, m.high_water->Some_0),
        entries_in_arc(base, entries),
        0 <= n <= entries.len(),
    ensures
        model_wf(model_merge_prefix(m, stamp, entries, n)),
        model_merge_prefix(m, stamp, entries, n).window == m.window,
        model_merge_prefix(m, stamp, entries, n).high_water is Some,
        in_arc(base, model_merge_prefix(m, stamp, entries, n).high_water->Some_0),
        model_stale(model_merge_prefix(m, stamp, entries, n), t),
    decreases n,
{
    if n > 0 {
        lemma_merge_prefix_keeps_stale(m, stamp, entries, t, base, n - 1);
        let pm = model_merge_prefix(m, stamp, entries, n - 1);
        let ent = entries[n - 1];
        let h = pm.high_water->Some_0;
        let wt = ent.tick.0 as int;
        lemma_tick_sub_chain(h, t, base);
        lemma_tick_sub_chain(h, wt, base);
        lemma_tick_sub_chain(wt, t, base);
        lemma_tick_sub_chain(wt, h, base);
        lemma_tick_sub_chain(t, h, base);
        lemma_tick_sub_chain(t, wt, base);
        if entry_applies(pm, stamp, ent) {
            crate::input_buffer::lemma_model_write_wf(
                pm,
                wt,
                SlotEntry { input: ent.input->Some_0, stamp },
            );
        }
    }
}

/// A tick that has been evicted (fallen behind the retained window) is never
/// resurrected by a late-arriving message, however that message interleaves
/// confirmations and window advances — provided the merge stays within one
/// half-span arc above `base`, i.e. it does not wrap the tick counter all
/// the way around past the evicted tick again.
pub proof fn lemma_evicted_stays_evicted(
    m: BufferModel,
    stamp: Tick,
    entries: Seq<InputEntry>,
    t: int,
    base: int,
)
    requires
        model_wf(m),
        model_stale(m, t),
        in_arc(base, t),
        m.high_water is Some,
        in_arc(base, m.high_water->Some_0),
        entries_in_arc(base, entries),
    ensures
        model_merge(m, stamp, entries).entries[t] is None,
        model_get(model_merge(m, stamp, entries), t) is None,
{
    lemma_merge_prefix_keeps_stale(m, stamp, entries, t, base, entries.len() as int);
}

/// Every tick the model mentions — its high-water mark and the send stamp
/// of every confirmed entry — lies within the half-span arc above `base`.
pub open spec fn model_in_arc(base: int, m: BufferModel) -> bool {
    &&& (m.high_water is Some ==> in_arc(base, m.high_water->Some_0))
    &&& forall|t: int|
        0 <= t < 65536 && #[trigger] m.entries[t] is Some ==> in_arc(
            base,
            m.entries[t]->Some_0.stamp.0 as int,
        )
}

/// Every tick a message's entries carry lies within the arc above `base`.
pub open spec fn entries_in_arc(base: int, entries: Seq<InputEntry>) -> bool {
    forall|i: int|
        0 <= i < entries.len() ==> in_arc(base, #[trigger] entries[i].tick.0 as int)
}

/// A point write whose tick and stamp lie in the arc keeps the model in the
/// arc.
proof fn lemma_write_keeps_arc(m: BufferModel, wt: int, e: SlotEntry, base: int)
    requires
        model_wf(m),
        model_in_arc(base, m),
        in_arc(base, wt),
        in_arc(base, e.stamp.0 as int),
    ensures
        model_in_arc(base, model_write(m, wt, e)),
{
    let mw = model_write(m, wt, e);
    assert forall|t: int|
        0 <= t < 65536 && #[trigger] mw.entries[t] is Some implies in_arc(
        base,
        mw.entries[t]->Some_0.stamp.0 as int,
    ) by {
        if !model_stale(m, wt) && t != wt {
            assert(mw.entries[t] is Some ==> m.entries[t] is Some);
        }
    }
}

/// Processing two entries carried by two differently-stamped messages gives
/// the same buffer state in either order: the per-tick outcome is decided by
/// the send stamps and the window, never by arrival order.
#[verifier::rlimit(100)]
#[verifier::spinoff_prover]
pub proof fn lemma_merge_entry_commutes(
    m: BufferModel,
    s1: Tick,
    e1: InputEntry,
    s2: Tick,
    e2: InputEntry,
    base: int,
)
    requires
        model_wf(m),
        model_in_arc(base, m),
        in_arc(base, s1.0 as int),
        in_arc(base, s2.0 as int),
        in_arc(base, e1.tick.0 as int),
        in_arc(base, e2.tick.0 as int),
        s1.0 != s2.0,
    ensures
        model_merge_entry(model_merge_entry(m, s1, e1), s2, e2) == model_merge_entry(
            model_merge_entry(m, s2, e2),
            s1,
            e1,
        ),
{
    let wt1 = e1.tick.0 as int;
    let wt2 = e2.tick.0 as int;
    let m1 = model_merge_entry(m, s1, e1);
    let m2 = model_merge_entry(m, s2, e2);
    let m12 = model_merge_entry(m1, s2, e2);
    let m21 = model_merge_entry(m2, s1, e1);
    if e1.input is Some {
        crate::input_buffer::lemma_model_write_wf(
            m,
            wt1,
            SlotEntry { input: e1.input->Some_0, stamp: s1 },
        );
        lemma_write_keeps_arc(
            m,
            wt1,
            SlotEntry { input: e1.input->Some_0, stamp: s1 },
            base,
        );
    }
    if e2.input is Some {
        crate::input_buffer::lemma_model_write_wf(
            m,
            wt2,
            SlotEntry { input: e2.input->Some_0, stamp: s2 },
        );
        lemma_write_keeps_arc(
            m,
            wt2,
            SlotEntry { input: e2.input->Some_0, stamp: s2 },
            base,
        );
    }
    lemma_tick_sub_chain(wt1, wt2, base);
    lemma_tick_sub_chain(wt2, wt1, base);
    lemma_tick_sub_chain(s1.0 as int, s2.0 as int, base);
    lemma_tick_sub_chain(s2.0 as int, s1.0 as int, base);
    if m.high_water is Some {
        let h = m.high_water->Some_0;
        lemma_tick_sub_chain(h, wt1, base);
        lemma_tick_sub_chain(h, wt2, base);
        lemma_tick_sub_chain(wt1, h, base);
        lemma_tick_sub_chain(wt2, h, base);
    }
    if m.entries[wt1] is Some {
        let se = m.entries[wt1]->Some_0.stamp.0 as int;
        lemma_tick_sub_chain(se, s1.0 as int, base);
        lemma_tick_sub_chain(se, s2.0 as int, base);
        lemma_tick_sub_chain(s1.0 as int, se, base);
        lemma_tick_sub_chain(s2.0 as int, se, base);
    }
    if m.entries[wt2] is Some {
        let se = m.entries[wt2]->Some_0.stamp.0 as int;
        lemma_tick_sub_chain(se, s1.0 as int, base);
        lemma_tick_sub_chain(se, s2.0 as int, base);
        lemma_tick_sub_chain(s1.0 as int, se, base);
        lemma_tick_sub_chain(s2.0 as int, se, base);
    }
    assert(m12.high_water == m21.high_water);
    assert forall|t: int| 0 <= t < 65536 implies m12.entries[t] == m21.entries[t] by {
        lemma_tick_sub_chain(wt1, wt2, t);
        lemma_tick_sub_chain(wt2, wt1, t);
        if m.high_water is Some {
            let h = m.high_water->Some_0;
            lemma_tick_sub_chain(h, wt1, t);
            lemma_tick_sub_chain(h, wt2, t);
            lemma_tick_sub_chain(wt1, h, t);
            lemma_tick_sub_chain(wt2, h, t);
        }
    }
    assert(m12 =~= m21);
}

/// Merging a message whose stamp and ticks lie in the arc keeps the model
/// well-formed and in the arc.
proof fn lemma_merge_prefix_keeps_arc(
    m: BufferModel,
    stamp: Tick,
    entries: Seq<InputEntry>,
    base: int,
    n: int,
)
    requires
        model_wf(m),
        model_in_arc(base, m),
        in_arc(base, stamp.0 as int),
        entries_in_arc(base, entries),
        0 <= n <= entries.len(),
    ensures
        model_wf(model_merge_prefix(m, stamp, entries, n)),
        model_in_arc(base, model_merge_prefix(m, stamp, entries, n)),
    decreases n,
{
    if n > 0 {
        lemma_merge_prefix_keeps_arc(m, stamp, entries, base, n - 1);
        let pm = model_merge_prefix(m, stamp, entries, n - 1);
        let ent = entries[n - 1];
        if entry_applies(pm, stamp, ent) {
            crate::input_buffer::lemma_model_write_wf(
                pm,
                ent.tick.0 as int,
                SlotEntry { input: ent.input->Some_0, stamp },
            );
            lemma_write_keeps_arc(
                pm,
                ent.tick.0 as int,
                SlotEntry { input: ent.input->Some_0, stamp },
                base,
            );
        }
    }
}

/// One entry of a second message commutes past a whole prefix of a first,
/// differently-stamped message.
proof fn lemma_entry_commutes_with_prefix(
    m: BufferModel,
    s1: Tick,
    entries1: Seq<InputEntry>,
    n: int,
    s2: Tick,
    e2: InputEntry,
    base: int,
)
    requires
        model_wf(m),
        model_in_arc(base, m),
        in_arc(base, s1.0 as int),
        in_arc(base, s2.0 as int),
        entries_in_arc(base, entries1),
        in_arc(base, e2.tick.0 as int),
        s1.0 != s2.0,
        0 <= n <= entries1.len(),
    ensures
        model_merge_entry(model_merge_prefix(m, s1, entries1, n), s2, e2)
            == model_merge_prefix(model_merge_entry(m, s2, e2), s1, entries1, n),
    decreases n,
{
    if n > 0 {
        lemma_entry_commutes_with_prefix(m, s1, entries1, n - 1, s2, e2, base);
        let pm = model_merge_prefix(m, s1, entries1, n - 1);
        lemma_merge_prefix_keeps_arc(m, s1, entries1, base, n - 1);
        lemma_merge_entry_commutes(pm, s1, entries1[n - 1], s2, e2, base);
    }
}

/// Merge order independence: two window messages with distinct send stamps
/// leave the buffer in the same state whichever arrives first. When both
/// confirm the same tick with different inputs, the value of the message
/// with the newer send stamp wins in either order. Both messages and the
/// buffer must lie within one half-span arc above `base`: a merge that wraps
/// the tick counter more than half a span is outside every deployment this
/// window design admits.
pub proof fn lemma_merge_order_independent(
    m: BufferModel,
    s1: Tick,
    entries1: Seq<InputEntry>,
    s2: Tick,
    entries2: Seq<InputEntry>,
    base: int,
)
    requires
        model_wf(m),
        model_in_arc(base, m),
        in_arc(base, s1.0 as int),
        in_arc(base, s2.0 as int),
        entries_in_arc(base, entries1),
        entries_in_arc(base, entries2),
        s1.0 != s2.0,
    ensures
        model_merge(model_merge(m, s1, entries1), s2, entries2) == model_merge(
            model_merge(m, s2, entries2),
            s1,
            entries1,
        ),
{
    lemma_merge_commutes_prefix(m, s1, entries1, s2, entries2, base, entries2.len() as int);
}

proof fn lemma_merge_commutes_prefix(
    m: BufferModel,
    s1: Tick,
    entries1: Seq<InputEntry>,
    s2: Tick,
    entries2: Seq<InputEntry>,
    base: int,
    n2: int,
)
    requires
        model_wf(m),
        model_in_arc(base, m),
        in_arc(base, s1.0 as int),
        in_arc(base, s2.0 as int),
        entries_in_arc(base, entries1),
        entries_in_arc(base, entries2),
        s1.0 != s2.0,
        0 <= n2 <= entries2.len(),
    ensures
        model_merge_prefix(model_merge(m, s1, entries1), s2, entries2, n2)
            == model_merge(model_merge_prefix(m, s2, entries2, n2), s1, entries1),
    decreases n2,
{
    if n2 > 0 {
        lemma_merge_commutes_prefix(m, s1, entries1, s2, entries2, base, n2 - 1);
        let pm2 = model_merge_prefix(m, s2, entries2, n2 - 1);
        lemma_merge_prefix_keeps_arc(m, s2, entries2, base, n2 - 1);
        lemma_entry_commutes_with_prefix(
            pm2,
            s1,
            entries1,
            entries1.len() as int,
            s2,
            entries2[n2 - 1],
            base,
        );
    }
}

/// The buffer model after the first `n` messages of a sequence have been
/// merged in order.
pub open spec fn model_merge_sequence(
    m: BufferModel,
    msgs: Seq<InputWindowMessage>,
    n: int,
) -> BufferModel
    decreases n,
{
    if n <= 0 {
        m
    } else {
        model_merge(
            model_merge_sequence(m, msgs, n - 1),
            msgs[n - 1].send_stamp,
            msgs[n - 1].entries@,
        )
    }
}

/// Every message of the sequence lies in the arc: its send stamp and all the
/// ticks its entries carry.
pub open spec fn messages_in_arc(base: int, msgs: Seq<InputWindowMessage>) -> bool {
    forall|k: int|
        0 <= k < msgs.len() ==> in_arc(base, #[trigger] msgs[k].send_stamp.0 as int)
            && entries_in_arc(base, msgs[k].entries@)
}

/// Merging a sequence of arc-bounded messages keeps the model well-formed
/// and in the arc.
proof fn lemma_merge_sequence_keeps(
    m: BufferModel,
    msgs: Seq<InputWindowMessage>,
    base: int,
    n: int,
)
    requires
        model_wf(m),
        model_in_arc(base, m),
        messages_in_arc(base, msgs),
        0 <= n <= msgs.len(),
    ensures
        model_wf(model_merge_sequence(m, msgs, n)),
        model_in_arc(base, model_merge_sequence(m, msgs, n)),
    decreases n,
{
    if n > 0 {
        lemma_merge_sequence_keeps(m, msgs, base, n - 1);
        lemma_merge_prefix_keeps_arc(
            model_merge_sequence(m, msgs, n - 1),
            msgs[n - 1].send_stamp,
            msgs[n - 1].entries@,
            base,
            msgs[n - 1].entries@.len() as int,
        );
    }
}

proof fn lemma_merge_sequence_swap_helper(
    m: BufferModel,
    msgs: Seq<InputWindowMessage>,
    other: Seq<InputWindowMessage>,
    i: int,
    base: int,
    n: int,
)
    requires
        model_wf(m),
        model_in_arc(base, m),
        messages_in_arc(base, msgs),
        0 <= i,
        i + 1 < msgs.len(),
        msgs[i].send_stamp.0 != msgs[i + 1].send_stamp.0,
        other == msgs.update(i, msgs[i + 1]).update(i + 1, msgs[i]),
        0 <= n <= msgs.len(),
        n <= i || n >= i + 2,
    ensures
        model_merge_sequence(m, msgs, n) == model_merge_sequence(m, other, n),
    decreases n,
{
    if n > 0 {
        if n <= i {
            lemma_merge_sequence_swap_helper(m, msgs, other, i, base, n - 1);
            assert(other[n - 1] == msgs[n - 1]);
        } else if n == i + 2 {
            lemma_merge_sequence_swap_helper(m, msgs, other, i, base, i);
            let s = model_merge_sequence(m, msgs, i);
            lemma_merge_sequence_keeps(m, msgs, base, i);
            lemma_merge_order_independent(
                s,
                msgs[i].send_stamp,
                msgs[i].entries@,
                msgs[i + 1].send_stamp,
                msgs[i + 1].entries@,
                base,
            );
            assert(other[i] == msgs[i + 1]);
            assert(other[i + 1] == msgs[i]);
            assert(model_merge_sequence(m, msgs, i + 1) == model_merge(
                s,
                msgs[i].send_stamp,
                msgs[i].entries@,
            ));
            assert(model_merge_sequence(m, other, i + 1) == model_merge(
                s,
                msgs[i + 1].send_stamp,
                msgs[i + 1].entries@,
            ));
        } else {
            lemma_merge_sequence_swap_helper(m, msgs, other, i, base, n - 1);
            assert(other[n - 1] == msgs[n - 1]);
        }
    }
}

/// Merge order independence for whole sequences of messages: exchanging two
/// adjacent, differently-stamped messages leaves the final buffer state
/// unchanged — and since every reordering is a product of such exchanges,
/// the final state for any tick does not depend on the order the messages
/// were presented in, the send-order tie-break deciding conflicting ticks.
pub proof fn lemma_merge_sequence_swap_adjacent(
    m: BufferModel,
    msgs: Seq<InputWindowMessage>,
    other: Seq<InputWindowMessage>,
    i: int,
    base: int,
)
    requires
        model_wf(m),
        model_in_arc(base, m),
        messages_in_arc(base, msgs),
        0 <= i,
        i + 1 < msgs.len(),
        msgs[i].send_stamp.0 != msgs[i + 1].send_stamp.0,
        other == msgs.update(i, msgs[i + 1]).update(i + 1, msgs[i]),
    ensures
        model_merge_sequence(m, msgs, msgs.len() as int) == model_merge_sequence(
            m,
            other,
            other.len() as int,
        ),
{
    lemma_merge_sequence_swap_helper(m, msgs, other, i, base, msgs.len() as int);
}

/// Retiring prediction records touches only the ticks the message carries
/// with input: every other prediction survives.
proof fn lemma_retire_preserves_unrelated(
    bm: BufferModel,
    pm: BufferModel,
    entries: Seq<InputEntry>,
    t: int,
    n: int,
)
    requires
        0 <= t < 65536,
        0 <= n <= entries.len(),
        forall|j: int|
            0 <= j < n ==> !(#[trigger] entries[j].tick.0 as int == t && entries[j].input
                is Some),
    ensures
        model_retire_prefix(bm, pm, entries, n).entries[t] == pm.entries[t],
    decreases n,
{
    if n > 0 {
        lemma_retire_preserves_unrelated(bm, pm, entries, t, n - 1);
    }
}

/// A divergent correction is never silently dropped: when the simulation has
/// consumed a fallback for a tick, and the merged buffer confirms a
/// different input for it, and the message carries that tick, the
/// reconciliation pass reports a correction.
pub proof fn lemma_divergence_never_silent(
    bm: BufferModel,
    pm: BufferModel,
    entries: Seq<InputEntry>,
    t: int,
    n: int,
)
    requires
        0 <= t < 65536,
        bm.entries[t] is Some,
        pm.entries[t] is Some,
        pm.entries[t]->Some_0.input != bm.entries[t]->Some_0.input,
        0 <= n <= entries.len(),
        exists|k: int|
            0 <= k < n && #[trigger] entries[k].tick.0 as int == t && entries[k].input
                is Some,
    ensures
        model_divergence_prefix(bm, pm, entries, n) is Some,
    decreases n,
{
    if n > 0 {
        if exists|k: int|
            0 <= k < n - 1 && #[trigger] entries[k].tick.0 as int == t && entries[k].input
                is Some {
            lemma_divergence_never_silent(bm, pm, entries, t, n - 1);
        } else {
            assert(entries[n - 1].tick.0 as int == t && entries[n - 1].input is Some);
            lemma_retire_preserves_unrelated(bm, pm, entries, t, n - 1);
            assert(entry_diverges(bm, model_retire_prefix(bm, pm, entries, n - 1), entries[n - 1]));
        }
    }
}

/// In a buffer that never received anything, the backward scan finds no
/// confirmed input at any offset.
proof fn lemma_empty_scan(m: BufferModel, h: int, d: int)
    requires
        model_wf(m),
        forall|t: int| 0 <= t < 65536 ==> m.entries[t] is None,
        0 <= h < 65536,
    ensures
        scan_confirmed_from(m, h, d) is None,
    decreases m.window - d,
{
    if 0 <= d < m.window {
        lemma_empty_scan(m, h, d + 1);
    }
}

/// A connection that never received any input always simulates with the
/// defined neutral default, at every tick.
pub proof fn lemma_no_input_means_neutral(m: BufferModel, t: int)
    requires
        model_wf(m),
        0 <= t < 65536,
        forall|u: int| 0 <= u < 65536 ==> m.entries[u] is None,
    ensures
        current_input_spec(m, t) == Input::spec_neutral(),
        fallback_input(m, t) == Input::spec_neutral(),
{
    match m.high_water {
        None => {},
        Some(h) => {
            let d0 = if tick_newer(t, h) {
                0int
            } else {
                tick_sub(h, t) + 1
            };
            lemma_empty_scan(m, h, d0);
        },
    }
}

} // verus!
