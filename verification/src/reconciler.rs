//! Per-connection reconciliation: merges received window messages into the
//! connection's buffer, supplies the confirmed-or-fallback input for each
//! tick the simulation asks about, remembers which fallback values were
//! handed out, and raises a correction naming the earliest diverging tick
//! when confirmed data later contradicts either previously confirmed data or
//! a fallback value the simulation already consumed.

use vstd::prelude::*;

use crate::input::Input;
use crate::input_buffer::{
    current_input_spec, is_latest_contiguous, model_clear, model_merge,
    model_merge_correction, model_write, older_correction, BufferModel, InputBuffer,
    SlotEntry,
};
use crate::message::{InputEntry, InputWindowMessage};
use crate::tick::Tick;

verus! {

/// Whether processing `ent` exposes a divergence: the tick is now confirmed
/// in the merged buffer `bm`, a fallback value for it was recorded in the
/// prediction log `pm`, and the two inputs differ.
pub open spec fn entry_diverges(bm: BufferModel, pm: BufferModel, ent: InputEntry) -> bool {
    &&& ent.input is Some
    &&& bm.entries[ent.tick.0 as int] is Some
    &&& pm.entries[ent.tick.0 as int] is Some
    &&& pm.entries[ent.tick.0 as int]->Some_0.input != bm.entries[
        ent.tick.0 as int
    ]->Some_0.input
}

/// The prediction log after the first `n` entries of a message have been
/// retired: every carried tick that is confirmed in the merged buffer `bm`
/// loses its fallback record, whether it matched or diverged.
pub open spec fn model_retire_prefix(
    bm: BufferModel,
    pm: BufferModel,
    entries: Seq<InputEntry>,
    n: int,
) -> BufferModel
    decreases n,
{
    if n <= 0 {
        pm
    } else {
        let prev = model_retire_prefix(bm, pm, entries, n - 1);
        let ent = entries[n - 1];
        if ent.input is Some && bm.entries[ent.tick.0 as int] is Some {
            model_clear(prev, ent.tick.0 as int)
        } else {
            prev
        }
    }
}

/// The earliest tick among the first `n` entries whose newly confirmed input
/// contradicts a fallback value the simulation already consumed, if any.
pub open spec fn model_divergence_prefix(
    bm: BufferModel,
    pm: BufferModel,
    entries: Seq<InputEntry>,
    n: int,
) -> Option<Tick>
    decreases n,
{
    if n <= 0 {
        None
    } else {
        let prev_c = model_divergence_prefix(bm, pm, entries, n - 1);
        let prev_p = model_retire_prefix(bm, pm, entries, n - 1);
        if entry_diverges(bm, prev_p, entries[n - 1]) {
            older_correction(prev_c, entries[n - 1].tick)
        } else {
            prev_c
        }
    }
}

/// The earliest corrected tick of a whole message receipt: the older of the
/// merge-level correction and the fallback divergence, if either fired.
pub open spec fn combine_corrections(a: Option<Tick>, b: Option<Tick>) -> Option<Tick> {
    match b {
        None => a,
        Some(t) => older_correction(a, t),
    }
}

/// What one processed message reports back to the simulation driver: the
/// earliest tick to resimulate from, if any confirmed data contradicted what
/// was previously confirmed or already consumed, and the new safe rollback
/// boundary.
#[derive(Clone, Copy, Debug)]
pub struct ReconcileOutcome {
    pub corrected_from: Option<Tick>,
    pub latest_contiguous: Option<Tick>,
}

/// The receive-side state for one connection: the authoritative buffer of
/// confirmed inputs, and a log of the fallback values the simulation has
/// consumed for still-unconfirmed ticks, kept so that a late confirmation
/// that contradicts a consumed fallback raises a correction.
pub struct InputReconciler {
    pub buffer: InputBuffer,
    pub predictions: InputBuffer,
}

impl InputReconciler {
    /// Both rings well-formed and over the same window.
    pub open spec fn wf(self) -> bool {
        &&& self.buffer.wf()
        &&& self.predictions.wf()
        &&& self.buffer@.window == self.predictions@.window
    }

    pub fn new(window: usize) -> (r: InputReconciler)
        requires
            1 <= window <= 32768,
        ensures
            r.wf(),
            r.buffer@.window == window,
            r.buffer@.high_water is None,
            forall|t: int| 0 <= t < 65536 ==> r.buffer@.entries[t] is None,
            forall|t: int| 0 <= t < 65536 ==> r.predictions@.entries[t] is None,
    {
        InputReconciler {
            buffer: InputBuffer::new(window),
            predictions: InputBuffer::new(window),
        }
    }

    /// The input the simulation must use for `tick`: the confirmed input
    /// when one is present, else the deterministic fallback. A fallback is
    /// recorded in the prediction log (stamped with the tick itself), never
    /// written into the confirmed buffer.
    pub fn current_input(&mut self, tick: Tick) -> (i: Input)
        requires
            old(self).wf(),
        ensures
            final(self).wf(),
            final(self).buffer == old(self).buffer,
            i == current_input_spec(old(self).buffer@, tick.0 as int),
            old(self).buffer@.entries[tick.0 as int] is Some ==> final(self).predictions
                == old(self).predictions,
            old(self).buffer@.entries[tick.0 as int] is None ==> final(self).predictions@
                == model_write(
                old(self).predictions@,
                tick.0 as int,
                SlotEntry { input: i, stamp: tick },
            ),
    {
        match self.buffer.entry_lookup(tick) {
            Some(e) => e.input,
            None => {
                let v = self.buffer.fallback_input_for(tick);
                self.predictions.write_entry(tick, SlotEntry { input: v, stamp: tick });
                v
            },
        }
    }

    /// Processes one received window message: merges it into the confirmed
    /// buffer, retires the fallback records of every tick the message
    /// confirmed, and reports the earliest corrected tick (from overwritten
    /// confirmed data or contradicted consumed fallbacks) together with the
    /// new safe rollback boundary.
    pub fn receive_message(&mut self, msg: &InputWindowMessage) -> (outcome:
        ReconcileOutcome)
        requires
            old(self).wf(),
        ensures
            final(self).wf(),
            final(self).buffer@ == model_merge(
                old(self).buffer@,
                msg.send_stamp,
                msg.entries@,
            ),
            final(self).predictions@ == model_retire_prefix(
                final(self).buffer@,
                old(self).predictions@,
                msg.entries@,
                msg.entries@.len() as int,
            ),
            outcome.corrected_from == combine_corrections(
                model_merge_correction(old(self).buffer@, msg.send_stamp, msg.entries@),
                model_divergence_prefix(
                    final(self).buffer@,
                    old(self).predictions@,
                    msg.entries@,
                    msg.entries@.len() as int,
                ),
            ),
            is_latest_contiguous(final(self).buffer@, outcome.latest_contiguous),
    {
        let merge_correction = self.buffer.merge(msg);
        let ghost bm = self.buffer@;
        let ghost pm0 = self.predictions@;
        proof {
            old(self).buffer.lemma_wf_model();
            crate::input_buffer::lemma_model_merge_prefix_wf(
                old(self).buffer@,
                msg.send_stamp,
                msg.entries@,
                msg.entries@.len() as int,
            );
        }
        let mut divergence: Option<Tick> = None;
        let mut idx: usize = 0;
        let n = msg.entries.len();
        while idx < n
            invariant
                self.buffer.wf(),
                self.predictions.wf(),
                self.buffer@.window == self.predictions@.window,
                n == msg.entries@.len(),
                idx <= n,
                self.buffer@ == bm,
                self.predictions@ == model_retire_prefix(bm, pm0, msg.entries@, idx as int),
                divergence == model_divergence_prefix(bm, pm0, msg.entries@, idx as int),
            decreases n - idx,
        {
            let ent = msg.entries[idx];
            if ent.input.is_some() {
                if let Some(be) = self.buffer.entry_lookup(ent.tick) {
                    if let Some(pe) = self.predictions.entry_lookup(ent.tick) {
                        if pe.input != be.input {
                            divergence = match divergence {
                                None => Some(ent.tick),
                                Some(c) => if c.is_newer_than(ent.tick) {
                                    Some(ent.tick)
                                } else {
                                    Some(c)
                                },
                            };
                        }
                    }
                    self.predictions.clear_entry(ent.tick);
                }
            }
            idx += 1;
        }
        let combined = match divergence {
            None => merge_correction,
            Some(t) => match merge_correction {
                None => Some(t),
                Some(c) => if c.is_newer_than(t) {
                    Some(t)
                } else {
                    Some(c)
                },
            },
        };
        let latest = self.buffer.latest_confirmed_contiguous_tick();
        ReconcileOutcome { corrected_from: combined, latest_contiguous: latest }
    }
}

} // verus!
