//! The per-connection input history: a fixed-capacity ring buffer mapping
//! each of the most recent W ticks to a confirmed input (or to nothing, when
//! no input was ever received for that tick). Writes for ticks older than the
//! retained window are dropped; writes for newer ticks advance the window,
//! implicitly evicting the ticks that fall out of it.
//!
//! Contracts speak about an abstract [`BufferModel`]: the window size, the
//! high-water tick, and a total map from tick values to their entries.

use vstd::prelude::*;

use crate::input::Input;
use crate::message::{InputEntry, InputWindowMessage};
use crate::tick::{tick_newer, tick_sub, Tick};

verus! {

/// A confirmed entry: the input value together with the send stamp of the
/// message that carried it (or the tick itself, for local point writes). The
/// stamp is the deterministic tie-break when two messages disagree on a tick.
#[derive(Clone, Copy, PartialEq, Eq, Structural, Debug)]
pub struct SlotEntry {
    pub input: Input,
    pub stamp: Tick,
}

/// The abstract state of an [`InputBuffer`]: its window size, its high-water
/// tick (the newest tick it has accepted, if any), and a total map from every
/// tick value to the entry confirmed for it (`None` outside the window and
/// for ticks never received).
#[verifier::ext_equal]
pub struct BufferModel {
    pub window: int,
    pub high_water: Option<int>,
    pub entries: Map<int, Option<SlotEntry>>,
}

/// What every reachable buffer model satisfies: a bounded window, a tick
/// value in range for the high-water mark, entries only inside the window,
/// and no entries at all before the first accepted write.
pub open spec fn model_wf(m: BufferModel) -> bool {
    &&& 1 <= m.window <= 32768
    &&& (forall|t: int| 0 <= t < 65536 ==> m.entries.dom().contains(t))
    &&& match m.high_water {
        None => forall|t: int| 0 <= t < 65536 ==> m.entries[t] is None,
        Some(h) => {
            &&& 0 <= h < 65536
            &&& forall|t: int|
                0 <= t < 65536 && tick_sub(h, t) >= m.window ==> m.entries[t] is None
        },
    }
}

/// A write for `wt` is stale when the buffer has a high-water mark, `wt` is
/// not newer than it, and `wt` lies at or beyond the back edge of the window.
pub open spec fn model_stale(m: BufferModel, wt: int) -> bool {
    match m.high_water {
        None => false,
        Some(h) => !tick_newer(wt, h) && tick_sub(h, wt) >= m.window,
    }
}

/// The high-water mark after an accepted write for `wt`: the write target if
/// it is the first write or is newer than the current mark, else unchanged.
pub open spec fn model_hw_after_write(m: BufferModel, wt: int) -> int {
    match m.high_water {
        None => wt,
        Some(h) => if tick_newer(wt, h) { wt } else { h },
    }
}

/// The buffer model after a point write of `e` at tick `wt`: unchanged when
/// the write is stale; otherwise the window moves up to the new high-water
/// mark (evicting every tick that falls out of it), `wt` holds `e`, and every
/// other tick still inside the window keeps its entry.
pub open spec fn model_write(m: BufferModel, wt: int, e: SlotEntry) -> BufferModel {
    if model_stale(m, wt) {
        m
    } else {
        let nh = model_hw_after_write(m, wt);
        BufferModel {
            window: m.window,
            high_water: Some(nh),
            entries: Map::new(
                |t: int| 0 <= t < 65536,
                |t: int|
                    if tick_sub(nh, t) >= m.window {
                        None
                    } else if t == wt {
                        Some(e)
                    } else {
                        m.entries[t]
                    },
            ),
        }
    }
}

/// The confirmed input for tick `t` in model `m`, if any.
pub open spec fn model_get(m: BufferModel, t: int) -> Option<Input> {
    match m.entries[t] {
        Some(e) => Some(e.input),
        None => None,
    }
}

/// The buffer model with the entry for tick `ct` removed and everything else
/// unchanged.
pub open spec fn model_clear(m: BufferModel, ct: int) -> BufferModel {
    BufferModel {
        window: m.window,
        high_water: m.high_water,
        entries: Map::new(
            |t: int| 0 <= t < 65536,
            |t: int| if t == ct { None } else { m.entries[t] },
        ),
    }
}

/// Whether one entry of an incoming message is applied to the buffer: its
/// input must be present, its tick must not be stale, and any existing entry
/// for that tick must not come from a later-sent message.
pub open spec fn entry_applies(m: BufferModel, stamp: Tick, ent: InputEntry) -> bool {
    match ent.input {
        None => false,
        Some(v) => {
            let wt = ent.tick.0 as int;
            &&& !model_stale(m, wt)
            &&& match m.entries[wt] {
                Some(e) => !tick_newer(e.stamp.0 as int, stamp.0 as int),
                None => true,
            }
        },
    }
}

/// Whether applying one entry corrects previously confirmed data: it is
/// applied, and the buffer already held a different input for that tick.
pub open spec fn entry_corrects(m: BufferModel, stamp: Tick, ent: InputEntry) -> bool {
    &&& entry_applies(m, stamp, ent)
    &&& match m.entries[ent.tick.0 as int] {
        Some(e) => e.input != ent.input->Some_0,
        None => false,
    }
}

/// The buffer model after one entry of a message with send stamp `stamp` has
/// been processed.
pub open spec fn model_merge_entry(m: BufferModel, stamp: Tick, ent: InputEntry) -> BufferModel {
    if entry_applies(m, stamp, ent) {
        model_write(m, ent.tick.0 as int, SlotEntry { input: ent.input->Some_0, stamp })
    } else {
        m
    }
}

/// The buffer model after the first `n` entries of a message have been
/// processed in order.
pub open spec fn model_merge_prefix(
    m: BufferModel,
    stamp: Tick,
    entries: Seq<InputEntry>,
    n: int,
) -> BufferModel
    decreases n,
{
    if n <= 0 {
        m
    } else {
        model_merge_entry(model_merge_prefix(m, stamp, entries, n - 1), stamp, entries[n - 1])
    }
}

/// The buffer model after a whole message has been merged.
pub open spec fn model_merge(m: BufferModel, stamp: Tick, entries: Seq<InputEntry>) -> BufferModel {
    model_merge_prefix(m, stamp, entries, entries.len() as int)
}

/// Folds a newly corrected tick into the earliest-corrected-so-far: the
/// older tick of the two, in modular order.
pub open spec fn older_correction(cur: Option<Tick>, wt: Tick) -> Option<Tick> {
    match cur {
        None => Some(wt),
        Some(c) => if tick_newer(c.0 as int, wt.0 as int) {
            Some(wt)
        } else {
            Some(c)
        },
    }
}

/// The earliest corrected tick over the first `n` entries of a message, if
/// any entry overwrote a different confirmed value.
pub open spec fn model_merge_correction_prefix(
    m: BufferModel,
    stamp: Tick,
    entries: Seq<InputEntry>,
    n: int,
) -> Option<Tick>
    decreases n,
{
    if n <= 0 {
        None
    } else {
        let prev = model_merge_correction_prefix(m, stamp, entries, n - 1);
        let pm = model_merge_prefix(m, stamp, entries, n - 1);
        if entry_corrects(pm, stamp, entries[n - 1]) {
            older_correction(prev, entries[n - 1].tick)
        } else {
            prev
        }
    }
}

/// The earliest corrected tick of merging a whole message, if any.
pub open spec fn model_merge_correction(
    m: BufferModel,
    stamp: Tick,
    entries: Seq<InputEntry>,
) -> Option<Tick> {
    model_merge_correction_prefix(m, stamp, entries, entries.len() as int)
}

/// A point write preserves model well-formedness and the window size.
pub proof fn lemma_model_write_wf(m: BufferModel, wt: int, e: SlotEntry)
    requires
        model_wf(m),
        0 <= wt < 65536,
    ensures
        model_wf(model_write(m, wt, e)),
        model_write(m, wt, e).window == m.window,
{
}

/// Merging any prefix of a message preserves model well-formedness and the
/// window size.
pub proof fn lemma_model_merge_prefix_wf(
    m: BufferModel,
    stamp: Tick,
    entries: Seq<InputEntry>,
    n: int,
)
    requires
        model_wf(m),
    ensures
        model_wf(model_merge_prefix(m, stamp, entries, n)),
        model_merge_prefix(m, stamp, entries, n).window == m.window,
    decreases n,
{
    if n > 0 {
        lemma_model_merge_prefix_wf(m, stamp, entries, n - 1);
        let pm = model_merge_prefix(m, stamp, entries, n - 1);
        if entry_applies(pm, stamp, entries[n - 1]) {
            lemma_model_write_wf(
                pm,
                entries[n - 1].tick.0 as int,
                SlotEntry { input: entries[n - 1].input->Some_0, stamp },
            );
        }
    }
}

/// What [`InputBuffer::latest_confirmed_contiguous_tick`] returns: `r` is
/// the highest tick such that it and every older tick still inside the
/// window are all confirmed, or `None` when no such tick exists.
pub open spec fn is_latest_contiguous(m: BufferModel, r: Option<Tick>) -> bool {
    match r {
        None => m.high_water is None || m.entries[tick_sub(
            m.high_water->Some_0,
            m.window - 1,
        )] is None,
        Some(tc) => {
            let h = m.high_water->Some_0;
            &&& m.high_water is Some
            &&& tick_sub(h, tc.0 as int) < m.window
            &&& m.entries[tc.0 as int] is Some
            &&& forall|u: int|
                0 <= u < 65536 && tick_sub(h, u) < m.window && tick_sub(h, u)
                    >= tick_sub(h, tc.0 as int) ==> m.entries[u] is Some
            &&& (tc.0 as int == h || m.entries[crate::tick::tick_add(tc.0 as int, 1)] is None)
        },
    }
}

/// The most recent confirmed input at or behind ring offset `d`, scanning
/// toward the back edge of the window.
pub open spec fn scan_confirmed_from(m: BufferModel, h: int, d: int) -> Option<Input>
    decreases m.window - d,
{
    if d < 0 || d >= m.window {
        None
    } else {
        match m.entries[tick_sub(h, d)] {
            Some(e) => Some(e.input),
            None => scan_confirmed_from(m, h, d + 1),
        }
    }
}

/// The deterministic fallback for tick `t`: the last confirmed input
/// strictly before `t` inside the retained window, or the neutral input when
/// none exists.
pub open spec fn fallback_input(m: BufferModel, t: int) -> Input {
    match m.high_water {
        None => Input::spec_neutral(),
        Some(h) => {
            let d0 = if tick_newer(t, h) {
                0
            } else {
                tick_sub(h, t) + 1
            };
            match scan_confirmed_from(m, h, d0) {
                Some(v) => v,
                None => Input::spec_neutral(),
            }
        },
    }
}

/// The input the simulation uses for tick `t`: the confirmed one when
/// present, else the fallback.
pub open spec fn current_input_spec(m: BufferModel, t: int) -> Input {
    match m.entries[t] {
        Some(e) => e.input,
        None => fallback_input(m, t),
    }
}

/// Physical slot of ring offset `d` when slot `s` holds offset 0, for a ring
/// of `w` slots.
spec fn ring_index(s: int, d: int, w: int) -> int {
    if s + d < w {
        s + d
    } else {
        s + d - w
    }
}

proof fn lemma_ring_index_injective(s: int, d1: int, d2: int, w: int)
    requires
        0 <= s < w,
        0 <= d1 < w,
        0 <= d2 < w,
        d1 != d2,
    ensures
        ring_index(s, d1, w) != ring_index(s, d2, w),
{
}

/// A fixed-capacity, tick-indexed ring buffer of confirmed inputs for one
/// connection. It retains the most recent W ticks relative to its own
/// high-water mark; slot lookup is O(1) from the modular distance between a
/// tick and the high-water mark.
pub struct InputBuffer {
    /// One slot per retained tick; `slots[ring_index(start, d)]` holds the
    /// entry for the tick `d` steps behind the high-water mark.
    slots: Vec<Option<SlotEntry>>,
    /// Physical slot holding the high-water tick.
    start: usize,
    /// Newest tick ever accepted, `None` before the first write.
    high_water: Option<Tick>,
}

impl View for InputBuffer {
    type V = BufferModel;

    closed spec fn view(&self) -> BufferModel {
        BufferModel {
            window: self.slots.len() as int,
            high_water: match self.high_water {
                None => None,
                Some(h) => Some(h.0 as int),
            },
            entries: Map::new(|t: int| 0 <= t < 65536, |t: int| self.entry_at(t)),
        }
    }
}

impl InputBuffer {
    spec fn spec_ring_index(self, d: int) -> int {
        ring_index(self.start as int, d, self.slots.len() as int)
    }

    /// The entry stored for tick value `t`, read through the ring layout.
    closed spec fn entry_at(self, t: int) -> Option<SlotEntry> {
        match self.high_water {
            None => None,
            Some(h) => {
                let d = tick_sub(h.0 as int, t);
                if d < self.slots.len() {
                    self.slots@[self.spec_ring_index(d)]
                } else {
                    None
                }
            },
        }
    }

    /// Structural well-formedness of the ring: established by [`Self::new`]
    /// and preserved by every operation.
    pub closed spec fn wf(self) -> bool {
        &&& 1 <= self.slots.len() <= 32768
        &&& (self.start as int) < self.slots.len()
        &&& (self.high_water is None ==> forall|i: int|
            0 <= i < self.slots.len() ==> self.slots@[i] is None)
    }

    /// Every well-formed buffer presents a well-formed model.
    pub proof fn lemma_wf_model(self)
        requires
            self.wf(),
        ensures
            model_wf(self@),
    {
    }

    /// Creates an empty buffer retaining `window` ticks of history. The
    /// window must fit within half the tick span so that staleness and
    /// newness remain unambiguous under modular comparison.
    pub fn new(window: usize) -> (b: InputBuffer)
        requires
            1 <= window <= 32768,
        ensures
            b.wf(),
            b@.window == window,
            b@.high_water is None,
            forall|t: int| 0 <= t < 65536 ==> b@.entries[t] is None,
    {
        let mut slots: Vec<Option<SlotEntry>> = Vec::new();
        let mut i: usize = 0;
        while i < window
            invariant
                i <= window,
                slots.len() == i,
                forall|j: int| 0 <= j < i ==> slots@[j] is None,
            decreases window - i,
        {
            slots.push(None);
            i += 1;
        }
        InputBuffer { slots, start: 0, high_water: None }
    }

    /// The number of ticks of history this buffer retains.
    pub fn window_len(&self) -> (w: usize)
        ensures
            w as int == self@.window,
    {
        self.slots.len()
    }

    /// The newest tick this buffer has accepted, if any.
    pub fn high_water(&self) -> (h: Option<Tick>)
        ensures
            match h {
                None => self@.high_water is None,
                Some(t) => self@.high_water == Some(t.0 as int),
            },
    {
        self.high_water
    }

    fn index_of(&self, d: usize) -> (i: usize)
        requires
            self.wf(),
            d < self.slots.len(),
        ensures
            i as int == self.spec_ring_index(d as int),
            i < self.slots.len(),
    {
        if self.start + d < self.slots.len() {
            self.start + d
        } else {
            self.start + d - self.slots.len()
        }
    }

    /// The full entry (input and stamp) confirmed for `tick`, if any.
    pub fn entry_lookup(&self, tick: Tick) -> (r: Option<SlotEntry>)
        requires
            self.wf(),
        ensures
            r == self@.entries[tick.0 as int],
    {
        match self.high_water {
            None => None,
            Some(h) => {
                let d = h.distance_since(tick);
                if (d as usize) < self.slots.len() {
                    let i = self.index_of(d as usize);
                    self.slots[i]
                } else {
                    None
                }
            },
        }
    }

    /// The confirmed input for `tick`, if it is present and still inside the
    /// retained window; `None` both for ticks never received and for ticks
    /// already evicted.
    pub fn get(&self, tick: Tick) -> (r: Option<Input>)
        requires
            self.wf(),
        ensures
            r == model_get(self@, tick.0 as int),
    {
        match self.entry_lookup(tick) {
            Some(e) => Some(e.input),
            None => None,
        }
    }

    /// Moves the window up so that `new_hw` becomes the high-water tick,
    /// clearing the slots of the ticks that enter the window; every tick
    /// still inside the new window keeps its entry.
    fn clear_and_advance(&mut self, new_hw: Tick)
        requires
            old(self).wf(),
            old(self).high_water is Some,
            tick_newer(new_hw.0 as int, old(self).high_water->Some_0.0 as int),
        ensures
            final(self).wf(),
            final(self).slots.len() == old(self).slots.len(),
            final(self).high_water == Some(new_hw),
            forall|t: int|
                0 <= t < 65536 ==> final(self).entry_at(t) == (
                if tick_sub(new_hw.0 as int, t) < old(self).slots.len()
                    && tick_sub(old(self).high_water->Some_0.0 as int, t)
                        < old(self).slots.len() {
                    old(self).entry_at(t)
                } else {
                    None::<SlotEntry>
                }),
    {
        if let Some(h) = self.high_water {
            let w = self.slots.len();
            let k = new_hw.distance_since(h);
            if (k as usize) >= w {
                // the whole retained history falls out of the window
                let mut j: usize = 0;
                while j < w
                    invariant
                        j <= w,
                        self.wf(),
                        w == old(self).slots.len(),
                        self.slots.len() == w,
                        self.start == old(self).start,
                        self.high_water == old(self).high_water,
                        forall|i: int| 0 <= i < j ==> self.slots@[i] is None,
                        forall|i: int|
                            j <= i < w ==> self.slots@[i] == old(self).slots@[i],
                    decreases w - j,
                {
                    self.slots.set(j, None);
                    j += 1;
                }
                self.start = 0;
                self.high_water = Some(new_hw);
                proof {
                    assert forall|t: int| 0 <= t < 65536 implies self.entry_at(t) == (
                        if tick_sub(new_hw.0 as int, t) < old(self).slots.len()
                            && tick_sub(h.0 as int, t) < old(self).slots.len() {
                            old(self).entry_at(t)
                        } else {
                            None::<SlotEntry>
                        }) by {
                        crate::tick::lemma_tick_sub_chain(new_hw.0 as int, h.0 as int, t);
                    }
                }
            } else {
                let kk = k as usize;
                let ns = if self.start >= kk {
                    self.start - kk
                } else {
                    self.start + w - kk
                };
                self.start = ns;
                let mut j: usize = 0;
                while j < kk
                    invariant
                        j <= kk < w,
                        self.wf(),
                        w == old(self).slots.len(),
                        self.slots.len() == w,
                        self.start == ns < w,
                        self.high_water == old(self).high_water,
                        forall|d: int|
                            0 <= d < w ==> self.slots@[ring_index(ns as int, d, w as int)] == (
                            if d < j {
                                None::<SlotEntry>
                            } else {
                                old(self).slots@[ring_index(ns as int, d, w as int)]
                            }),
                    decreases kk - j,
                {
                    let i = self.index_of(j);
                    self.slots.set(i, None);
                    proof {
                        assert forall|d: int|
                            0 <= d < w && d != j implies ring_index(ns as int, d, w as int)
                            != ring_index(ns as int, j as int, w as int) by {
                            lemma_ring_index_injective(
                                ns as int,
                                d,
                                j as int,
                                w as int,
                            );
                        }
                    }
                    j += 1;
                }
                self.high_water = Some(new_hw);
                proof {
                    assert forall|t: int| 0 <= t < 65536 implies self.entry_at(t) == (
                        if tick_sub(new_hw.0 as int, t) < old(self).slots.len()
                            && tick_sub(h.0 as int, t) < old(self).slots.len() {
                            old(self).entry_at(t)
                        } else {
                            None::<SlotEntry>
                        }) by {
                        crate::tick::lemma_tick_sub_chain(new_hw.0 as int, h.0 as int, t);
                        let dn = tick_sub(new_hw.0 as int, t);
                        if kk <= dn < w {
                            assert(ring_index(ns as int, dn, w as int) == ring_index(
                                old(self).start as int,
                                dn - kk,
                                w as int,
                            ));
                        }
                    }
                }
            }
        } else {
            proof {
                assert(false);
            }
        }
    }

    /// Writes `e` at tick `wt` following the window policy: a stale write is
    /// dropped, a newer tick advances the window first, and any prior entry
    /// at `wt` is overwritten.
    pub(crate) fn write_entry(&mut self, wt: Tick, e: SlotEntry)
        requires
            old(self).wf(),
        ensures
            final(self).wf(),
            final(self)@ == model_write(old(self)@, wt.0 as int, e),
    {
        let ghost m0 = self@;
        proof {
            self.lemma_wf_model();
        }
        match self.high_water {
            None => {
                self.high_water = Some(wt);
                self.start = 0;
                self.slots.set(0, Some(e));
                proof {
                    assert forall|t: int| 0 <= t < 65536 implies self.entry_at(t)
                        == model_write(m0, wt.0 as int, e).entries[t] by {
                        if t != wt.0 as int && tick_sub(wt.0 as int, t)
                            < self.slots.len() {
                            assert(self.spec_ring_index(tick_sub(wt.0 as int, t))
                                != 0) by {
                                lemma_ring_index_injective(
                                    0,
                                    tick_sub(wt.0 as int, t),
                                    0,
                                    self.slots.len() as int,
                                );
                            }
                        }
                    }
                    assert(self@ =~= model_write(m0, wt.0 as int, e));
                }
            },
            Some(h) => {
                let fwd = wt.distance_since(h);
                if fwd == 0 {
                    let i = self.index_of(0);
                    self.slots.set(i, Some(e));
                    proof {
                        assert(wt.0 == h.0);
                        assert forall|t: int| 0 <= t < 65536 implies self.entry_at(t)
                            == model_write(m0, wt.0 as int, e).entries[t] by {
                            let d = tick_sub(h.0 as int, t);
                            if t != wt.0 as int && d < self.slots.len() {
                                lemma_ring_index_injective(
                                    self.start as int,
                                    d,
                                    0,
                                    self.slots.len() as int,
                                );
                            }
                        }
                        assert(self@ =~= model_write(m0, wt.0 as int, e));
                    }
                } else if fwd < 32768 {
                    self.clear_and_advance(wt);
                    let ghost mid = *self;
                    let i = self.index_of(0);
                    self.slots.set(i, Some(e));
                    proof {
                        assert forall|t: int| 0 <= t < 65536 implies self.entry_at(t)
                            == model_write(m0, wt.0 as int, e).entries[t] by {
                            crate::tick::lemma_tick_sub_chain(wt.0 as int, h.0 as int, t);
                            let mid_entry = mid.entry_at(t);
                            let d = tick_sub(wt.0 as int, t);
                            if t != wt.0 as int && d < self.slots.len() {
                                lemma_ring_index_injective(
                                    self.start as int,
                                    d,
                                    0,
                                    self.slots.len() as int,
                                );
                                assert(self.entry_at(t) == mid_entry);
                            }
                        }
                        assert(self@ =~= model_write(m0, wt.0 as int, e));
                    }
                } else {
                    let back = h.distance_since(wt);
                    if (back as usize) < self.slots.len() {
                        let i = self.index_of(back as usize);
                        self.slots.set(i, Some(e));
                        proof {
                            assert forall|t: int| 0 <= t < 65536 implies self.entry_at(
                                t,
                            ) == model_write(m0, wt.0 as int, e).entries[t] by {
                                let d = tick_sub(h.0 as int, t);
                                if t != wt.0 as int && d < self.slots.len() {
                                    lemma_ring_index_injective(
                                        self.start as int,
                                        d,
                                        back as int,
                                        self.slots.len() as int,
                                    );
                                }
                            }
                            assert(self@ =~= model_write(m0, wt.0 as int, e));
                        }
                    } else {
                        proof {
                            assert(model_stale(m0, wt.0 as int));
                        }
                    }
                }
            },
        }
    }

    /// Writes a confirmed input for `tick`, stamped with `tick` itself (a
    /// local point capture). Silently dropped when `tick` is older than the
    /// retained window; otherwise it always succeeds, overwriting any prior
    /// value at that tick and advancing the window when `tick` is newer than
    /// the current high-water mark.
    pub fn set(&mut self, tick: Tick, input: Input)
        requires
            old(self).wf(),
        ensures
            final(self).wf(),
            final(self)@ == model_write(
                old(self)@,
                tick.0 as int,
                SlotEntry { input, stamp: tick },
            ),
    {
        self.write_entry(tick, SlotEntry { input, stamp: tick });
    }

    /// The highest tick T such that T and every older tick still inside the
    /// retained window are all confirmed: the safe rollback boundary. `None`
    /// when there is no history yet or the oldest retained tick is
    /// unconfirmed.
    pub fn latest_confirmed_contiguous_tick(&self) -> (r: Option<Tick>)
        requires
            self.wf(),
        ensures
            is_latest_contiguous(self@, r),
    {
        let h = match self.high_water {
            Some(h) => h,
            None => {
                return None;
            },
        };
        let w = self.slots.len();
        let mut j: usize = w;
        let mut blocked = false;
        while j > 0 && !blocked
            invariant
                self.wf(),
                w == self.slots.len(),
                j <= w,
                self.high_water == Some(h),
                blocked ==> 1 <= j && self.slots@[ring_index(
                    self.start as int,
                    j - 1,
                    w as int,
                )] is None,
                forall|d: int|
                    j <= d < w ==> self.slots@[ring_index(self.start as int, d, w as int)]
                        is Some,
            decreases j, (if blocked { 0int } else { 1int }),
        {
            let i = self.index_of(j - 1);
            if self.slots[i].is_some() {
                j -= 1;
            } else {
                blocked = true;
            }
        }
        if j == w {
            proof {
                assert(self.entry_at(tick_sub(h.0 as int, w - 1)) == self.slots@[
                    ring_index(self.start as int, w - 1, w as int)
                ]);
            }
            None
        } else {
            let tc = h.minus(j as u16);
            proof {
                assert(tick_sub(h.0 as int, tc.0 as int) == j);
                assert forall|u: int|
                    0 <= u < 65536 && tick_sub(h.0 as int, u) < w && tick_sub(
                        h.0 as int,
                        u,
                    ) >= j implies self@.entries[u] is Some by {
                    let du = tick_sub(h.0 as int, u);
                    assert(self.entry_at(u) == self.slots@[ring_index(
                        self.start as int,
                        du,
                        w as int,
                    )]);
                }
                if j > 0 {
                    assert(crate::tick::tick_add(tc.0 as int, 1) == tick_sub(
                        h.0 as int,
                        j - 1,
                    ));
                    assert(self.entry_at(tick_sub(h.0 as int, j - 1)) == self.slots@[
                        ring_index(self.start as int, j - 1, w as int)
                    ]);
                }
            }
            Some(tc)
        }
    }

    /// The deterministic fallback input for `tick`: repeats the last
    /// confirmed input strictly before `tick` inside the retained window,
    /// else the neutral input. Never written back as confirmed; it is
    /// recomputed on demand so that a later real value can still be merged.
    pub fn fallback_input_for(&self, tick: Tick) -> (i: Input)
        requires
            self.wf(),
        ensures
            i == fallback_input(self@, tick.0 as int),
    {
        let h = match self.high_water {
            Some(h) => h,
            None => {
                return Input::neutral();
            },
        };
        let w = self.slots.len();
        let d0: usize = if tick.is_newer_than(h) {
            0
        } else {
            let dt = h.distance_since(tick);
            if (dt as usize) >= w {
                return Input::neutral();
            }
            (dt as usize) + 1
        };
        let mut d = d0;
        while d < w
            invariant
                self.wf(),
                w == self.slots.len(),
                d <= w,
                self.high_water == Some(h),
                d0 as int == (if tick_newer(tick.0 as int, h.0 as int) {
                    0int
                } else {
                    tick_sub(h.0 as int, tick.0 as int) + 1
                }),
                scan_confirmed_from(self@, h.0 as int, d0 as int) == scan_confirmed_from(
                    self@,
                    h.0 as int,
                    d as int,
                ),
            decreases w - d,
        {
            let i = self.index_of(d);
            proof {
                assert(tick_sub(h.0 as int, tick_sub(h.0 as int, d as int)) == d as int);
                assert(self.entry_at(tick_sub(h.0 as int, d as int)) == self.slots@[
                    self.spec_ring_index(d as int)
                ]);
            }
            if let Some(e) = self.slots[i] {
                proof {
                    assert(self@.entries[tick_sub(h.0 as int, d as int)] == Some(e));
                    assert(scan_confirmed_from(self@, h.0 as int, d as int) == Some(
                        e.input,
                    ));
                    assert(scan_confirmed_from(self@, h.0 as int, d0 as int) == Some(
                        e.input,
                    ));
                }
                return e.input;
            }
            d += 1;
        }
        Input::neutral()
    }

    /// Whether a write for `tick` would be dropped as stale: older than the
    /// back edge of the retained window.
    pub fn is_stale(&self, tick: Tick) -> (r: bool)
        requires
            self.wf(),
        ensures
            r == model_stale(self@, tick.0 as int),
    {
        match self.high_water {
            None => false,
            Some(h) => {
                let fwd = tick.distance_since(h);
                if 0 < fwd && fwd < 32768 {
                    false
                } else {
                    (h.distance_since(tick) as usize) >= self.slots.len()
                }
            },
        }
    }

    /// Merges an incoming window message entry by entry, in order. Entries
    /// without input are skipped; stale ticks are dropped without any state
    /// change; a tick already confirmed from a later-sent message keeps its
    /// value; every other carried tick is written (re-stamping even an
    /// identical value, so that send-order preference holds whatever order
    /// messages arrive in), advancing the window as needed. Returns the
    /// earliest tick whose previously confirmed input was overwritten with a
    /// different value, if any: the point from which the caller must
    /// resimulate.
    pub fn merge(&mut self, msg: &InputWindowMessage) -> (correction: Option<Tick>)
        requires
            old(self).wf(),
        ensures
            final(self).wf(),
            final(self)@ == model_merge(old(self)@, msg.send_stamp, msg.entries@),
            correction == model_merge_correction(
                old(self)@,
                msg.send_stamp,
                msg.entries@,
            ),
    {
        let ghost m0 = self@;
        let mut correction: Option<Tick> = None;
        let mut idx: usize = 0;
        let n = msg.entries.len();
        while idx < n
            invariant
                self.wf(),
                n == msg.entries@.len(),
                idx <= n,
                self@ == model_merge_prefix(m0, msg.send_stamp, msg.entries@, idx as int),
                correction == model_merge_correction_prefix(
                    m0,
                    msg.send_stamp,
                    msg.entries@,
                    idx as int,
                ),
            decreases n - idx,
        {
            let ent = msg.entries[idx];
            let ghost pm = self@;
            match ent.input {
                None => {},
                Some(v) => {
                    if !self.is_stale(ent.tick) {
                        let existing = self.entry_lookup(ent.tick);
                        let apply = match existing {
                            Some(e) => !e.stamp.is_newer_than(msg.send_stamp),
                            None => true,
                        };
                        if apply {
                            let corrects = match existing {
                                Some(e) => e.input != v,
                                None => false,
                            };
                            if corrects {
                                correction = match correction {
                                    None => Some(ent.tick),
                                    Some(c) => if c.is_newer_than(ent.tick) {
                                        Some(ent.tick)
                                    } else {
                                        Some(c)
                                    },
                                };
                            }
                            self.write_entry(
                                ent.tick,
                                SlotEntry { input: v, stamp: msg.send_stamp },
                            );
                        }
                    }
                },
            }
            proof {
                assert(self@ == model_merge_entry(pm, msg.send_stamp, msg.entries@[idx as int]));
            }
            idx += 1;
        }
        correction
    }

    /// Removes the entry for `tick`, leaving every other tick untouched.
    /// Used on prediction records, never on confirmed remote history.
    pub(crate) fn clear_entry(&mut self, tick: Tick)
        requires
            old(self).wf(),
        ensures
            final(self).wf(),
            final(self)@ == model_clear(old(self)@, tick.0 as int),
    {
        let ghost m0 = self@;
        match self.high_water {
            None => {
                proof {
                    assert(self@ =~= model_clear(m0, tick.0 as int));
                }
            },
            Some(h) => {
                let d = h.distance_since(tick);
                if (d as usize) < self.slots.len() {
                    let i = self.index_of(d as usize);
                    self.slots.set(i, None);
                    proof {
                        assert forall|t: int| 0 <= t < 65536 implies self.entry_at(t)
                            == model_clear(m0, tick.0 as int).entries[t] by {
                            let dt = tick_sub(h.0 as int, t);
                            if t != tick.0 as int && dt < self.slots.len() {
                                lemma_ring_index_injective(
                                    self.start as int,
                                    dt,
                                    d as int,
                                    self.slots.len() as int,
                                );
                            }
                        }
                        assert(self@ =~= model_clear(m0, tick.0 as int));
                    }
                } else {
                    proof {
                        assert(self@ =~= model_clear(m0, tick.0 as int));
                    }
                }
            },
        }
    }
}

} // verus!
