//! The wire representation of a window of recent per-tick inputs. Every
//! entry carries its own tick stamp, so merging on the receiving side never
//! depends on transport-level ordering; the message as a whole carries the
//! sender-side send stamp used as the deterministic tie-break when two
//! messages disagree on the same tick.

use vstd::prelude::*;

use crate::input::Input;
use crate::tick::Tick;

verus! {

/// One tick of the transmitted window: the tick it describes and the input
/// the sender captured for it, or `None` when the sender never captured one.
#[derive(Clone, Copy, Debug)]
pub struct InputEntry {
    pub tick: Tick,
    pub input: Option<Input>,
}

/// An ordered span of recent ticks' inputs, sent redundantly over an
/// unreliable transport. `send_stamp` is the sender's tick at the moment the
/// message was built; between two messages that both confirm the same tick
/// with different values, the one with the newer send stamp wins.
#[derive(Debug)]
pub struct InputWindowMessage {
    pub send_stamp: Tick,
    pub entries: Vec<InputEntry>,
}

impl InputWindowMessage {
    pub fn new(send_stamp: Tick) -> (m: InputWindowMessage)
        ensures
            m.send_stamp == send_stamp,
            m.entries@.len() == 0,
    {
        InputWindowMessage { send_stamp, entries: Vec::new() }
    }

    /// Appends one tick's entry to the transmitted span.
    pub fn push_entry(&mut self, tick: Tick, input: Option<Input>)
        ensures
            final(self).send_stamp == old(self).send_stamp,
            final(self).entries@ == old(self).entries@.push(
                InputEntry { tick, input },
            ),
    {
        self.entries.push(InputEntry { tick, input });
    }
}

} // verus!
