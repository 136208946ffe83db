//! Builds the outbound window message: on each send opportunity the sender
//! packages the most recent K ticks of local input history, including the
//! ticks it never captured, into one redundantly transmitted message. No
//! acknowledgement is expected; redundancy across consecutive messages is
//! the loss-recovery mechanism.

use vstd::prelude::*;

use crate::input_buffer::{model_get, InputBuffer};
use crate::message::InputWindowMessage;
use crate::tick::{tick_sub, Tick};

verus! {

/// Packages the last `redundancy` ticks of a local [`InputBuffer`] into
/// [`InputWindowMessage`]s. `redundancy` is chosen to exceed the expected
/// packet-loss burst length and never exceeds the buffer window.
pub struct InputSender {
    pub redundancy: usize,
}

impl InputSender {
    pub fn new(redundancy: usize) -> (s: InputSender)
        requires
            1 <= redundancy <= 32768,
        ensures
            s.redundancy == redundancy,
    {
        InputSender { redundancy }
    }

    /// Builds the message for a send at `current`: one entry per tick of the
    /// span ending at `current`, oldest first, each carrying the confirmed
    /// input for its tick or `None` where the sender captured nothing. The
    /// message is stamped with `current` as its send-order tie-break.
    pub fn build_message(&self, buffer: &InputBuffer, current: Tick) -> (msg:
        InputWindowMessage)
        requires
            buffer.wf(),
            1 <= self.redundancy,
            self.redundancy as int <= buffer@.window,
        ensures
            msg.send_stamp == current,
            msg.entries@.len() == self.redundancy as int,
            forall|i: int|
                0 <= i < self.redundancy as int ==> {
                    let t = tick_sub(current.0 as int, self.redundancy - 1 - i);
                    &&& #[trigger] msg.entries@[i].tick.0 as int == t
                    &&& msg.entries@[i].input == model_get(buffer@, t)
                },
    {
        proof {
            buffer.lemma_wf_model();
        }
        let k = self.redundancy;
        let mut msg = InputWindowMessage::new(current);
        let mut i: usize = 0;
        while i < k
            invariant
                i <= k,
                k == self.redundancy,
                1 <= k <= 32768,
                buffer.wf(),
                msg.send_stamp == current,
                msg.entries@.len() == i as int,
                forall|j: int|
                    0 <= j < i as int ==> {
                        let t = tick_sub(current.0 as int, k - 1 - j);
                        &&& #[trigger] msg.entries@[j].tick.0 as int == t
                        &&& msg.entries@[j].input == model_get(buffer@, t)
                    },
            decreases k - i,
        {
            let t = current.minus((k - 1 - i) as u16);
            let input = buffer.get(t);
            msg.push_entry(t, input);
            i += 1;
        }
        msg
    }
}

} // verus!
