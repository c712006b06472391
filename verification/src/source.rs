//! Messages, positions, and an in-memory message source.
//!
//! `SimSource` models the partitioned log at the driver's boundary: a fixed
//! sequence of messages, a delivery cursor, and an acknowledgment log.  A
//! restart resumes delivery at the first unacknowledged message, which is
//! what makes acknowledge-after-write safe: anything unacknowledged is
//! redelivered.

use vstd::prelude::*;
use crate::payload::{ParsedPayload, PayloadView, decode_payload_bytes, decoded_payload_of};

verus! {

/// A message's place in the log: partition id and offset within it.
#[derive(Clone, Copy, PartialEq, Eq, Structural, Debug)]
pub struct Position {
    pub partition: i32,
    pub offset: i64,
}

/// A message as pulled from the log: opaque payload bytes plus a position.
pub struct RawMessage {
    pub position: Position,
    pub payload: Vec<u8>,
}

/// Spec-level image of a decoded message.
pub ghost struct MessageView {
    pub position: Position,
    pub payload: Option<PayloadView>,
}

/// A message whose payload bytes have been decoded; `None` when the bytes
/// did not decode.
pub struct SourceMessage {
    pub position: Position,
    pub payload: Option<ParsedPayload>,
}

impl View for SourceMessage {
    type V = MessageView;

    open spec fn view(&self) -> MessageView {
        MessageView {
            position: self.position,
            payload: match self.payload {
                Some(p) => Some(p@),
                None => None,
            },
        }
    }
}

impl Clone for SourceMessage {
    fn clone(&self) -> (r: Self)
        ensures
            r@ == self@,
    {
        SourceMessage {
            position: self.position,
            payload: match &self.payload {
                Some(p) => Some(p.clone()),
                None => None,
            },
        }
    }
}

/// Views of a sequence of messages.
pub open spec fn views_of(s: Seq<SourceMessage>) -> Seq<MessageView> {
    s.map_values(|m: SourceMessage| m@)
}

/// Decode each raw message's payload bytes; positions carry through
/// unchanged.
pub fn decode_messages(raw: &Vec<RawMessage>) -> (out: Vec<SourceMessage>)
    ensures
        out@.len() == raw@.len(),
        forall|i: int|
            0 <= i < raw@.len() ==> out@[i]@ == (MessageView {
                position: raw@[i].position,
                payload: decoded_payload_of(raw@[i].payload@),
            }),
{
    let mut out: Vec<SourceMessage> = Vec::new();
    let mut i: usize = 0;
    while i < raw.len()
        invariant
            i <= raw@.len(),
            out@.len() == i,
            forall|k: int|
                0 <= k < i ==> out@[k]@ == (MessageView {
                    position: raw@[k].position,
                    payload: decoded_payload_of(raw@[k].payload@),
                }),
        decreases raw@.len() - i,
    {
        let m = &raw[i];
        let payload = decode_payload_bytes(m.payload.as_slice());
        out.push(SourceMessage { position: m.position, payload });
        i = i + 1;
    }
    out
}

/// In-memory message source with an acknowledgment log.
pub struct SimSource {
    pub msgs: Vec<SourceMessage>,
    pub cursor: usize,
    pub acked: Vec<Position>,
}

impl SimSource {
    /// Positions are pairwise distinct and the cursor is inside the log.
    pub open spec fn wf(&self) -> bool {
        self.cursor <= self.msgs@.len() && forall|i: int, j: int|
            0 <= i < j < self.msgs@.len() ==> self.msgs@[i].position != self.msgs@[j].position
    }

    /// Every position of the first `n` messages is acknowledged.
    pub open spec fn prefix_acked(&self, n: int) -> bool {
        forall|i: int| 0 <= i < n ==> self.acked@.contains(self.msgs@[i].position)
    }

    pub fn new(msgs: Vec<SourceMessage>) -> (s: Self)
        requires
            forall|i: int, j: int|
                0 <= i < j < msgs@.len() ==> msgs@[i].position != msgs@[j].position,
        ensures
            s.wf(),
            s.msgs@ == msgs@,
            s.cursor == 0,
            s.acked@ == Seq::<Position>::empty(),
    {
        SimSource { msgs, cursor: 0, acked: Vec::new() }
    }

    /// Deliver up to `max` messages, in log order, from the cursor on;
    /// blocks nothing in this model, an empty result is end of stream.
    pub fn pull(&mut self, max: usize) -> (out: Vec<SourceMessage>)
        requires
            old(self).wf(),
        ensures
            final(self).wf(),
            final(self).msgs@ == old(self).msgs@,
            final(self).acked@ == old(self).acked@,
            out@.len() == (if max as int <= old(self).msgs@.len() - old(self).cursor {
                max as int
            } else {
                old(self).msgs@.len() - old(self).cursor
            }),
            final(self).cursor == old(self).cursor + out@.len(),
            forall|i: int|
                0 <= i < out@.len() ==> out@[i]@ == final(self).msgs@[old(self).cursor + i]@,
    {
        let mut out: Vec<SourceMessage> = Vec::new();
        while self.cursor < self.msgs.len() && out.len() < max
            invariant
                self.wf(),
                self.msgs@ == old(self).msgs@,
                self.acked@ == old(self).acked@,
                old(self).cursor <= self.cursor <= self.msgs@.len(),
                out@.len() == self.cursor - old(self).cursor,
                out@.len() <= max,
                forall|i: int|
                    0 <= i < out@.len() ==> out@[i]@ == self.msgs@[old(self).cursor + i]@,
            decreases self.msgs@.len() - self.cursor,
        {
            let m = self.msgs[self.cursor].clone();
            out.push(m);
            self.cursor = self.cursor + 1;
        }
        out
    }

    /// Record one position as durably processed.
    pub fn acknowledge(&mut self, p: Position)
        requires
            old(self).wf(),
        ensures
            final(self).wf(),
            final(self).msgs@ == old(self).msgs@,
            final(self).cursor == old(self).cursor,
            final(self).acked@ == old(self).acked@.push(p),
    {
        self.acked.push(p);
    }

    /// Record a batch's positions as durably processed.
    pub fn acknowledge_all(&mut self, ps: &Vec<Position>)
        requires
            old(self).wf(),
        ensures
            final(self).wf(),
            final(self).msgs@ == old(self).msgs@,
            final(self).cursor == old(self).cursor,
            final(self).acked@ == old(self).acked@ + ps@,
    {
        let mut i: usize = 0;
        while i < ps.len()
            invariant
                i <= ps@.len(),
                self.wf(),
                self.msgs@ == old(self).msgs@,
                self.cursor == old(self).cursor,
                self.acked@ == old(self).acked@ + ps@.subrange(0, i as int),
            decreases ps@.len() - i,
        {
            self.acked.push(ps[i]);
            proof {
                assert(old(self).acked@ + ps@.subrange(0, i as int + 1) =~= (old(self).acked@
                    + ps@.subrange(0, i as int)).push(ps@[i as int]));
            }
            i = i + 1;
        }
        proof {
            assert(ps@.subrange(0, ps@.len() as int) =~= ps@);
        }
    }

    fn position_acked(&self, p: Position) -> (r: bool)
        ensures
            r == self.acked@.contains(p),
    {
        let mut i: usize = 0;
        while i < self.acked.len()
            invariant
                i <= self.acked@.len(),
                forall|k: int| 0 <= k < i ==> self.acked@[k] != p,
            decreases self.acked@.len() - i,
        {
            if self.acked[i] == p {
                return true;
            }
            i = i + 1;
        }
        false
    }

    /// Resume after a crash or a failed cycle: the cursor moves to the
    /// first message whose position is not acknowledged, so everything
    /// unacknowledged is delivered again.
    pub fn restart(&mut self)
        requires
            old(self).wf(),
        ensures
            final(self).wf(),
            final(self).msgs@ == old(self).msgs@,
            final(self).acked@ == old(self).acked@,
            final(self).prefix_acked(final(self).cursor as int),
            final(self).cursor == final(self).msgs@.len() || !final(self).acked@.contains(
                final(self).msgs@[final(self).cursor as int].position,
            ),
    {
        let mut c: usize = 0;
        while c < self.msgs.len() && self.position_acked(self.msgs[c].position)
            invariant
                c <= self.msgs@.len(),
                self.wf(),
                self.msgs@ == old(self).msgs@,
                self.acked@ == old(self).acked@,
                self.cursor == old(self).cursor,
                forall|i: int| 0 <= i < c ==> self.acked@.contains(self.msgs@[i].position),
            decreases self.msgs@.len() - c,
        {
            c = c + 1;
        }
        self.cursor = c;
    }
}

} // verus!
