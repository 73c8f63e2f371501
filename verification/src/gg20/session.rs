//! Kickoff synchronization of a session: peers may start sending
//! traffic before this party has seen its own init frame. Such frames
//! are buffered, up to a bound sized to the peer fan-out, and replayed
//! in arrival order once the session is running; frames are never
//! reordered.

use vstd::prelude::*;

use crate::proto::TrafficIn;

verus! {

/// A bounded first-in-first-out buffer for peer traffic that arrives
/// before the session is running.
pub struct TrafficBuffer {
    items: Vec<TrafficIn>,
    capacity: usize,
}

impl View for TrafficBuffer {
    type V = Seq<TrafficIn>;

    closed spec fn view(&self) -> Seq<TrafficIn> {
        self.items@
    }
}

impl TrafficBuffer {
    /// How many frames the buffer accepts; fixed at construction.
    pub closed spec fn spec_capacity(&self) -> int {
        self.capacity as int
    }

    /// An empty buffer that accepts up to `capacity` frames.
    pub fn new(capacity: usize) -> (r: TrafficBuffer)
        ensures
            r@ == Seq::<TrafficIn>::empty(),
            r.spec_capacity() == capacity,
    {
        TrafficBuffer { items: Vec::new(), capacity }
    }

    /// The number of buffered frames.
    pub fn len(&self) -> (r: usize)
        ensures
            r == self@.len(),
    {
        self.items.len()
    }

    /// Buffer one frame. A frame beyond the bound is refused and the
    /// buffer is left as it was; an accepted frame goes to the back,
    /// so arrival order is kept.
    pub fn push(&mut self, traffic: TrafficIn) -> (accepted: bool)
        ensures
            final(self).spec_capacity() == old(self).spec_capacity(),
            old(self)@.len() < old(self).spec_capacity() ==> {
                &&& accepted
                &&& final(self)@ == old(self)@.push(traffic)
            },
            old(self)@.len() >= old(self).spec_capacity() ==> {
                &&& !accepted
                &&& final(self)@ == old(self)@
            },
    {
        if self.items.len() < self.capacity {
            self.items.push(traffic);
            true
        } else {
            false
        }
    }

    /// Hand out every buffered frame, in the order it arrived, and
    /// leave the buffer empty: the replay a session performs when it
    /// enters its running state.
    pub fn drain(&mut self) -> (r: Vec<TrafficIn>)
        ensures
            final(self).spec_capacity() == old(self).spec_capacity(),
            r@ == old(self)@,
            final(self)@ == Seq::<TrafficIn>::empty(),
    {
        let mut out: Vec<TrafficIn> = Vec::new();
        std::mem::swap(&mut out, &mut self.items);
        out
    }
}

/// Replay preserves arrival order: what `drain` hands out is exactly
/// the sequence of accepted frames, with nothing reordered, dropped or
/// invented.
pub proof fn lemma_buffer_is_fifo(frames: Seq<TrafficIn>, t: TrafficIn, i: int)
    requires
        0 <= i < frames.len(),
    ensures
        frames.push(t)[i] == frames[i],
        frames.push(t)[frames.len() as int] == t,
{
}

} // verus!
