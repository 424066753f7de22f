//! The bounded queue in front of the task that writes to the socket.

use vstd::prelude::*;

verus! {

/// How many writes the queue holds at most.
pub const WIRE_CHANNEL_CAPACITY: usize = 256;

/// Why a write could not be queued.
#[derive(Clone, Copy, Debug, PartialEq, Eq, Structural)]
pub enum PushError {
    /// The writer is behind, and there is no slot left.
    Full,
    /// The writer has gone.
    Closed,
}

/// The writes handed to the writer, and how many more it takes.
#[derive(Debug)]
pub struct WireOutbox {
    pub writes: Vec<Vec<u8>>,
    pub slots: usize,
    pub closed: bool,
}

impl WireOutbox {
    /// Whether the writer takes another write.
    pub open spec fn has_room(self) -> bool {
        !self.closed && self.slots > 0
    }

    /// Whether `after` is this outbox with one more write behind the others.
    pub open spec fn grown_by(self, write: Seq<u8>, after: WireOutbox) -> bool {
        &&& after.writes@.len() == self.writes@.len() + 1
        &&& after.writes@.drop_last() == self.writes@
        &&& after.writes@.last()@ == write
        &&& after.slots == self.slots - 1
        &&& after.closed == self.closed
    }

    /// An outbox without writes in front of a writer that takes `slots` more, or
    /// none when it has gone.
    pub fn new(slots: usize, closed: bool) -> (w: WireOutbox)
        ensures
            w.writes@ == Seq::<Vec<u8>>::empty(),
            w.slots == slots,
            w.closed == closed,
    {
        WireOutbox { writes: Vec::new(), slots, closed }
    }

    /// Queues one write. It never waits: without a slot the write is refused.
    pub fn push_wire(&mut self, write: Vec<u8>) -> (r: Result<(), PushError>)
        ensures
            r is Ok == old(self).has_room(),
            r matches Err(e) ==> (e == PushError::Closed <==> old(self).closed),
            r is Err ==> *final(self) == *old(self),
            r is Ok ==> old(self).grown_by(write@, *final(self)) && final(self).writes@ == old(
                self,
            ).writes@.push(write),
    {
        if self.closed {
            return Err(PushError::Closed);
        }
        if self.slots == 0 {
            return Err(PushError::Full);
        }
        self.writes.push(write);
        self.slots = self.slots - 1;
        assert(self.writes@.drop_last() =~= old(self).writes@);
        Ok(())
    }
}

/// A write is taken, behind the others, exactly when the writer is there and has a slot,
/// and takes that slot; a refused one changes nothing, and is told apart by whether the
/// writer has gone.
pub proof fn writes_take_slots(
    w: &mut WireOutbox,
    write: Vec<u8>,
    r: Result<(), PushError>,
    i: int,
)
    requires
        call_ensures(WireOutbox::push_wire, (w, write), r),
    ensures
        r is Ok <==> !old(w).closed && old(w).slots > 0,
        r == Err::<(), PushError>(PushError::Closed) <==> old(w).closed,
        r == Err::<(), PushError>(PushError::Full) <==> !old(w).closed && old(w).slots == 0,
        r is Ok ==> {
            &&& final(w).slots == old(w).slots - 1
            &&& final(w).writes@.len() == old(w).writes@.len() + 1
            &&& final(w).writes@[old(w).writes@.len() as int]@ == write@
            &&& 0 <= i < old(w).writes@.len() ==> final(w).writes@[i] == old(w).writes@[i]
        },
        r is Err ==> *final(w) == *old(w),
        final(w).closed == old(w).closed,
{
}

} // verus!
