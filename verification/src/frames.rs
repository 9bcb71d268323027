//! Cutting a byte stream into status reports.

use vstd::prelude::*;

use crate::protocol::push_all;
use crate::status::STATUS_PACKET_SIZE;

verus! {

/// Bytes that have arrived and are not yet part of a delivered report.
pub struct StatusFrameBuffer {
    pending: Vec<u8>,
}

impl View for StatusFrameBuffer {
    type V = Seq<u8>;

    closed spec fn view(&self) -> Seq<u8> {
        self.pending@
    }
}

impl StatusFrameBuffer {
    /// A buffer that holds no byte.
    pub fn new() -> (r: Self)
        ensures
            r@ == Seq::<u8>::empty(),
    {
        StatusFrameBuffer { pending: Vec::with_capacity(STATUS_PACKET_SIZE * 2) }
    }

    /// Append bytes that have arrived.
    pub fn push(&mut self, bytes: &[u8])
        ensures
            final(self)@ == old(self)@ + bytes@,
    {
        push_all(&mut self.pending, bytes);
    }

    /// Number of bytes held.
    pub fn len(&self) -> (r: usize)
        ensures
            r == self@.len(),
    {
        self.pending.len()
    }

    /// Take the first report, if it is complete.
    pub fn pop(&mut self) -> (r: Option<[u8; STATUS_PACKET_SIZE]>)
        ensures
            match r {
                Some(frame) => {
                    &&& old(self)@.len() >= STATUS_PACKET_SIZE
                    &&& frame@ == old(self)@.take(STATUS_PACKET_SIZE as int)
                    &&& final(self)@ == old(self)@.skip(STATUS_PACKET_SIZE as int)
                },
                None => old(self)@.len() < STATUS_PACKET_SIZE && final(self)@ == old(self)@,
            },
    {
        if self.pending.len() < STATUS_PACKET_SIZE {
            return None;
        }
        let mut frame: [u8; STATUS_PACKET_SIZE] = [0u8; STATUS_PACKET_SIZE];
        let mut i: usize = 0;
        while i < STATUS_PACKET_SIZE
            invariant
                i <= STATUS_PACKET_SIZE,
                self.pending@ == old(self).pending@,
                self.pending@.len() >= STATUS_PACKET_SIZE,
                forall|j: int| 0 <= j < i ==> frame@[j] == self.pending@[j],
            decreases STATUS_PACKET_SIZE - i,
        {
            frame[i] = self.pending[i];
            i = i + 1;
        }
        assert(frame@ =~= self.pending@.take(STATUS_PACKET_SIZE as int));
        let rest: Vec<u8> = self.pending.split_off(STATUS_PACKET_SIZE);
        self.pending = rest;
        Some(frame)
    }
}

/// The complete reports at the front of a byte stream, in order.
pub open spec fn reports(stream: Seq<u8>) -> Seq<Seq<u8>>
    decreases stream.len(),
{
    if stream.len() < STATUS_PACKET_SIZE {
        Seq::empty()
    } else {
        seq![stream.take(STATUS_PACKET_SIZE as int)] + reports(
            stream.skip(STATUS_PACKET_SIZE as int),
        )
    }
}

/// The bytes behind the last complete report of a byte stream.
pub open spec fn leftover(stream: Seq<u8>) -> Seq<u8>
    decreases stream.len(),
{
    if stream.len() < STATUS_PACKET_SIZE {
        stream
    } else {
        leftover(stream.skip(STATUS_PACKET_SIZE as int))
    }
}

/// Reports do not depend on how the stream was cut into transfers: those of
/// `a` come first, and what `a` leaves over starts the next one.
pub proof fn law_reports_survive_fragmentation(a: Seq<u8>, b: Seq<u8>)
    ensures
        reports(a + b) == reports(a) + reports(leftover(a) + b),
        leftover(a + b) == leftover(leftover(a) + b),
    decreases a.len(),
{
    if a.len() < STATUS_PACKET_SIZE {
        assert(reports(a) + reports(a + b) =~= reports(a + b));
    } else {
        let n = STATUS_PACKET_SIZE as int;
        assert((a + b).take(n) =~= a.take(n));
        assert((a + b).skip(n) =~= a.skip(n) + b);
        law_reports_survive_fragmentation(a.skip(n), b);
        assert(reports(a + b) =~= reports(a) + reports(leftover(a) + b));
    }
}

/// No byte is lost, repeated or reordered: the reports and what is left over
/// spell the stream out.
pub proof fn law_reports_partition_stream(stream: Seq<u8>)
    ensures
        reports(stream).flatten() + leftover(stream) == stream,
        leftover(stream).len() < STATUS_PACKET_SIZE,
        forall|i: int|
            0 <= i < reports(stream).len() ==> #[trigger] reports(stream)[i].len()
                == STATUS_PACKET_SIZE,
    decreases stream.len(),
{
    let n = STATUS_PACKET_SIZE as int;
    if stream.len() < STATUS_PACKET_SIZE {
        assert(reports(stream).flatten() =~= Seq::<u8>::empty());
        assert(reports(stream).flatten() + leftover(stream) =~= stream);
    } else {
        law_reports_partition_stream(stream.skip(n));
        let rest = reports(stream.skip(n));
        assert(reports(stream).drop_first() =~= rest);
        assert(reports(stream).first() == stream.take(n));
        assert(reports(stream).flatten() == stream.take(n) + rest.flatten());
        assert(stream =~= stream.take(n) + stream.skip(n));
        assert(reports(stream).flatten() + leftover(stream) =~= stream.take(n) + (rest.flatten()
            + leftover(stream.skip(n))));
    }
}

} // verus!
