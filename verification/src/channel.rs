//! Model of the fixed-capacity transport channel that carries records from a
//! probe to user space. The producer reserves space, writes one record and
//! commits it; when the free capacity cannot hold the record it is dropped
//! with no retry and no signal. The consumer drains every queued record,
//! oldest first.

use vstd::prelude::*;

verus! {

/// Total byte length of a queue of records.
pub open spec fn total_bytes(records: Seq<Seq<u8>>) -> nat
    decreases records.len(),
{
    if records.len() == 0 {
        0
    } else {
        total_bytes(records.drop_last()) + records.last().len()
    }
}

/// A fixed-byte-capacity, first-in-first-out channel of whole records.
pub struct Channel {
    capacity: usize,
    used: usize,
    records: Vec<Vec<u8>>,
}

impl Channel {
    /// The queued records, oldest first.
    pub closed spec fn view(&self) -> Seq<Seq<u8>> {
        self.records@.map_values(|r: Vec<u8>| r@)
    }

    /// The fixed byte capacity the channel was created with.
    pub closed spec fn spec_capacity(&self) -> usize {
        self.capacity
    }

    /// The channel's bookkeeping is consistent: the used-byte counter equals
    /// the total length of the queued records and never exceeds capacity.
    pub closed spec fn wf(&self) -> bool {
        &&& self.used == total_bytes(self@)
        &&& self.used <= self.capacity
    }

    /// Creates an empty channel of the given byte capacity.
    pub fn new(capacity: usize) -> (r: Channel)
        ensures
            r.wf(),
            r@ == Seq::<Seq<u8>>::empty(),
            r.spec_capacity() == capacity,
    {
        let r = Channel { capacity, used: 0, records: Vec::new() };
        proof {
            assert(r@ =~= Seq::<Seq<u8>>::empty());
        }
        r
    }

    /// Bytes currently queued.
    pub fn used(&self) -> (r: usize)
        requires
            self.wf(),
        ensures
            r == total_bytes(self@),
    {
        self.used
    }

    /// Reserves space for one record, writes it and commits it. When the
    /// free capacity cannot hold the record, the record is dropped: the
    /// channel is unchanged and the producer is not signalled beyond the
    /// returned flag.
    pub fn submit(&mut self, record: Vec<u8>) -> (accepted: bool)
        requires
            old(self).wf(),
        ensures
            final(self).wf(),
            final(self).spec_capacity() == old(self).spec_capacity(),
            accepted == (total_bytes(old(self)@) + record@.len()
                <= old(self).spec_capacity()),
            accepted ==> final(self)@ == old(self)@.push(record@),
            !accepted ==> final(self)@ == old(self)@,
    {
        if record.len() <= self.capacity - self.used {
            proof {
                assert(total_bytes(self@.push(record@)) == total_bytes(self@)
                    + record@.len()) by {
                    assert(self@.push(record@).drop_last() =~= self@);
                }
            }
            let ghost pre = self@;
            self.used = self.used + record.len();
            self.records.push(record);
            proof {
                assert(self@ =~= pre.push(record@));
            }
            true
        } else {
            false
        }
    }

    /// Removes and returns every queued record, oldest first, leaving the
    /// channel empty.
    pub fn drain(&mut self) -> (r: Vec<Vec<u8>>)
        requires
            old(self).wf(),
        ensures
            final(self).wf(),
            final(self).spec_capacity() == old(self).spec_capacity(),
            r@.map_values(|b: Vec<u8>| b@) == old(self)@,
            final(self)@ == Seq::<Seq<u8>>::empty(),
    {
        let mut out: Vec<Vec<u8>> = Vec::new();
        core::mem::swap(&mut out, &mut self.records);
        self.used = 0;
        proof {
            assert(self@ =~= Seq::<Seq<u8>>::empty());
        }
        out
    }
}

} // verus!
