//! The ordered batch of primitives and its device-visible image.
//!
//! A batch owns the records in draw order. Beside them it keeps the image of
//! the sequence that the device draws from. Editing a record touches the host
//! side only; `sync` copies the whole sequence across, however few records
//! changed, so the cost of a frame grows with the size of the batch.

use crate::record::PrimitiveRecord;
use vstd::prelude::*;

verus! {

/// An ordered, editable sequence of records with its device-visible image.
pub struct PrimitiveBatch {
    records: Vec<PrimitiveRecord>,
    device: Vec<PrimitiveRecord>,
}

impl View for PrimitiveBatch {
    type V = Seq<PrimitiveRecord>;

    /// The records in draw order, as the host sees them.
    closed spec fn view(&self) -> Seq<PrimitiveRecord> {
        self.records@
    }
}

/// A copy of a sequence of records.
fn copy_records(source: &Vec<PrimitiveRecord>) -> (copy: Vec<PrimitiveRecord>)
    ensures
        copy@ == source@,
{
    let mut copy: Vec<PrimitiveRecord> = Vec::new();
    let mut i: usize = 0;
    while i < source.len()
        invariant
            i <= source.len(),
            copy@ == source@.take(i as int),
        decreases source.len() - i,
    {
        let record: PrimitiveRecord = source[i];
        copy.push(record);
        i = i + 1;
        assert(source@.take(i as int) == source@.take(i - 1).push(source@[i - 1]));
    }
    assert(source@.take(source.len() as int) == source@);
    copy
}

impl PrimitiveBatch {
    /// The records as the device last received them.
    pub closed spec fn device_view(&self) -> Seq<PrimitiveRecord> {
        self.device@
    }

    /// The device draws exactly what the host holds.
    pub open spec fn in_sync(&self) -> bool {
        self.device_view() == self@
    }

    /// A batch of the given records, in their order, already on the device.
    pub fn create(initial_records: Vec<PrimitiveRecord>) -> (batch: Self)
        ensures
            batch@ == initial_records@,
            batch.in_sync(),
    {
        let device: Vec<PrimitiveRecord> = copy_records(&initial_records);
        PrimitiveBatch { records: initial_records, device }
    }

    /// The number of records.
    pub fn len(&self) -> (n: usize)
        ensures
            n == self@.len(),
    {
        self.records.len()
    }

    /// The record at `index`, if there is one.
    pub fn get(&self, index: usize) -> (r: Option<PrimitiveRecord>)
        ensures
            index < self@.len() ==> r == Some(self@[index as int]),
            index >= self@.len() ==> r is None,
    {
        if index < self.records.len() {
            Some(self.records[index])
        } else {
            None
        }
    }

    /// A handle for editing the record at `index` in place.
    ///
    /// Whatever is written through the handle replaces that one record; every
    /// other record, the order, and the device image stay as they are.
    pub fn mutable_ref(&mut self, index: usize) -> (r: &mut PrimitiveRecord)
        requires
            index < old(self)@.len(),
        ensures
            *r == old(self)@[index as int],
            final(self)@ == old(self)@.update(index as int, *final(r)),
            final(self).device_view() == old(self).device_view(),
    {
        &mut self.records[index]
    }

    /// Pushes the full record sequence to the device image.
    pub fn sync(&mut self)
        ensures
            final(self)@ == old(self)@,
            final(self).device_view() == old(self)@,
            final(self).in_sync(),
    {
        self.device = copy_records(&self.records);
    }

    /// The records that the device draws, in draw order.
    pub fn device_records(&self) -> (d: &Vec<PrimitiveRecord>)
        ensures
            d@ == self.device_view(),
    {
        &self.device
    }
}

} // verus!
