use vstd::prelude::*;
use crate::device::Error;
use crate::regions::{cell_value, CounterCell, RegionHandle};

verus! {

/// The durable id allocator: one persisted `u64`, monotonically
/// non-decreasing, strictly increased by each successful [`Self::next`].
pub struct DurableCounter {
    cell: CounterCell,
}

impl DurableCounter {
    /// The counter's persisted value.
    pub closed spec fn value(&self) -> u64 {
        cell_value(self.cell)
    }

    /// Attaches to the counter persisted in the region; a fresh region
    /// starts the counter at 0. Yields nothing when the region cannot be
    /// opened or written, a fatal initialization error.
    pub fn init(region: RegionHandle) -> (r: Option<DurableCounter>) {
        match CounterCell::init(region, 0) {
            Some(cell) => Some(DurableCounter { cell }),
            None => None,
        }
    }

    /// Non-mutating read of the latest persisted value.
    pub fn current(&self) -> (v: u64)
        ensures
            v == self.value(),
    {
        self.cell.read()
    }

    /// Increments the persisted value by 1 and returns the new value; the
    /// persisted write precedes the return, so an issued value is never
    /// issued again. Fails, leaving the value unchanged, when persisting
    /// fails or the value space is exhausted.
    pub fn next(&mut self) -> (r: Result<u64, Error>)
        ensures
            r matches Ok(v) ==> v == old(self).value() + 1 && final(self).value() == v,
            r is Err ==> r == Err::<u64, Error>(Error::AllocationFailure) && final(self).value()
                == old(self).value(),
            final(self).value() >= old(self).value(),
    {
        let cur = self.cell.read();
        if cur == u64::MAX {
            return Err(Error::AllocationFailure);
        }
        if self.cell.write(cur + 1) {
            Ok(cur + 1)
        } else {
            Err(Error::AllocationFailure)
        }
    }
}

} // verus!
