//! The id counter: one durable number that only grows.

use crate::error::{counter_failed, counter_unavailable, Error, ErrorView};
use crate::stable::{
    cell_get, cell_init, cell_into_region, cell_region, cell_set, cell_value, CounterCell, Region,
};
use ic_stable_structures::cell::{InitError, ValueError};
use vstd::prelude::*;

verus! {

/// What the counter holds in a region that held no counter before: no id has
/// been handed out, and the first one is one more than this.
pub const COUNTER_START: u64 = 0;

/// Hands out the ids of books, each larger than every one before it. The
/// counter lives in a region, so it survives a restart.
pub struct IdAllocator {
    cell: CounterCell,
}

impl IdAllocator {
    /// The id that was handed out last, or 0 where none has been yet.
    pub closed spec fn last_id(&self) -> u64 {
        cell_value(self.cell)
    }

    /// The tag of the region that the counter lives in.
    pub closed spec fn region(&self) -> u8 {
        cell_region(self.cell)
    }

    /// Takes the cell that attaching to a region gave as the counter, or
    /// reports that there is none.
    pub fn from_cell(attached: Result<CounterCell, InitError>) -> (allocator: Result<
        IdAllocator,
        Error,
    >)
        ensures
            attached matches Ok(cell) ==> allocator matches Ok(a) && a.last_id() == cell_value(
                cell,
            ) && a.region() == cell_region(cell),
            attached is Err ==> allocator is Err && allocator->Err_0@ == ErrorView::counter_unavailable(),
    {
        match attached {
            Ok(cell) => Ok(IdAllocator { cell }),
            Err(_) => Err(counter_unavailable()),
        }
    }

    /// Attaches to the counter in `region`, or starts one at `COUNTER_START`
    /// where the region holds none.
    pub fn init(region: Region) -> (allocator: Result<IdAllocator, Error>)
        ensures
            allocator matches Ok(a) ==> a.region() == region.tag(),
            allocator matches Err(e) ==> e@ == ErrorView::counter_unavailable(),
    {
        IdAllocator::from_cell(cell_init(region, COUNTER_START))
    }

    /// Lets go of the counter and gives back the region it lives in. What the
    /// counter holds stays in the region.
    pub fn detach(self) -> (region: Region)
        ensures
            region.tag() == self.region(),
    {
        cell_into_region(self.cell)
    }

    /// The id that was handed out last, or 0 where none has been yet.
    pub fn current(&self) -> (id: u64)
        ensures
            id == self.last_id(),
    {
        cell_get(&self.cell)
    }
}

/// The id that follows `current`, unless `current` is the largest number
/// there is.
pub fn id_after(current: u64) -> (next: Option<u64>)
    ensures
        current < u64::MAX ==> next == Some((current + 1) as u64),
        current == u64::MAX ==> next is None,
{
    if current < u64::MAX {
        Some(current + 1)
    } else {
        None
    }
}

/// What asking for an id answers, given the id `next` and what writing it to
/// the counter gave: the id where it was written, and a refusal where not.
pub fn issue(next: u64, written: Result<u64, ValueError>) -> (id: Result<u64, Error>)
    ensures
        written is Ok ==> id == Ok::<u64, Error>(next),
        written is Err ==> id is Err && id->Err_0@ == ErrorView::counter_failed(),
{
    match written {
        Ok(_) => Ok(next),
        Err(_) => Err(counter_failed()),
    }
}

/// Hands out the next id: one more than the last, which the counter then
/// holds. Where the last id is the largest number there is, or the counter
/// cannot be written, this fails and the counter stays as it was.
pub fn generate_unique_id(counter: &mut IdAllocator) -> (id: Result<u64, Error>)
    ensures
        id matches Ok(next) ==> next == old(counter).last_id() + 1 && final(counter).last_id()
            == next,
        id matches Err(e) ==> e@ == ErrorView::counter_failed() && final(counter).last_id() == old(
            counter,
        ).last_id(),
        old(counter).last_id() == u64::MAX ==> id is Err,
        final(counter).region() == old(counter).region(),
{
    match id_after(cell_get(&counter.cell)) {
        Some(next) => {
            let written = cell_set(&mut counter.cell, next);
            issue(next, written)
        },
        None => Err(counter_failed()),
    }
}

} // verus!
