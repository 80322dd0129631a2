//! Allocation counters read at one moment, and cache hit counters.
use vstd::prelude::*;
use super::metrics::sat;

verus! {

/// The allocation counters at one moment.
#[derive(Clone, Copy, Debug, Default)]
pub struct AllocationSnapshot {
    pub alloc_calls: u64,
    pub alloc_zeroed_calls: u64,
    pub alloc_failures: u64,
    pub alloc_zeroed_failures: u64,
    pub alloc_bytes: u64,
    pub alloc_zeroed_bytes: u64,
    pub dealloc_calls: u64,
    pub dealloc_bytes: u64,
    pub realloc_calls: u64,
    pub realloc_failures: u64,
    pub realloc_old_bytes: u64,
    pub realloc_new_bytes: u64,
}

impl AllocationSnapshot {
    /// Successful allocations of every kind, held at `u64::MAX`.
    pub open spec fn spec_allocation_calls(self) -> int {
        sat(sat(self.alloc_calls + self.alloc_zeroed_calls) + self.realloc_calls)
    }

    /// Bytes asked for by successful allocations, held at `u64::MAX`.
    pub open spec fn spec_requested_bytes(self) -> int {
        sat(sat(self.alloc_bytes + self.alloc_zeroed_bytes) + self.realloc_new_bytes)
    }

    /// Bytes given back, held at `u64::MAX`.
    pub open spec fn spec_released_bytes(self) -> int {
        sat(self.dealloc_bytes + self.realloc_old_bytes)
    }

    pub fn allocation_calls(&self) -> (r: u64)
        ensures
            r == self.spec_allocation_calls(),
    {
        self.alloc_calls.saturating_add(self.alloc_zeroed_calls).saturating_add(self.realloc_calls)
    }

    /// Failed allocations of every kind, held at `u64::MAX`.
    pub fn allocation_failures(&self) -> (r: u64)
        ensures
            r == sat(sat(self.alloc_failures + self.alloc_zeroed_failures) + self.realloc_failures),
    {
        self.alloc_failures.saturating_add(self.alloc_zeroed_failures).saturating_add(
            self.realloc_failures,
        )
    }

    pub fn requested_bytes(&self) -> (r: u64)
        ensures
            r == self.spec_requested_bytes(),
    {
        self.alloc_bytes.saturating_add(self.alloc_zeroed_bytes).saturating_add(
            self.realloc_new_bytes,
        )
    }

    pub fn released_bytes(&self) -> (r: u64)
        ensures
            r == self.spec_released_bytes(),
    {
        self.dealloc_bytes.saturating_add(self.realloc_old_bytes)
    }

    /// Bytes requested minus bytes released.
    pub fn net_bytes(&self) -> (r: i128)
        ensures
            r == self.spec_requested_bytes() - self.spec_released_bytes(),
    {
        self.requested_bytes() as i128 - self.released_bytes() as i128
    }
}

/// Hits, misses and size of a cache; the hit and miss counts wrap around.
#[derive(Debug, Default)]
pub struct CacheStats {
    pub hits: u64,
    pub misses: u64,
    pub entries: u64,
}

impl CacheStats {
    pub fn new() -> (r: CacheStats)
        ensures
            r.hits == 0 && r.misses == 0 && r.entries == 0,
    {
        CacheStats { hits: 0, misses: 0, entries: 0 }
    }

    /// Counts one hit.
    pub fn hit(&mut self)
        ensures
            final(self).hits == (old(self).hits + 1) % 0x1_0000_0000_0000_0000,
            final(self).misses == old(self).misses,
            final(self).entries == old(self).entries,
    {
        self.hits = self.hits.wrapping_add(1);
    }

    /// Counts one miss.
    pub fn miss(&mut self)
        ensures
            final(self).misses == (old(self).misses + 1) % 0x1_0000_0000_0000_0000,
            final(self).hits == old(self).hits,
            final(self).entries == old(self).entries,
    {
        self.misses = self.misses.wrapping_add(1);
    }

    /// Sets the number of cached entries.
    pub fn set_entries(&mut self, count: u64)
        ensures
            final(self).entries == count,
            final(self).hits == old(self).hits,
            final(self).misses == old(self).misses,
    {
        self.entries = count;
    }

    /// Zeroes every count.
    pub fn reset(&mut self)
        ensures
            final(self).hits == 0 && final(self).misses == 0 && final(self).entries == 0,
    {
        self.hits = 0;
        self.misses = 0;
        self.entries = 0;
    }
}

} // verus!
