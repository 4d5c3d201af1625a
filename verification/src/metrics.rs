//! Per-region activity counters.
use vstd::prelude::*;

verus! {

/// Counters of one region; each wraps around at sixty-four bits.
#[derive(Debug, Clone, Copy, PartialEq, Eq, Structural)]
pub struct RegionMetrics {
    pub allocations: u64,
    pub bytes_allocated: u64,
    pub bytes_read: u64,
    pub bytes_written: u64,
    pub faults: u64,
    pub promotions: u64,
    pub demotions: u64,
}

/// The counters at one moment.
#[derive(Clone, Copy, Debug, PartialEq, Eq, Structural)]
pub struct MetricsSnapshot {
    pub allocations: u64,
    pub bytes_allocated: u64,
    pub bytes_read: u64,
    pub bytes_written: u64,
    pub faults: u64,
    pub promotions: u64,
    pub demotions: u64,
}

/// Addition of counters, modulo 2^64.
pub open spec fn bumped(counter: u64, by: u64) -> u64 {
    vstd::wrapping::u64_specs::wrapping_add(counter, by)
}

/// All counters at zero.
pub open spec fn zero_metrics() -> RegionMetrics {
    RegionMetrics {
        allocations: 0,
        bytes_allocated: 0,
        bytes_read: 0,
        bytes_written: 0,
        faults: 0,
        promotions: 0,
        demotions: 0,
    }
}

impl Default for RegionMetrics {
    fn default() -> (r: Self)
        ensures
            r == zero_metrics(),
    {
        RegionMetrics {
            allocations: 0,
            bytes_allocated: 0,
            bytes_read: 0,
            bytes_written: 0,
            faults: 0,
            promotions: 0,
            demotions: 0,
        }
    }
}

impl RegionMetrics {
    /// The counters after an allocation of `bytes` bytes.
    pub open spec fn after_alloc(self, bytes: u64) -> RegionMetrics {
        RegionMetrics {
            allocations: bumped(self.allocations, 1),
            bytes_allocated: bumped(self.bytes_allocated, bytes),
            ..self
        }
    }

    /// The counters after a read of `bytes` bytes.
    pub open spec fn after_read(self, bytes: u64) -> RegionMetrics {
        RegionMetrics { bytes_read: bumped(self.bytes_read, bytes), ..self }
    }

    /// The counters after a write of `bytes` bytes.
    pub open spec fn after_write(self, bytes: u64) -> RegionMetrics {
        RegionMetrics { bytes_written: bumped(self.bytes_written, bytes), ..self }
    }

    /// The counters after a fault.
    pub open spec fn after_fault(self) -> RegionMetrics {
        RegionMetrics { faults: bumped(self.faults, 1), ..self }
    }

    /// The counters after a promotion.
    pub open spec fn after_promotion(self) -> RegionMetrics {
        RegionMetrics { promotions: bumped(self.promotions, 1), ..self }
    }

    /// The counters after a demotion.
    pub open spec fn after_demotion(self) -> RegionMetrics {
        RegionMetrics { demotions: bumped(self.demotions, 1), ..self }
    }

    pub fn record_alloc(&mut self, bytes: u64)
        ensures
            *final(self) == old(self).after_alloc(bytes),
    {
        self.allocations = self.allocations.wrapping_add(1);
        self.bytes_allocated = self.bytes_allocated.wrapping_add(bytes);
    }

    pub fn record_read(&mut self, bytes: u64)
        ensures
            *final(self) == old(self).after_read(bytes),
    {
        self.bytes_read = self.bytes_read.wrapping_add(bytes);
    }

    pub fn record_write(&mut self, bytes: u64)
        ensures
            *final(self) == old(self).after_write(bytes),
    {
        self.bytes_written = self.bytes_written.wrapping_add(bytes);
    }

    pub fn record_fault(&mut self)
        ensures
            *final(self) == old(self).after_fault(),
    {
        self.faults = self.faults.wrapping_add(1);
    }

    pub fn record_promotion(&mut self)
        ensures
            *final(self) == old(self).after_promotion(),
    {
        self.promotions = self.promotions.wrapping_add(1);
    }

    pub fn record_demotion(&mut self)
        ensures
            *final(self) == old(self).after_demotion(),
    {
        self.demotions = self.demotions.wrapping_add(1);
    }

    /// The counters as a plain value.
    pub open spec fn shown(self) -> MetricsSnapshot {
        MetricsSnapshot {
            allocations: self.allocations,
            bytes_allocated: self.bytes_allocated,
            bytes_read: self.bytes_read,
            bytes_written: self.bytes_written,
            faults: self.faults,
            promotions: self.promotions,
            demotions: self.demotions,
        }
    }

    pub fn snapshot(&self) -> (r: MetricsSnapshot)
        ensures
            r == self.shown(),
    {
        MetricsSnapshot {
            allocations: self.allocations,
            bytes_allocated: self.bytes_allocated,
            bytes_read: self.bytes_read,
            bytes_written: self.bytes_written,
            faults: self.faults,
            promotions: self.promotions,
            demotions: self.demotions,
        }
    }
}

impl Default for MetricsSnapshot {
    fn default() -> (r: Self)
        ensures
            r == zero_metrics().shown(),
    {
        RegionMetrics::default().snapshot()
    }
}

} // verus!
