//! Counters of one chunk mesh and of many.

use vstd::prelude::*;

verus! {

/// A span of time: whole seconds and the nanoseconds beyond them.
#[derive(Clone, Copy, Debug, PartialEq, Eq, Structural)]
pub struct CpuTime {
    pub seconds: u64,
    pub nanoseconds: u32,
}

impl CpuTime {
    pub open spec fn well_formed(self) -> bool {
        self.nanoseconds < 1_000_000_000
    }

    pub open spec fn total(self) -> int {
        self.seconds * 1_000_000_000 + self.nanoseconds
    }

    /// The length of the longest span.
    pub open spec fn max_total() -> int {
        u64::MAX as int * 1_000_000_000 + 999_999_999
    }

    /// The longest span.
    pub fn maximum() -> (time: Self)
        ensures
            time.well_formed(),
            time.total() == CpuTime::max_total(),
    {
        CpuTime { seconds: 0xffff_ffff_ffff_ffff, nanoseconds: 999_999_999 }
    }

    pub fn new(seconds: u64, nanoseconds: u32) -> (time: Self)
        requires
            nanoseconds < 1_000_000_000,
        ensures
            time.well_formed(),
            time.total() == seconds * 1_000_000_000 + nanoseconds,
    {
        CpuTime { seconds, nanoseconds }
    }

    /// The sum, or the longest span where the sum is longer.
    pub fn saturating_add(self, other: Self) -> (sum: Self)
        requires
            self.well_formed(),
            other.well_formed(),
        ensures
            sum.well_formed(),
            sum.total() == saturated(self.total() + other.total(), CpuTime::max_total()),
    {
        let mut nanoseconds: u32 = self.nanoseconds + other.nanoseconds;
        let mut carry: u64 = 0;
        if nanoseconds >= 1_000_000_000 {
            nanoseconds = nanoseconds - 1_000_000_000;
            carry = 1;
        }
        match self.seconds.checked_add(other.seconds) {
            Some(partial) => match partial.checked_add(carry) {
                Some(seconds) => CpuTime { seconds, nanoseconds },
                None => CpuTime::maximum(),
            },
            None => CpuTime::maximum(),
        }
    }

    pub fn longer(self, other: Self) -> (time: Self)
        requires
            self.well_formed(),
            other.well_formed(),
        ensures
            time == (if self.total() < other.total() {
                other
            } else {
                self
            }),
    {
        if self.seconds < other.seconds || (self.seconds == other.seconds && self.nanoseconds
            < other.nanoseconds) {
            other
        } else {
            self
        }
    }
}

pub open spec fn saturated(value: int, limit: int) -> int {
    if value <= limit {
        value
    } else {
        limit
    }
}

/// One more, but not beyond the largest counter value.
pub open spec fn bumped(count: u64) -> u64 {
    saturated(count + 1, u64::MAX as int) as u64
}

#[derive(Clone, Copy, Debug, PartialEq, Eq, Structural)]
pub struct MeshStatistics {
    pub positions_visited: u64,
    pub air_skipped: u64,
    pub non_air_blocks: u64,
    pub fully_occluded_fast_rejected: u64,
    pub model_processed: u64,
    pub geometry_emitting: u64,
    pub neighbor_checks: u64,
    pub model_selections: u64,
    pub quads_emitted: u64,
    pub cpu_time: CpuTime,
}

impl MeshStatistics {
    pub open spec fn zero() -> MeshStatistics {
        MeshStatistics {
            positions_visited: 0,
            air_skipped: 0,
            non_air_blocks: 0,
            fully_occluded_fast_rejected: 0,
            model_processed: 0,
            geometry_emitting: 0,
            neighbor_checks: 0,
            model_selections: 0,
            quads_emitted: 0,
            cpu_time: CpuTime { seconds: 0, nanoseconds: 0 },
        }
    }

    pub fn new() -> (statistics: Self)
        ensures
            statistics == MeshStatistics::zero(),
    {
        MeshStatistics {
            positions_visited: 0,
            air_skipped: 0,
            non_air_blocks: 0,
            fully_occluded_fast_rejected: 0,
            model_processed: 0,
            geometry_emitting: 0,
            neighbor_checks: 0,
            model_selections: 0,
            quads_emitted: 0,
            cpu_time: CpuTime { seconds: 0, nanoseconds: 0 },
        }
    }

    /// Every counter is the sum of those of `before` and `more`, or the largest value
    /// where the sum is larger.
    pub open spec fn is_sum(self, before: MeshStatistics, more: MeshStatistics) -> bool {
        &&& self.positions_visited == saturated(
            before.positions_visited + more.positions_visited,
            u64::MAX as int,
        )
        &&& self.air_skipped == saturated(
            before.air_skipped + more.air_skipped,
            u64::MAX as int,
        )
        &&& self.non_air_blocks == saturated(
            before.non_air_blocks + more.non_air_blocks,
            u64::MAX as int,
        )
        &&& self.fully_occluded_fast_rejected == saturated(
            before.fully_occluded_fast_rejected + more.fully_occluded_fast_rejected,
            u64::MAX as int,
        )
        &&& self.model_processed == saturated(
            before.model_processed + more.model_processed,
            u64::MAX as int,
        )
        &&& self.geometry_emitting == saturated(
            before.geometry_emitting + more.geometry_emitting,
            u64::MAX as int,
        )
        &&& self.neighbor_checks == saturated(
            before.neighbor_checks + more.neighbor_checks,
            u64::MAX as int,
        )
        &&& self.model_selections == saturated(
            before.model_selections + more.model_selections,
            u64::MAX as int,
        )
        &&& self.quads_emitted == saturated(
            before.quads_emitted + more.quads_emitted,
            u64::MAX as int,
        )
        &&& self.cpu_time.well_formed()
        &&& self.cpu_time.total() == saturated(
            before.cpu_time.total() + more.cpu_time.total(),
            CpuTime::max_total(),
        )
    }

    /// Adds every counter of `other`; a counter that would overflow stays at
    /// its largest value.
    pub fn accumulate(&mut self, other: Self)
        requires
            old(self).cpu_time.well_formed(),
            other.cpu_time.well_formed(),
        ensures
            final(self).is_sum(*old(self), other),
    {
        self.positions_visited = self.positions_visited.saturating_add(other.positions_visited);
        self.air_skipped = self.air_skipped.saturating_add(other.air_skipped);
        self.non_air_blocks = self.non_air_blocks.saturating_add(other.non_air_blocks);
        self.fully_occluded_fast_rejected = self.fully_occluded_fast_rejected.saturating_add(
            other.fully_occluded_fast_rejected,
        );
        self.model_processed = self.model_processed.saturating_add(other.model_processed);
        self.geometry_emitting = self.geometry_emitting.saturating_add(other.geometry_emitting);
        self.neighbor_checks = self.neighbor_checks.saturating_add(other.neighbor_checks);
        self.model_selections = self.model_selections.saturating_add(other.model_selections);
        self.quads_emitted = self.quads_emitted.saturating_add(other.quads_emitted);
        self.cpu_time = self.cpu_time.saturating_add(other.cpu_time);
    }
}

/// Counts are added, and stay at the largest where the sum would be larger.
pub proof fn lemma_counts_are_added(
    sum: MeshStatistics,
    before: MeshStatistics,
    more: MeshStatistics,
)
    requires
        sum.is_sum(before, more),
    ensures
        before.positions_visited + more.positions_visited <= u64::MAX ==> sum.positions_visited
            - before.positions_visited == more.positions_visited,
        before.air_skipped + more.air_skipped <= u64::MAX ==> sum.air_skipped - before.air_skipped
            == more.air_skipped,
        before.non_air_blocks + more.non_air_blocks <= u64::MAX ==> sum.non_air_blocks
            - before.non_air_blocks == more.non_air_blocks,
        before.fully_occluded_fast_rejected + more.fully_occluded_fast_rejected <= u64::MAX
            ==> sum.fully_occluded_fast_rejected - before.fully_occluded_fast_rejected
            == more.fully_occluded_fast_rejected,
        before.model_processed + more.model_processed <= u64::MAX ==> sum.model_processed
            - before.model_processed == more.model_processed,
        before.geometry_emitting + more.geometry_emitting <= u64::MAX ==> sum.geometry_emitting
            - before.geometry_emitting == more.geometry_emitting,
        before.neighbor_checks + more.neighbor_checks <= u64::MAX ==> sum.neighbor_checks
            - before.neighbor_checks == more.neighbor_checks,
        before.model_selections + more.model_selections <= u64::MAX ==> sum.model_selections
            - before.model_selections == more.model_selections,
        before.quads_emitted + more.quads_emitted <= u64::MAX ==> sum.quads_emitted
            - before.quads_emitted == more.quads_emitted,
        before.cpu_time.total() + more.cpu_time.total() <= CpuTime::max_total()
            ==> sum.cpu_time.total() == before.cpu_time.total() + more.cpu_time.total(),
        sum.quads_emitted >= before.quads_emitted || more.quads_emitted >= before.quads_emitted,
{
}

/// A sum never falls below what was added, and is the largest number only where it is
/// reached.
pub proof fn lemma_sums_stay_within_their_limit(value: int, limit: int)
    ensures
        saturated(value, limit) <= limit,
        value <= limit ==> saturated(value, limit) == value,
        value > limit ==> saturated(value, limit) == limit,
{
}

/// One more is one more, as long as there is room for it.
pub proof fn lemma_one_more_is_counted(count: u64)
    ensures
        count < u64::MAX ==> bumped(count) == count + 1,
        bumped(u64::MAX) == u64::MAX,
{
}

/// A second has a thousand million nanoseconds, and of two spans with as many seconds the
/// one with more nanoseconds is longer.
pub proof fn lemma_time_is_counted_in_nanoseconds(time: CpuTime, other: CpuTime)
    requires
        time.well_formed(),
        other.well_formed(),
    ensures
        time.total() / 1_000_000_000 == time.seconds,
        time.total() % 1_000_000_000 == time.nanoseconds,
        time.total() < other.total() <==> time.seconds < other.seconds || (time.seconds
            == other.seconds && time.nanoseconds < other.nanoseconds),
{
}

/// Nothing is counted at first: what is added to nothing is the sum.
pub proof fn lemma_counting_starts_at_nothing(sum: MeshStatistics, more: MeshStatistics)
    requires
        more.cpu_time.well_formed(),
        sum.is_sum(MeshStatistics::zero(), more),
    ensures
        sum == more,
{
}

} // verus!
