//! Which looks of the player were shown, and which of them the simulation knows.

use vstd::prelude::*;

verus! {

/// What a new sample of the simulation does to the shown look.
#[derive(Clone, Copy, Debug, PartialEq, Eq, Structural)]
pub enum LookAction {
    /// The shown look is kept.
    Keep,
    /// The shown look is that of the sample.
    Adopt,
    /// The shown look is that of the sample, with what was shown since it.
    Rebase,
}

/// The numbers of the last look that was shown, and of the last that the
/// simulation took into account.
#[derive(Clone, Copy, Debug, PartialEq, Eq, Structural)]
pub struct LookTracker {
    pub produced: u64,
    pub acknowledged: u64,
}

pub open spec fn greater(a: u64, b: u64) -> u64 {
    if a >= b {
        a
    } else {
        b
    }
}

/// The numbers once a sample of the simulation is known, and what becomes of the shown
/// look.
pub open spec fn applied(tracker: LookTracker, sequence: u64, discontinuity: bool) -> (
    LookTracker,
    LookAction,
) {
    (
        LookTracker {
            produced: greater(tracker.produced, sequence),
            acknowledged: greater(tracker.acknowledged, sequence),
        },
        if discontinuity {
            LookAction::Rebase
        } else if sequence > tracker.produced {
            LookAction::Adopt
        } else {
            LookAction::Keep
        },
    )
}

/// The numbers once a look was offered to be shown early, and whether it is shown.
pub open spec fn previewed(tracker: LookTracker, sequence: u64, finite: bool) -> (
    LookTracker,
    bool,
) {
    if finite && sequence > tracker.produced {
        (LookTracker { produced: sequence, ..tracker }, true)
    } else {
        (tracker, false)
    }
}

impl LookTracker {
    /// The simulation knows no look that was not shown.
    pub open spec fn well_formed(self) -> bool {
        self.acknowledged <= self.produced
    }

    pub fn new(sequence: u64) -> (tracker: Self)
        ensures
            tracker.well_formed(),
            tracker.produced == sequence,
            tracker.acknowledged == sequence,
    {
        LookTracker { produced: sequence, acknowledged: sequence }
    }

    /// Takes a sample of the simulation. A jump rebases the shown look. Otherwise
    /// the look of the sample is taken only where it is newer than all that were
    /// shown.
    pub fn apply(&mut self, sequence: u64, discontinuity: bool) -> (action: LookAction)
        requires
            old(self).well_formed(),
        ensures
            final(self).well_formed(),
            (*final(self), action) == applied(*old(self), sequence, discontinuity),
            action == (if discontinuity {
                LookAction::Rebase
            } else if sequence > old(self).produced {
                LookAction::Adopt
            } else {
                LookAction::Keep
            }),
            final(self).produced == greater(old(self).produced, sequence),
            final(self).acknowledged == greater(old(self).acknowledged, sequence),
    {
        let newer: bool = sequence > self.produced;
        if newer {
            self.produced = sequence;
        }
        if sequence >= self.acknowledged {
            self.acknowledged = sequence;
        }
        if discontinuity {
            LookAction::Rebase
        } else if newer {
            LookAction::Adopt
        } else {
            LookAction::Keep
        }
    }

    /// Whether a look is shown before the simulation knows it: where it is new and
    /// its angles are finite.
    pub fn preview(&mut self, sequence: u64, finite: bool) -> (shown: bool)
        requires
            old(self).well_formed(),
        ensures
            final(self).well_formed(),
            (*final(self), shown) == previewed(*old(self), sequence, finite),
            shown == (finite && sequence > old(self).produced),
            final(self).acknowledged == old(self).acknowledged,
            final(self).produced == (if shown {
                sequence
            } else {
                old(self).produced
            }),
    {
        if finite && sequence > self.produced {
            self.produced = sequence;
            true
        } else {
            false
        }
    }
}

/// A look is shown early once only: not a second time, and not behind a later one.
pub proof fn lemma_looks_are_shown_once(
    tracker: LookTracker,
    first: u64,
    second: u64,
)
    requires
        tracker.well_formed(),
    ensures
        ({
            let (after, shown) = previewed(tracker, first, true);
            let (_, again) = previewed(after, second, true);
            &&& shown <==> first > tracker.produced
            &&& shown ==> (again <==> second > first)
            &&& !shown ==> after == tracker
            &&& after.acknowledged == tracker.acknowledged
            &&& after.well_formed()
            &&& previewed(tracker, first, false) == (tracker, false)
        }),
{
}

/// A look that was shown early is kept when the simulation comes to know it or an older
/// one, and given up for a newer one. A jump is always followed.
pub proof fn lemma_shown_looks_are_kept(tracker: LookTracker, shown: u64, sample: u64)
    requires
        tracker.well_formed(),
        shown > tracker.produced,
    ensures
        ({
            let early = previewed(tracker, shown, true).0;
            let (after, action) = applied(early, sample, false);
            &&& early.produced == shown
            &&& sample <= shown ==> action == LookAction::Keep && after.produced == shown
            &&& sample > shown ==> action == LookAction::Adopt && after.produced == sample
            &&& applied(early, sample, true).1 == LookAction::Rebase
            &&& applied(early, sample, true).0 == after
            &&& after.well_formed()
        }),
{
}

/// What the simulation knows never goes back, and no sample that it gave is forgotten.
pub proof fn lemma_knowledge_grows(tracker: LookTracker, sample: u64, discontinuity: bool)
    requires
        tracker.well_formed(),
    ensures
        ({
            let after = applied(tracker, sample, discontinuity).0;
            &&& after.acknowledged >= tracker.acknowledged && after.acknowledged >= sample
            &&& after.acknowledged == tracker.acknowledged || after.acknowledged == sample
            &&& after.produced >= tracker.produced && after.produced >= sample
            &&& after.produced == tracker.produced || after.produced == sample
        }),
{
}

} // verus!
