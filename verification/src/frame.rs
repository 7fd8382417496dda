//! What becomes of a frame, by the state of the surface that it is drawn on.

use vstd::prelude::*;

verus! {

/// What became of a frame.
#[derive(Clone, Copy, Debug, PartialEq, Eq, Structural)]
pub enum FrameStatus {
    /// A frame was submitted and presented.
    Presented,
    /// The surface changed and was recovered for a future frame.
    Reconfigured,
    /// No frame was needed or available, such as while minimized.
    Skipped,
}

/// Why nothing can be drawn any more.
#[derive(Clone, Copy, Debug, PartialEq, Eq, Structural)]
pub enum FrameFailure {
    OutOfMemory,
    SurfaceValidation,
}

/// What the surface gives when a frame is asked for.
#[derive(Clone, Copy, Debug, PartialEq, Eq, Structural)]
pub enum SurfaceState {
    Success,
    Suboptimal,
    Timeout,
    Occluded,
    Outdated,
    Lost,
    Validation,
}

/// What is done for a frame, in this order, and what is reported then.
#[derive(Clone, Copy, Debug, PartialEq, Eq, Structural)]
pub struct FramePlan {
    pub paint: bool,
    pub recreate: bool,
    pub reconfigure: bool,
    pub status: FrameStatus,
}

/// Whether a frame is asked for at all: not where memory is exhausted, and not
/// while the surface has no area.
pub fn begin_frame(out_of_memory: bool, configured: bool) -> (answer: Result<bool, FrameFailure>)
    ensures
        answer == (if out_of_memory {
            Err::<bool, FrameFailure>(FrameFailure::OutOfMemory)
        } else {
            Ok(configured)
        }),
{
    if out_of_memory {
        Err(FrameFailure::OutOfMemory)
    } else {
        Ok(configured)
    }
}

/// Whether the surface holds a frame that can be drawn on.
pub open spec fn is_drawable(state: SurfaceState) -> bool {
    state == SurfaceState::Success || state == SurfaceState::Suboptimal
}

/// Whether the surface has to be set up again.
pub open spec fn is_stale(state: SurfaceState) -> bool {
    state == SurfaceState::Suboptimal || state == SurfaceState::Outdated || state
        == SurfaceState::Lost
}

/// What to do with what the surface gave, where it gave anything that can be gone on
/// with.
pub open spec fn planned(state: SurfaceState) -> Result<FramePlan, FrameFailure> {
    if state == SurfaceState::Validation {
        Err(FrameFailure::SurfaceValidation)
    } else {
        Ok(
            FramePlan {
                paint: is_drawable(state),
                recreate: state == SurfaceState::Lost,
                reconfigure: is_stale(state),
                status: if is_stale(state) {
                    FrameStatus::Reconfigured
                } else if is_drawable(state) {
                    FrameStatus::Presented
                } else {
                    FrameStatus::Skipped
                },
            },
        )
    }
}

/// What to do with what the surface gave.
pub fn plan_frame(state: SurfaceState) -> (result: Result<FramePlan, FrameFailure>)
    ensures
        result == planned(state),
        match result {
            Err(failure) => state == SurfaceState::Validation && failure
                == FrameFailure::SurfaceValidation,
            Ok(plan) => {
                &&& state != SurfaceState::Validation
                &&& plan.paint == is_drawable(state)
                &&& plan.recreate == (state == SurfaceState::Lost)
                &&& plan.reconfigure == is_stale(state)
                &&& plan.status == (if is_stale(state) {
                    FrameStatus::Reconfigured
                } else if is_drawable(state) {
                    FrameStatus::Presented
                } else {
                    FrameStatus::Skipped
                })
            },
        },
{
    match state {
        SurfaceState::Success => Ok(
            FramePlan {
                paint: true,
                recreate: false,
                reconfigure: false,
                status: FrameStatus::Presented,
            },
        ),
        SurfaceState::Suboptimal => Ok(
            FramePlan {
                paint: true,
                recreate: false,
                reconfigure: true,
                status: FrameStatus::Reconfigured,
            },
        ),
        SurfaceState::Timeout => Ok(
            FramePlan {
                paint: false,
                recreate: false,
                reconfigure: false,
                status: FrameStatus::Skipped,
            },
        ),
        SurfaceState::Occluded => Ok(
            FramePlan {
                paint: false,
                recreate: false,
                reconfigure: false,
                status: FrameStatus::Skipped,
            },
        ),
        SurfaceState::Outdated => Ok(
            FramePlan {
                paint: false,
                recreate: false,
                reconfigure: true,
                status: FrameStatus::Reconfigured,
            },
        ),
        SurfaceState::Lost => Ok(
            FramePlan {
                paint: false,
                recreate: true,
                reconfigure: true,
                status: FrameStatus::Reconfigured,
            },
        ),
        SurfaceState::Validation => Err(FrameFailure::SurfaceValidation),
    }
}

/// A frame is painted exactly where the surface gave one, and is reported as presented
/// where nothing but that has to be done. A surface that was lost or does not fit is set
/// up again, a lost one is made anew before, and where the surface has nothing to give
/// the frame is left out.
pub proof fn lemma_frames_are_painted_where_there_is_a_surface(state: SurfaceState)
    ensures
        planned(state) is Err <==> state == SurfaceState::Validation,
        planned(state) matches Ok(plan) ==> {
            &&& plan.paint <==> (state == SurfaceState::Success || state
                == SurfaceState::Suboptimal)
            &&& plan.reconfigure <==> (state == SurfaceState::Suboptimal || state
                == SurfaceState::Outdated || state == SurfaceState::Lost)
            &&& plan.recreate <==> state == SurfaceState::Lost
            &&& plan.status == FrameStatus::Presented <==> plan.paint && !plan.reconfigure
            &&& plan.status == FrameStatus::Skipped <==> (state == SurfaceState::Timeout || state
                == SurfaceState::Occluded)
            &&& plan.status == FrameStatus::Reconfigured <==> plan.reconfigure
            &&& plan.recreate ==> plan.reconfigure && !plan.paint
        },
{
}

} // verus!
