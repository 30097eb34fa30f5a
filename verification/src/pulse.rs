//! The pulse of a label: the one animation that the engine ever asks for.
//!
//! The engine does not run animations. It describes the pulse as a short
//! list of steps, and whoever animates the labels carries them out.

use vstd::prelude::*;
use crate::units::ONE;

verus! {

/// The easing curves that the engine names. Each maps the unit interval onto
/// itself, zero to zero and one to one.
#[derive(Clone, Copy, Debug, PartialEq, Eq, Structural)]
pub enum Curve {
    QuadraticIn,
    QuadraticOut,
    CubicIn,
    ExponentialIn,
    ExponentialInOut,
}

/// One step of an animation.
#[derive(Clone, Copy, Debug, PartialEq, Eq, Structural)]
pub enum Step {
    /// Bring the opacity to `target`, a fraction, within `duration`, eased by
    /// `curve`.
    FadeTo { target: u32, duration: u64, curve: Curve },
    /// Leave the opacity as it is for `duration`.
    Hold { duration: u64 },
}

/// How long each leg of a pulse takes, in the scheduler's unit of time.
#[derive(Clone, Copy, Debug, PartialEq, Eq, Structural)]
pub struct PulseShape {
    pub fade_in: u64,
    pub hold: u64,
    pub fade_out: u64,
}

/// The steps of a pulse: fade in to full opacity, hold, fade out to none. The
/// fade in starts slowly and the fade out ends slowly.
pub open spec fn pulse_steps(shape: PulseShape) -> Seq<Step> {
    seq![
        Step::FadeTo { target: ONE, duration: shape.fade_in, curve: Curve::QuadraticIn },
        Step::Hold { duration: shape.hold },
        Step::FadeTo { target: 0, duration: shape.fade_out, curve: Curve::QuadraticOut },
    ]
}

/// The curve that eases the travel of the highlight along its edge.
pub open spec fn travel_easing() -> Curve {
    Curve::ExponentialInOut
}

/// The steps of a pulse of the given shape.
pub fn pulse_sequence(shape: PulseShape) -> (steps: Vec<Step>)
    ensures
        steps@ == pulse_steps(shape),
{
    let mut steps: Vec<Step> = Vec::new();
    steps.push(Step::FadeTo { target: ONE, duration: shape.fade_in, curve: Curve::QuadraticIn });
    steps.push(Step::Hold { duration: shape.hold });
    steps.push(Step::FadeTo { target: 0, duration: shape.fade_out, curve: Curve::QuadraticOut });
    steps
}

/// The curve that eases the travel of the highlight along its edge.
pub fn travel_curve() -> (curve: Curve)
    ensures
        curve == travel_easing(),
{
    Curve::ExponentialInOut
}

} // verus!
