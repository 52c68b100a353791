//! The system-wide colour matrix of the compositor, and the controller that
//! decides which matrix is shown.

use vstd::prelude::*;
use crate::error::{DisplayError, Rejected};
use crate::fixed::{clamp_unit, unit, ONE};

verus! {

/// A 5x5 colour transform over the vectors `[R, G, B, A, 1]`, row-major, its
/// entries fractions in millionths. The diagonal scales a channel, the bottom
/// row adds to it.
#[derive(Clone, Copy, Debug, PartialEq, Eq)]
pub struct MagColorEffect {
    pub transform: [[i32; 5]; 5],
}

/// The entry at `row` and `column` of the matrix that scales red, green and
/// blue by `scale`, adds `offset` to each of them and leaves alpha alone.
pub open spec fn gain_bias_entry(scale: int, offset: int, row: int, column: int) -> int {
    if row == column {
        if row < 3 {
            scale
        } else {
            ONE as int
        }
    } else if row == 4 && column < 3 {
        offset
    } else {
        0
    }
}

/// The bias of the shadow-lift matrix: half of the intensity.
pub open spec fn lift_offset(intensity: int) -> int {
    unit(intensity) / 2
}

/// The gain of the shadow-lift matrix: what the bias leaves of one.
pub open spec fn lift_scale(intensity: int) -> int {
    ONE - lift_offset(intensity)
}

/// The gain of the dimming matrix: one less three tenths of the intensity.
pub open spec fn dim_scale(intensity: int) -> int {
    ONE - unit(intensity) * 3 / 10
}

impl MagColorEffect {
    /// The entry at `row` and `column`.
    pub open spec fn entry(&self, row: int, column: int) -> int {
        self.transform@[row]@[column] as int
    }

    /// The matrix scales the colour channels by `scale` and adds `offset` to
    /// them; alpha passes through.
    pub open spec fn is_gain_and_bias(&self, scale: int, offset: int) -> bool {
        forall|row: int, column: int|
            0 <= row < 5 && 0 <= column < 5 ==> #[trigger] self.entry(row, column)
                == gain_bias_entry(scale, offset, row, column)
    }

    /// The alpha row is `[0, 0, 0, 1, 0]`.
    pub open spec fn keeps_alpha(&self) -> bool {
        &&& self.entry(3, 0) == 0
        &&& self.entry(3, 1) == 0
        &&& self.entry(3, 2) == 0
        &&& self.entry(3, 3) == ONE
        &&& self.entry(3, 4) == 0
    }

    fn gain_and_bias(scale: i32, offset: i32) -> (effect: Self)
        ensures
            effect.is_gain_and_bias(scale as int, offset as int),
            effect.keeps_alpha(),
    {
        let effect = MagColorEffect {
            transform: [
                [scale, 0, 0, 0, 0],
                [0, scale, 0, 0, 0],
                [0, 0, scale, 0, 0],
                [0, 0, 0, ONE, 0],
                [offset, offset, offset, 0, ONE],
            ],
        };
        effect
    }

    /// The matrix that changes nothing.
    pub fn identity() -> (effect: Self)
        ensures
            effect.is_gain_and_bias(ONE as int, 0),
            effect.keeps_alpha(),
    {
        Self::gain_and_bias(ONE, 0)
    }

    /// The shadow-lift matrix, `output = offset + input * scale`: it raises
    /// black by half of `intensity` and leaves white where it is.
    ///
    /// `intensity` is held to the unit interval. Gain and bias always add up
    /// to one.
    pub fn shadow_lift(intensity: i32) -> (effect: Self)
        ensures
            effect.is_gain_and_bias(lift_scale(intensity as int), lift_offset(intensity as int)),
            effect.keeps_alpha(),
            forall|channel: int|
                0 <= channel < 3 ==> #[trigger] effect.entry(channel, channel) + effect.entry(
                    4,
                    channel,
                ) == ONE,
    {
        let offset: i32 = clamp_unit(intensity) / 2;
        let scale: i32 = ONE - offset;
        let effect = Self::gain_and_bias(scale, offset);
        assert forall|channel: int| 0 <= channel < 3 implies #[trigger] effect.entry(
            channel,
            channel,
        ) + effect.entry(4, channel) == ONE by {
            assert(effect.entry(4, channel) == gain_bias_entry(
                scale as int,
                offset as int,
                4,
                channel,
            ));
        }
        effect
    }

    /// The dimming matrix, `output = input * scale`: it takes up to three
    /// tenths off every colour channel.
    ///
    /// `intensity` is held to the unit interval.
    pub fn dim(intensity: i32) -> (effect: Self)
        ensures
            effect.is_gain_and_bias(dim_scale(intensity as int), 0),
            effect.keeps_alpha(),
    {
        let scale: i32 = ONE - clamp_unit(intensity) * 3 / 10;
        Self::gain_and_bias(scale, 0)
    }
}

impl Default for MagColorEffect {
    /// The identity matrix.
    fn default() -> (effect: Self)
        ensures
            effect.is_gain_and_bias(ONE as int, 0),
            effect.keeps_alpha(),
    {
        Self::gain_and_bias(ONE, 0)
    }
}

/// Below this brightness a scene counts as dark.
pub const DARK_THRESHOLD: i32 = 400_000;

/// What the compositor shows.
#[derive(Clone, Copy, Debug, PartialEq, Eq, Structural)]
pub enum Adjustment {
    /// The picture as it is.
    Normal,
    /// Shadows lifted by `intensity`, a fraction of the unit interval.
    NightVision { intensity: i32 },
    /// Everything dimmed by `intensity`, a fraction of the unit interval.
    Dimmed { intensity: i32 },
}

/// How far the shadows are lifted at a brightness under the threshold:
/// `(threshold - brightness) / threshold`, from nothing at the threshold to
/// all at black.
pub open spec fn lift_intensity(brightness: int) -> int {
    (DARK_THRESHOLD - brightness) * ONE / (DARK_THRESHOLD as int)
}

/// The adjustment that a brightness sample calls for.
pub open spec fn smart_adjustment_for(brightness: int) -> Adjustment {
    if brightness < DARK_THRESHOLD {
        Adjustment::NightVision { intensity: unit(lift_intensity(brightness)) as i32 }
    } else {
        Adjustment::Normal
    }
}

/// Decides from a brightness sample what to show: a dark scene has its shadows
/// lifted, the more the darker it is; any other scene is left alone.
pub fn smart_adjustment(brightness: i32) -> (adjustment: Adjustment)
    ensures
        adjustment == smart_adjustment_for(brightness as int),
        brightness >= DARK_THRESHOLD <==> adjustment == Adjustment::Normal,
        brightness < DARK_THRESHOLD ==> (adjustment matches Adjustment::NightVision { intensity }
            && 0 < intensity <= ONE),
{
    if brightness < DARK_THRESHOLD {
        let lift: i64 = (DARK_THRESHOLD as i64 - brightness as i64) * (ONE as i64)
            / (DARK_THRESHOLD as i64);
        let intensity: i32 = if lift > ONE as i64 {
            ONE
        } else {
            lift as i32
        };
        Adjustment::NightVision { intensity }
    } else {
        Adjustment::Normal
    }
}

impl Adjustment {
    /// The colour matrix that shows this adjustment.
    pub fn effect(&self) -> (effect: MagColorEffect)
        ensures
            effect.keeps_alpha(),
            match *self {
                Adjustment::Normal => effect.is_gain_and_bias(ONE as int, 0),
                Adjustment::NightVision { intensity } => effect.is_gain_and_bias(
                    lift_scale(intensity as int),
                    lift_offset(intensity as int),
                ),
                Adjustment::Dimmed { intensity } => effect.is_gain_and_bias(
                    dim_scale(intensity as int),
                    0,
                ),
            },
    {
        match *self {
            Adjustment::Normal => MagColorEffect::identity(),
            Adjustment::NightVision { intensity } => MagColorEffect::shadow_lift(intensity),
            Adjustment::Dimmed { intensity } => MagColorEffect::dim(intensity),
        }
    }
}

/// A call into the compositor that the host has to make.
#[derive(Clone, Copy, Debug, PartialEq, Eq, Structural)]
pub enum CompositorCall {
    /// Start the compositor's colour subsystem.
    Initialize,
    /// Set the full-screen transform to no zoom and no offset.
    ResetTransform,
    /// Show the colour matrix of this adjustment.
    SetColorEffect(Adjustment),
}

/// How a call into the compositor went.
#[derive(Clone, Copy, Debug, PartialEq, Eq, Structural)]
pub enum Outcome {
    Succeeded,
    /// The call failed; `code` is the platform's diagnostic code.
    Failed { code: u32 },
}

/// What comes next in an operation of the controller.
#[derive(Clone, Copy, Debug, PartialEq, Eq, Structural)]
pub enum Step {
    /// The host makes this call and reports its outcome to `advance`.
    Perform(CompositorCall),
    /// The operation is over and did what it was to do.
    Done,
    /// The operation is over: it failed.
    Failed(DisplayError),
}

/// Where an operation of the controller stands.
#[derive(Clone, Copy, Debug, PartialEq, Eq, Structural)]
pub enum Phase {
    /// No operation is under way.
    Idle,
    /// `Initialize` has been asked for.
    Initializing,
    /// `ResetTransform` has been asked for.
    ResettingTransform,
    /// `SetColorEffect` has been asked for.
    Applying,
}

/// The controller of the compositor's colour effect.
///
/// It remembers whether the compositor's colour subsystem has been started,
/// which happens once, and what is being shown.
#[derive(Clone, Copy, Debug, PartialEq, Eq, Structural)]
pub struct Magnifier {
    /// The colour subsystem has been started and its transform reset.
    pub initialized: bool,
    /// What the compositor was last made to show.
    pub active: Adjustment,
    /// Where the operation under way stands.
    pub phase: Phase,
    /// What the operation under way is to show, if anything.
    pub target: Option<Adjustment>,
}

/// The state and the first step of an operation that is to show `target`, or,
/// without a target, only to start the colour subsystem.
pub open spec fn begun(state: Magnifier, target: Option<Adjustment>) -> (Magnifier, Step) {
    if !state.initialized {
        (
            Magnifier { phase: Phase::Initializing, target, ..state },
            Step::Perform(CompositorCall::Initialize),
        )
    } else {
        match target {
            Some(adjustment) => (
                Magnifier { phase: Phase::Applying, target, ..state },
                Step::Perform(CompositorCall::SetColorEffect(adjustment)),
            ),
            None => (Magnifier { phase: Phase::Idle, target, ..state }, Step::Done),
        }
    }
}

/// The failure to report when the call of `phase` fails with `code`.
pub open spec fn rejection(phase: Phase, code: u32) -> DisplayError {
    match phase {
        Phase::Initializing => DisplayError::ApplyRejected {
            what: Rejected::CompositorInit,
            code: None,
        },
        Phase::ResettingTransform => DisplayError::ApplyRejected {
            what: Rejected::FullscreenTransform,
            code: None,
        },
        _ => DisplayError::ApplyRejected { what: Rejected::ColorEffect, code: Some(code) },
    }
}

/// The state and the next step once the call that was asked for has come back
/// with `outcome`.
pub open spec fn advanced(state: Magnifier, outcome: Outcome) -> (Magnifier, Step) {
    match state.phase {
        Phase::Idle => (state, Step::Done),
        _ => match outcome {
            Outcome::Failed { code } => (
                Magnifier { phase: Phase::Idle, ..state },
                Step::Failed(rejection(state.phase, code)),
            ),
            Outcome::Succeeded => match state.phase {
                Phase::Initializing => (
                    Magnifier { phase: Phase::ResettingTransform, ..state },
                    Step::Perform(CompositorCall::ResetTransform),
                ),
                Phase::ResettingTransform => begun(
                    Magnifier { initialized: true, ..state },
                    state.target,
                ),
                _ => (
                    Magnifier {
                        phase: Phase::Idle,
                        active: match state.target {
                            Some(adjustment) => adjustment,
                            None => state.active,
                        },
                        ..state
                    },
                    Step::Done,
                ),
            },
        },
    }
}

impl Magnifier {
    /// The controller of a fresh process: nothing started, nothing shown.
    pub fn new() -> (magnifier: Self)
        ensures
            magnifier == (Magnifier {
                initialized: false,
                active: Adjustment::Normal,
                phase: Phase::Idle,
                target: None,
            }),
    {
        Magnifier {
            initialized: false,
            active: Adjustment::Normal,
            phase: Phase::Idle,
            target: None,
        }
    }

    fn begin(&mut self, target: Option<Adjustment>) -> (step: Step)
        ensures
            (*final(self), step) == begun(*old(self), target),
    {
        self.target = target;
        if !self.initialized {
            self.phase = Phase::Initializing;
            Step::Perform(CompositorCall::Initialize)
        } else {
            match target {
                Some(adjustment) => {
                    self.phase = Phase::Applying;
                    Step::Perform(CompositorCall::SetColorEffect(adjustment))
                },
                None => {
                    self.phase = Phase::Idle;
                    Step::Done
                },
            }
        }
    }
}

/// Starts the compositor's colour subsystem, unless it has been started.
pub fn init(magnifier: &mut Magnifier) -> (step: Step)
    ensures
        (*final(magnifier), step) == begun(*old(magnifier), None),
        old(magnifier).initialized ==> step == Step::Done,
{
    magnifier.begin(None)
}

/// Begins to show `target` on the whole screen. The colour subsystem is
/// started first where it has not been.
pub fn set_color_effect(magnifier: &mut Magnifier, target: Adjustment) -> (step: Step)
    ensures
        (*final(magnifier), step) == begun(*old(magnifier), Some(target)),
        old(magnifier).initialized ==> step == Step::Perform(
            CompositorCall::SetColorEffect(target),
        ),
{
    magnifier.begin(Some(target))
}

/// Begins to lift the shadows by `intensity`, which is held to the unit
/// interval.
pub fn apply_shadow_lift(magnifier: &mut Magnifier, intensity: i32) -> (step: Step)
    ensures
        (*final(magnifier), step) == begun(
            *old(magnifier),
            Some(Adjustment::NightVision { intensity: unit(intensity as int) as i32 }),
        ),
{
    magnifier.begin(Some(Adjustment::NightVision { intensity: clamp_unit(intensity) }))
}

/// Begins to dim the screen by `intensity`, which is held to the unit
/// interval.
pub fn apply_dim(magnifier: &mut Magnifier, intensity: i32) -> (step: Step)
    ensures
        (*final(magnifier), step) == begun(
            *old(magnifier),
            Some(Adjustment::Dimmed { intensity: unit(intensity as int) as i32 }),
        ),
{
    magnifier.begin(Some(Adjustment::Dimmed { intensity: clamp_unit(intensity) }))
}

/// Begins to take every colour effect off the screen.
pub fn remove_effects(magnifier: &mut Magnifier) -> (step: Step)
    ensures
        (*final(magnifier), step) == begun(*old(magnifier), Some(Adjustment::Normal)),
{
    magnifier.begin(Some(Adjustment::Normal))
}

/// Begins to show what a brightness sample calls for: lifted shadows over a
/// dark scene, the plain picture otherwise.
pub fn apply_smart_adjustment(magnifier: &mut Magnifier, brightness: i32) -> (step: Step)
    ensures
        (*final(magnifier), step) == begun(
            *old(magnifier),
            Some(smart_adjustment_for(brightness as int)),
        ),
{
    magnifier.begin(Some(smart_adjustment(brightness)))
}

/// Takes the outcome of the call that the last step asked for and says what
/// comes next.
///
/// A failure ends the operation with `ApplyRejected` and changes neither what
/// is shown nor whether the subsystem counts as started. The subsystem counts
/// as started once both `Initialize` and `ResetTransform` have succeeded. A
/// successful `SetColorEffect` makes the target what is shown.
pub fn advance(magnifier: &mut Magnifier, outcome: Outcome) -> (step: Step)
    ensures
        (*final(magnifier), step) == advanced(*old(magnifier), outcome),
{
    match magnifier.phase {
        Phase::Idle => Step::Done,
        Phase::Initializing => match outcome {
            Outcome::Failed { .. } => {
                magnifier.phase = Phase::Idle;
                Step::Failed(
                    DisplayError::ApplyRejected { what: Rejected::CompositorInit, code: None },
                )
            },
            Outcome::Succeeded => {
                magnifier.phase = Phase::ResettingTransform;
                Step::Perform(CompositorCall::ResetTransform)
            },
        },
        Phase::ResettingTransform => match outcome {
            Outcome::Failed { .. } => {
                magnifier.phase = Phase::Idle;
                Step::Failed(
                    DisplayError::ApplyRejected { what: Rejected::FullscreenTransform, code: None },
                )
            },
            Outcome::Succeeded => {
                magnifier.initialized = true;
                let target = magnifier.target;
                magnifier.begin(target)
            },
        },
        Phase::Applying => match outcome {
            Outcome::Failed { code } => {
                magnifier.phase = Phase::Idle;
                Step::Failed(
                    DisplayError::ApplyRejected { what: Rejected::ColorEffect, code: Some(code) },
                )
            },
            Outcome::Succeeded => {
                magnifier.phase = Phase::Idle;
                if let Some(adjustment) = magnifier.target {
                    magnifier.active = adjustment;
                }
                Step::Done
            },
        },
    }
}

/// Once the colour subsystem has been started it stays started, and no step
/// asks to start it again.
pub proof fn starts_once(state: Magnifier, target: Option<Adjustment>, outcome: Outcome)
    requires
        state.initialized,
    ensures
        begun(state, target).0.initialized,
        begun(state, target).1 != Step::Perform(CompositorCall::Initialize),
        advanced(state, outcome).0.initialized,
        advanced(state, outcome).1 != Step::Perform(CompositorCall::Initialize),
{
}

/// With a compositor that takes every call, showing `target` ends well and
/// `target` is what is shown, whatever was shown before.
pub proof fn shows_target(state: Magnifier, target: Adjustment)
    ensures
        ({
            let (first, _) = begun(state, Some(target));
            let (second, _) = advanced(first, Outcome::Succeeded);
            let (third, _) = advanced(second, Outcome::Succeeded);
            let (last, _) = advanced(third, Outcome::Succeeded);
            &&& last.initialized
            &&& last.active == target
            &&& last.phase == Phase::Idle
            &&& state.initialized ==> advanced(first, Outcome::Succeeded) == (
                last,
                Step::Done,
            )
        }),
{
}

/// A call that fails ends the operation with `ApplyRejected`, and leaves what
/// is shown as it was.
pub proof fn failure_changes_nothing(state: Magnifier, code: u32)
    requires
        state.phase != Phase::Idle,
    ensures
        ({
            let (after, step) = advanced(state, Outcome::Failed { code });
            &&& step matches Step::Failed(DisplayError::ApplyRejected { .. })
            &&& after.active == state.active
            &&& after.initialized == state.initialized
            &&& after.phase == Phase::Idle
        }),
{
}

} // verus!
