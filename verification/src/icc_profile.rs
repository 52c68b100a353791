//! The colour-profile strategy: a tabulated tone curve that lifts the shadows,
//! the place of the profile that carries it, and the bookkeeping of whether
//! the profile is associated with a display.

use vstd::prelude::*;
use vstd::string::StringExecFns;
use crate::error::{DisplayError, ProfileStage};
use crate::fixed::{clamp_unit, unit, ONE};
use crate::gamma::{nul_position, utf16_lossy_text, wide_to_string};

verus! {

/// A light shadow lift.
pub const SHADOW_LIFT_LIGHT: i32 = 100_000;

/// A medium shadow lift.
pub const SHADOW_LIFT_MEDIUM: i32 = 150_000;

/// The strongest shadow lift: the black level that intensity one gives.
pub const SHADOW_LIFT_STRONG: i32 = 200_000;

/// File name of the profile.
pub const PROFILE_NAME: &'static str = "NoctisShadowLift.icm";

/// The system directory that is taken where the environment names none.
pub const DEFAULT_SYSTEM_ROOT: &'static str = "C:\\Windows";

/// Entries of the tone curve.
pub const CURVE_ENTRIES: usize = 256;

/// The tone curve's output for input level `i`:
/// `65535 * (offset + i / 255 * (1 - offset))` with `offset = intensity / 5`,
/// rounded down.
pub open spec fn shadow_lift_level(intensity: int, i: int) -> int {
    257 * (255 * intensity + i * (5 * ONE - intensity)) / (5 * ONE)
}

/// The tone curve of `intensity`, a fraction of the unit interval.
pub open spec fn shadow_lift_table(intensity: int) -> Seq<u16> {
    Seq::new(CURVE_ENTRIES as nat, |i: int| shadow_lift_level(intensity, i) as u16)
}

/// The tone curve stays within 16 bits and never falls; it starts at the
/// black level `65535 * intensity / 5` and ends at white.
pub proof fn lemma_shadow_lift_level(intensity: int, i: int, j: int)
    requires
        0 <= intensity <= ONE,
        0 <= i <= j < 256,
    ensures
        0 <= shadow_lift_level(intensity, i) <= shadow_lift_level(intensity, j) <= 65535,
        shadow_lift_level(intensity, 0) == 65535 * intensity / (5 * ONE),
        shadow_lift_level(intensity, 255) == 65535,
        i * 257 <= shadow_lift_level(intensity, i),
{
    let w = 5 * ONE - intensity;
    assert(0 <= i * w <= j * w <= 255 * w) by (nonlinear_arith)
        requires
            0 <= i <= j <= 255,
            0 <= w,
    ;
    assert(i * 5_000_000 == i * w + i * intensity) by (nonlinear_arith)
        requires
            w == 5_000_000 - intensity,
    ;
    assert(i * intensity <= 255 * intensity) by (nonlinear_arith)
        requires
            0 <= i <= 255,
            0 <= intensity,
    ;
    let a = 257 * (255 * intensity + i * w);
    let b = 257 * (255 * intensity + j * w);
    assert(257 * i * 5_000_000 <= a <= b <= 65535 * 5_000_000);
    assert(shadow_lift_level(intensity, i) == a / 5_000_000);
    assert(shadow_lift_level(intensity, j) == b / 5_000_000);
}

/// Tabulates the tone curve `output = offset + input * (1 - offset)`, which
/// lifts black to `offset = intensity / 5` and keeps white where it is.
///
/// `intensity` is held to the unit interval.
pub fn shadow_lift_curve(intensity: i32) -> (table: Vec<u16>)
    ensures
        table@ == shadow_lift_table(unit(intensity as int)),
{
    let q: i32 = clamp_unit(intensity);
    let mut table: Vec<u16> = Vec::with_capacity(CURVE_ENTRIES);
    let mut i: usize = 0;
    while i < CURVE_ENTRIES
        invariant
            i <= CURVE_ENTRIES,
            q == unit(intensity as int),
            table.len() == i,
            forall|k: int| 0 <= k < i ==> table@[k] == shadow_lift_level(q as int, k),
        decreases CURVE_ENTRIES - i,
    {
        let w: u64 = (5 * ONE - q) as u64;
        proof {
            lemma_shadow_lift_level(q as int, i as int, i as int);
            assert(0 <= i * w <= 255 * (5 * ONE)) by (nonlinear_arith)
                requires
                    0 <= i <= 255,
                    0 <= w <= 5 * ONE,
            ;
        }
        let value: u64 = 257 * (255 * (q as u64) + (i as u64) * w) / ((5 * ONE) as u64);
        table.push(value as u16);
        i += 1;
    }
    assert(table@ =~= shadow_lift_table(q as int));
    table
}

#[verifier::external_type_specification]
#[verifier::external_body]
pub struct ExToneCurve(lcms2::ToneCurve);

/// The 16-bit table that a tone curve holds.
pub uninterp spec fn tone_curve_table(curve: lcms2::ToneCurve) -> Seq<u16>;

/// Builds a tone curve with `lcms2::ToneCurve::new_tabulated`, which copies
/// the table into a new curve. The contract claims that the curve holds the
/// values it was given, in their order. Tables that the call turns down, the
/// empty one and those of more than 65530 entries, are left out.
#[verifier::external_body]
fn tabulated_tone_curve(values: &Vec<u16>) -> (curve: lcms2::ToneCurve)
    requires
        0 < values@.len() <= 65530,
    ensures
        tone_curve_table(curve) == values@,
{
    lcms2::ToneCurve::new_tabulated(values.as_slice())
}

/// The text of each name in a path.
pub open spec fn path_text(path: Seq<String>) -> Seq<Seq<char>> {
    Seq::new(path.len(), |i: int| path[i]@)
}

/// The system directory to go by: the one that the environment names, or the
/// default.
pub open spec fn system_root(windir: Option<String>) -> Seq<char> {
    match windir {
        Some(root) => root@,
        None => DEFAULT_SYSTEM_ROOT@,
    }
}

/// The system-wide directory of colour profiles, name by name.
pub open spec fn profile_dir_text(windir: Option<String>) -> Seq<Seq<char>> {
    seq![system_root(windir), "System32"@, "spool"@, "drivers"@, "color"@]
}

/// The directory that holds the profile, as the names that lead to it from the
/// system directory `windir`.
pub fn get_profile_dir(windir: Option<String>) -> (path: Vec<String>)
    ensures
        path_text(path@) == profile_dir_text(windir),
{
    let mut path: Vec<String> = Vec::new();
    path.push(
        match windir {
            Some(root) => root,
            None => String::from_str(DEFAULT_SYSTEM_ROOT),
        },
    );
    path.push(String::from_str("System32"));
    path.push(String::from_str("spool"));
    path.push(String::from_str("drivers"));
    path.push(String::from_str("color"));
    assert(path_text(path@) =~= profile_dir_text(windir));
    path
}

/// Where the profile is kept: one well-known file in the directory of colour
/// profiles, which every new profile overwrites.
pub fn get_profile_path(windir: Option<String>) -> (path: Vec<String>)
    ensures
        path_text(path@) == profile_dir_text(windir).push(PROFILE_NAME@),
{
    let mut path = get_profile_dir(windir);
    path.push(String::from_str(PROFILE_NAME));
    assert(path_text(path@) =~= profile_dir_text(windir).push(PROFILE_NAME@));
    path
}

/// The profile to write: its place and the tone curve that its three colour
/// channels share.
pub struct ShadowLiftProfile {
    pub path: Vec<String>,
    pub curve: lcms2::ToneCurve,
}

/// Describes the shadow-lift profile of `intensity`, which is held to the unit
/// interval.
pub fn create_shadow_lift_profile(intensity: i32, windir: Option<String>) -> (profile:
    ShadowLiftProfile)
    ensures
        path_text(profile.path@) == profile_dir_text(windir).push(PROFILE_NAME@),
        tone_curve_table(profile.curve) == shadow_lift_table(unit(intensity as int)),
{
    let table = shadow_lift_curve(intensity);
    let curve = tabulated_tone_curve(&table);
    ShadowLiftProfile { path: get_profile_path(windir), curve }
}

/// The identifier by which the colour system knows a display: the device
/// identifier that the platform reported, or, where that is empty, the device
/// name. Both come as fixed buffers of UTF-16 code units.
pub fn get_monitor_device_id(device_id: &[u16], device_name: &[u16]) -> (id: String)
    ensures
        id@ == (if utf16_lossy_text(device_id@.take(nul_position(device_id@))).len() == 0 {
            utf16_lossy_text(device_name@.take(nul_position(device_name@)))
        } else {
            utf16_lossy_text(device_id@.take(nul_position(device_id@)))
        }),
{
    let id = wide_to_string(device_id);
    if id.as_str().is_empty() {
        wide_to_string(device_name)
    } else {
        id
    }
}

/// A call into the platform's colour system that the host has to make.
#[derive(Clone, Copy, Debug, PartialEq, Eq, Structural)]
pub enum ProfileCall {
    /// Find the device identifier of the display.
    LookupDevice,
    /// Build the profile and write it to its file.
    WriteProfile,
    /// Install the profile file into the profile store.
    InstallProfile,
    /// Associate the profile with the device.
    AssociateProfile,
    /// Take the association of the profile with the device back.
    DisassociateProfile,
}

/// What comes next in an operation on the profile.
#[derive(Clone, Copy, Debug, PartialEq, Eq, Structural)]
pub enum ProfileStep {
    /// The host makes this call and reports to `advance` whether it succeeded.
    Perform(ProfileCall),
    /// The operation is over and reports success.
    Done,
    /// The operation is over: it failed.
    Failed(DisplayError),
}

/// Where an operation on the profile stands.
#[derive(Clone, Copy, Debug, PartialEq, Eq, Structural)]
pub enum ProfilePhase {
    /// No operation is under way.
    Idle,
    /// The profile is being applied; this call has been asked for.
    Applying(ProfileCall),
    /// The profile is being removed; this call has been asked for.
    Removing(ProfileCall),
}

/// Whether the shadow-lift profile is associated with a display, and where the
/// operation under way stands.
#[derive(Clone, Copy, Debug, PartialEq, Eq, Structural)]
pub struct ProfileBinding {
    /// A profile has been associated and not been taken back since.
    pub applied: bool,
    pub phase: ProfilePhase,
}

/// The state and the first step of applying the profile.
pub open spec fn apply_begun(state: ProfileBinding) -> (ProfileBinding, ProfileStep) {
    (
        ProfileBinding { phase: ProfilePhase::Applying(ProfileCall::LookupDevice), ..state },
        ProfileStep::Perform(ProfileCall::LookupDevice),
    )
}

/// The state and the first step of removing the profile: nothing to do unless
/// one is applied.
pub open spec fn remove_begun(state: ProfileBinding) -> (ProfileBinding, ProfileStep) {
    if !state.applied {
        (state, ProfileStep::Done)
    } else {
        (
            ProfileBinding { phase: ProfilePhase::Removing(ProfileCall::LookupDevice), ..state },
            ProfileStep::Perform(ProfileCall::LookupDevice),
        )
    }
}

/// The state and the next step once the call that was asked for has come back.
///
/// Applying goes from the lookup of the device over writing and installing
/// the profile to associating it. A profile that is installed already is no
/// obstacle, so the outcome of installing is not looked at; every other
/// failure ends the operation with `ProfileIoError`. Removing is best effort:
/// it reports success whatever the platform says, and once the platform has
/// been asked to take the association back, the profile counts as removed.
pub open spec fn profile_advanced(state: ProfileBinding, succeeded: bool) -> (
    ProfileBinding,
    ProfileStep,
) {
    let idle = ProfileBinding { phase: ProfilePhase::Idle, ..state };
    match state.phase {
        ProfilePhase::Idle => (state, ProfileStep::Done),
        ProfilePhase::Applying(ProfileCall::LookupDevice) => if succeeded {
            (
                ProfileBinding { phase: ProfilePhase::Applying(ProfileCall::WriteProfile), ..state },
                ProfileStep::Perform(ProfileCall::WriteProfile),
            )
        } else {
            (
                idle,
                ProfileStep::Failed(
                    DisplayError::ProfileIoError { step: ProfileStage::DeviceLookup },
                ),
            )
        },
        ProfilePhase::Applying(ProfileCall::WriteProfile) => if succeeded {
            (
                ProfileBinding {
                    phase: ProfilePhase::Applying(ProfileCall::InstallProfile),
                    ..state
                },
                ProfileStep::Perform(ProfileCall::InstallProfile),
            )
        } else {
            (idle, ProfileStep::Failed(DisplayError::ProfileIoError { step: ProfileStage::Write }))
        },
        ProfilePhase::Applying(ProfileCall::InstallProfile) => (
            ProfileBinding {
                phase: ProfilePhase::Applying(ProfileCall::AssociateProfile),
                ..state
            },
            ProfileStep::Perform(ProfileCall::AssociateProfile),
        ),
        ProfilePhase::Applying(_) => if succeeded {
            (ProfileBinding { applied: true, phase: ProfilePhase::Idle }, ProfileStep::Done)
        } else {
            (
                idle,
                ProfileStep::Failed(DisplayError::ProfileIoError { step: ProfileStage::Associate }),
            )
        },
        ProfilePhase::Removing(ProfileCall::LookupDevice) => if succeeded {
            (
                ProfileBinding {
                    phase: ProfilePhase::Removing(ProfileCall::DisassociateProfile),
                    ..state
                },
                ProfileStep::Perform(ProfileCall::DisassociateProfile),
            )
        } else {
            (idle, ProfileStep::Done)
        },
        ProfilePhase::Removing(_) => (
            ProfileBinding { applied: false, phase: ProfilePhase::Idle },
            ProfileStep::Done,
        ),
    }
}

impl ProfileBinding {
    /// The bookkeeping of a fresh process: no profile applied.
    pub fn new() -> (binding: Self)
        ensures
            binding == (ProfileBinding { applied: false, phase: ProfilePhase::Idle }),
    {
        ProfileBinding { applied: false, phase: ProfilePhase::Idle }
    }
}

/// Begins to apply the shadow-lift profile to a display.
pub fn apply_shadow_lift(binding: &mut ProfileBinding) -> (step: ProfileStep)
    ensures
        (*final(binding), step) == apply_begun(*old(binding)),
{
    binding.phase = ProfilePhase::Applying(ProfileCall::LookupDevice);
    ProfileStep::Perform(ProfileCall::LookupDevice)
}

/// Begins to take the shadow-lift profile off a display.
///
/// Where no profile is applied this is all there is to it: nothing changes,
/// the platform is not asked, and the operation reports success.
pub fn remove_shadow_lift(binding: &mut ProfileBinding) -> (step: ProfileStep)
    ensures
        (*final(binding), step) == remove_begun(*old(binding)),
        !old(binding).applied ==> step == ProfileStep::Done && *final(binding) == *old(binding),
{
    if !binding.applied {
        ProfileStep::Done
    } else {
        binding.phase = ProfilePhase::Removing(ProfileCall::LookupDevice);
        ProfileStep::Perform(ProfileCall::LookupDevice)
    }
}

/// Takes the outcome of the call that the last step asked for and says what
/// comes next.
pub fn advance(binding: &mut ProfileBinding, succeeded: bool) -> (step: ProfileStep)
    ensures
        (*final(binding), step) == profile_advanced(*old(binding), succeeded),
{
    match binding.phase {
        ProfilePhase::Idle => ProfileStep::Done,
        ProfilePhase::Applying(call) => match call {
            ProfileCall::LookupDevice => if succeeded {
                binding.phase = ProfilePhase::Applying(ProfileCall::WriteProfile);
                ProfileStep::Perform(ProfileCall::WriteProfile)
            } else {
                binding.phase = ProfilePhase::Idle;
                ProfileStep::Failed(
                    DisplayError::ProfileIoError { step: ProfileStage::DeviceLookup },
                )
            },
            ProfileCall::WriteProfile => if succeeded {
                binding.phase = ProfilePhase::Applying(ProfileCall::InstallProfile);
                ProfileStep::Perform(ProfileCall::InstallProfile)
            } else {
                binding.phase = ProfilePhase::Idle;
                ProfileStep::Failed(DisplayError::ProfileIoError { step: ProfileStage::Write })
            },
            ProfileCall::InstallProfile => {
                binding.phase = ProfilePhase::Applying(ProfileCall::AssociateProfile);
                ProfileStep::Perform(ProfileCall::AssociateProfile)
            },
            _ => {
                binding.phase = ProfilePhase::Idle;
                if succeeded {
                    binding.applied = true;
                    ProfileStep::Done
                } else {
                    ProfileStep::Failed(
                        DisplayError::ProfileIoError { step: ProfileStage::Associate },
                    )
                }
            },
        },
        ProfilePhase::Removing(call) => match call {
            ProfileCall::LookupDevice => if succeeded {
                binding.phase = ProfilePhase::Removing(ProfileCall::DisassociateProfile);
                ProfileStep::Perform(ProfileCall::DisassociateProfile)
            } else {
                binding.phase = ProfilePhase::Idle;
                ProfileStep::Done
            },
            _ => {
                binding.phase = ProfilePhase::Idle;
                binding.applied = false;
                ProfileStep::Done
            },
        },
    }
}

/// Removing never fails, whatever the platform answers, and removing once more
/// after it has run its course changes nothing.
pub proof fn removal_is_idempotent(state: ProfileBinding, lookup_ok: bool, disassociate_ok: bool)
    ensures
        ({
            let (first, step) = remove_begun(state);
            let (second, after_lookup) = profile_advanced(first, lookup_ok);
            let (third, after_disassociate) = profile_advanced(second, disassociate_ok);
            &&& !(step is Failed)
            &&& state.applied ==> !(after_lookup is Failed) && !(after_disassociate is Failed)
            &&& state.applied && lookup_ok ==> {
                &&& !third.applied
                &&& remove_begun(third) == (third, ProfileStep::Done)
            }
            &&& !state.applied ==> remove_begun(first) == (state, ProfileStep::Done)
        }),
{
}

/// With a platform that takes every call, applying ends well with the profile
/// applied, and a removal after it takes the profile off again.
pub proof fn apply_then_remove(state: ProfileBinding)
    ensures
        ({
            let (s1, _) = apply_begun(state);
            let (s2, _) = profile_advanced(s1, true);
            let (s3, _) = profile_advanced(s2, true);
            let (s4, _) = profile_advanced(s3, true);
            let (applied, end) = profile_advanced(s4, true);
            let (r1, _) = remove_begun(applied);
            let (r2, _) = profile_advanced(r1, true);
            let (removed, gone) = profile_advanced(r2, true);
            &&& end == ProfileStep::Done
            &&& applied.applied
            &&& gone == ProfileStep::Done
            &&& !removed.applied
        }),
{
}

} // verus!
