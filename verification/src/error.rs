//! What can go wrong, as values, and the words for it.

use vstd::prelude::*;
use vstd::string::StringExecFns;

verus! {

/// The platform request that was turned down.
#[derive(Clone, Copy, Debug, PartialEq, Eq, Structural)]
pub enum Rejected {
    /// No device context could be opened for the monitor.
    DeviceContext,
    /// The driver refused the night-vision gamma ramp.
    GammaRamp,
    /// The driver refused the dimming gamma ramp.
    DimRamp,
    /// The compositor's colour subsystem did not start.
    CompositorInit,
    /// The compositor refused the neutral full-screen transform.
    FullscreenTransform,
    /// The compositor refused the colour matrix.
    ColorEffect,
}

/// The step of a screen capture that failed.
#[derive(Clone, Copy, Debug, PartialEq, Eq, Structural)]
pub enum CaptureStage {
    /// The screen's device context.
    ScreenContext,
    /// The off-screen device context.
    MemoryContext,
    /// The off-screen bitmap.
    Bitmap,
    /// Copying the screen region into the bitmap.
    Copy,
    /// Reading the bitmap's pixels back.
    ReadBack,
}

/// The step of handling the colour profile that failed.
#[derive(Clone, Copy, Debug, PartialEq, Eq, Structural)]
pub enum ProfileStage {
    /// Finding the device identifier of the monitor.
    DeviceLookup,
    /// Building and writing the profile file.
    Write,
    /// Associating the profile with the device.
    Associate,
}

/// A failure of one of the library's operations.
#[derive(Clone, Copy, Debug, PartialEq, Eq, Structural)]
pub enum DisplayError {
    /// No monitor carries this index.
    MonitorNotFound { index: u32 },
    /// The platform could not deliver a frame.
    CaptureError { stage: CaptureStage },
    /// The platform refused a colour or gamma change; `code` is its diagnostic
    /// code where it gave one.
    ApplyRejected { what: Rejected, code: Option<u32> },
    /// Writing, installing or associating the colour profile failed.
    ProfileIoError { step: ProfileStage },
}

/// The character of one decimal digit.
pub open spec fn digit_char(digit: nat) -> char {
    (48 + digit) as u8 as char
}

/// A number in decimal, without sign, padding or separators.
pub open spec fn decimal_text(value: nat) -> Seq<char>
    decreases value,
{
    if value < 10 {
        seq![digit_char(value)]
    } else {
        decimal_text(value / 10).push(digit_char(value % 10))
    }
}

/// The message for a failure.
pub open spec fn message_text(error: DisplayError) -> Seq<char> {
    match error {
        DisplayError::MonitorNotFound { index } => "Monitor "@ + decimal_text(index as nat)
            + " not found"@,
        DisplayError::CaptureError { stage } => match stage {
            CaptureStage::ScreenContext => "Failed to get screen DC"@,
            CaptureStage::MemoryContext => "Failed to create compatible DC"@,
            CaptureStage::Bitmap => "Failed to create bitmap"@,
            CaptureStage::Copy => "BitBlt failed"@,
            CaptureStage::ReadBack => "GetDIBits failed"@,
        },
        DisplayError::ApplyRejected { what, code } => match what {
            Rejected::DeviceContext => "Failed to create device context"@,
            Rejected::GammaRamp => "Failed to set gamma ramp (Driver may be blocking it)"@,
            Rejected::DimRamp => "Failed to dim monitor"@,
            Rejected::CompositorInit => "Failed to initialize Magnification API"@,
            Rejected::FullscreenTransform => "Failed to set fullscreen transform"@,
            Rejected::ColorEffect => match code {
                Some(code) => "Failed to set fullscreen color effect (error: "@ + decimal_text(
                    code as nat,
                ) + ")"@,
                None => "Failed to set fullscreen color effect"@,
            },
        },
        DisplayError::ProfileIoError { step } => match step {
            ProfileStage::DeviceLookup => "EnumDisplayDevices for monitor failed"@,
            ProfileStage::Write => "Failed to save profile"@,
            ProfileStage::Associate => "Failed to associate profile with device (WCS)"@,
        },
    }
}

/// Writes a number with the standard library's `format!("{}", value)`, which
/// gives an unsigned integer in decimal digits, without sign or padding.
#[verifier::external_body]
fn number_text(value: u32) -> (text: String)
    ensures
        text@ == decimal_text(value as nat),
{
    format!("{}", value)
}

impl DisplayError {
    /// The failure in words, for whoever asked for the operation.
    pub fn message(&self) -> (text: String)
        ensures
            text@ == message_text(*self),
    {
        match *self {
            DisplayError::MonitorNotFound { index } => String::from_str("Monitor ").concat(
                number_text(index).as_str(),
            ).concat(" not found"),
            DisplayError::CaptureError { stage } => match stage {
                CaptureStage::ScreenContext => String::from_str("Failed to get screen DC"),
                CaptureStage::MemoryContext => String::from_str("Failed to create compatible DC"),
                CaptureStage::Bitmap => String::from_str("Failed to create bitmap"),
                CaptureStage::Copy => String::from_str("BitBlt failed"),
                CaptureStage::ReadBack => String::from_str("GetDIBits failed"),
            },
            DisplayError::ApplyRejected { what, code } => match what {
                Rejected::DeviceContext => String::from_str("Failed to create device context"),
                Rejected::GammaRamp => String::from_str(
                    "Failed to set gamma ramp (Driver may be blocking it)",
                ),
                Rejected::DimRamp => String::from_str("Failed to dim monitor"),
                Rejected::CompositorInit => String::from_str(
                    "Failed to initialize Magnification API",
                ),
                Rejected::FullscreenTransform => String::from_str(
                    "Failed to set fullscreen transform",
                ),
                Rejected::ColorEffect => match code {
                    Some(code) => String::from_str(
                        "Failed to set fullscreen color effect (error: ",
                    ).concat(number_text(code).as_str()).concat(")"),
                    None => String::from_str("Failed to set fullscreen color effect"),
                },
            },
            DisplayError::ProfileIoError { step } => match step {
                ProfileStage::DeviceLookup => String::from_str(
                    "EnumDisplayDevices for monitor failed",
                ),
                ProfileStage::Write => String::from_str("Failed to save profile"),
                ProfileStage::Associate => String::from_str(
                    "Failed to associate profile with device (WCS)",
                ),
            },
        }
    }
}

} // verus!
