//! The camera controls that the gateway drives, and their descriptors.
use vstd::prelude::*;

verus! {

/// How a control stores its value.
#[derive(Debug, Clone, Copy, PartialEq, Eq, Structural)]
pub enum ControlType {
    Integer,
    /// Stores `0` or `1`.
    Boolean,
}

/// The controls of a camera that the gateway reads and writes.
#[derive(Debug, Clone, Copy, PartialEq, Eq, Hash, Structural)]
pub enum CamControl {
    PanAbsolute,
    TiltAbsolute,
    ZoomAbsolute,
    FocusAbsolute,
    FocusAuto,
    WhiteBalanceTemperature,
    WhiteBalanceTemperatureAuto,
}

impl CamControl {
    /// The control's name as the Linux video driver spells it.
    pub open spec fn spec_name(self) -> Seq<char> {
        match self {
            CamControl::PanAbsolute => "pan_absolute"@,
            CamControl::TiltAbsolute => "tilt_absolute"@,
            CamControl::ZoomAbsolute => "zoom_absolute"@,
            CamControl::FocusAbsolute => "focus_absolute"@,
            CamControl::FocusAuto => "focus_automatic_continuous"@,
            CamControl::WhiteBalanceTemperature => "white_balance_temperature"@,
            CamControl::WhiteBalanceTemperatureAuto => "white_balance_automatic"@,
        }
    }

    pub fn name(&self) -> (r: &'static str)
        ensures
            r@ == self.spec_name(),
    {
        match *self {
            CamControl::PanAbsolute => "pan_absolute",
            CamControl::TiltAbsolute => "tilt_absolute",
            CamControl::ZoomAbsolute => "zoom_absolute",
            CamControl::FocusAbsolute => "focus_absolute",
            CamControl::FocusAuto => "focus_automatic_continuous",
            CamControl::WhiteBalanceTemperature => "white_balance_temperature",
            CamControl::WhiteBalanceTemperatureAuto => "white_balance_automatic",
        }
    }
}

/// What a device reports about one control.
#[derive(Debug, Clone, Copy, PartialEq, Eq, Structural)]
pub struct Description {
    pub typ: ControlType,
    pub minimum: i64,
    pub maximum: i64,
    pub step: u64,
    pub default: i64,
}

} // verus!
