//! Device configuration: capture resolutions, the pixel-clock divisor,
//! and the single configuration byte sent to the remote camera.
//!
//! The configuration byte packs the resolution code into its top three
//! bits and half the zero-based clock divisor into its low five bits; the
//! exact layout is a contract with the remote device's firmware.

use vstd::prelude::*;

verus! {

/// The highest clock divisor the device accepts.
pub const CLOCK_DIVISOR_MAX: u8 = 32;

/// How many resolution codes the selection slider offers.
pub const RESOLUTION_MAX: u8 = 6;

/// A capture resolution the camera firmware knows.
#[derive(Copy, Clone, Debug, PartialEq, Eq, Structural)]
pub enum Resolution {
    /// 160 x 120 pixels.
    S160x120,
    /// 320 x 240 pixels.
    S320x240,
    /// 640 x 480 pixels.
    S640x480,
    /// 800 x 600 pixels.
    S800x600,
    /// 1024 x 768 pixels.
    S1024x768,
    /// 1600 x 1200 pixels.
    S1600x1200,
    /// 352 x 288 pixels.
    T352x288,
    /// 1280 x 1024 pixels.
    T1280x1024,
}

/// The wire code of each resolution, as the firmware numbers them.
pub open spec fn spec_code(r: Resolution) -> u8 {
    match r {
        Resolution::S160x120 => 0,
        Resolution::S320x240 => 1,
        Resolution::S640x480 => 2,
        Resolution::S800x600 => 3,
        Resolution::S1024x768 => 4,
        Resolution::S1600x1200 => 5,
        Resolution::T352x288 => 6,
        Resolution::T1280x1024 => 7,
    }
}

/// The resolution a selection code stands for: only the first six codes
/// are selectable; higher codes select nothing.
pub open spec fn spec_from_u8(n: u8) -> Option<Resolution> {
    if n == 0 {
        Some(Resolution::S160x120)
    } else if n == 1 {
        Some(Resolution::S320x240)
    } else if n == 2 {
        Some(Resolution::S640x480)
    } else if n == 3 {
        Some(Resolution::S800x600)
    } else if n == 4 {
        Some(Resolution::S1024x768)
    } else if n == 5 {
        Some(Resolution::S1600x1200)
    } else {
        None
    }
}

impl Resolution {
    /// The resolution a selection code stands for, if any: exactly the
    /// codes below [`RESOLUTION_MAX`] select one.
    pub fn from_u8(n: u8) -> (r: Option<Self>)
        ensures
            r == spec_from_u8(n),
            (r is Some) == (n < 6),
            (r matches Some(res) ==> spec_code(res) == n),
    {
        match n {
            0 => Some(Self::S160x120),
            1 => Some(Self::S320x240),
            2 => Some(Self::S640x480),
            3 => Some(Self::S800x600),
            4 => Some(Self::S1024x768),
            5 => Some(Self::S1600x1200),
            _ => None,
        }
    }

    /// The wire code of this resolution.
    pub fn code(self) -> (r: u8)
        ensures
            r == spec_code(self),
            r <= 7,
    {
        match self {
            Self::S160x120 => 0,
            Self::S320x240 => 1,
            Self::S640x480 => 2,
            Self::S800x600 => 3,
            Self::S1024x768 => 4,
            Self::S1600x1200 => 5,
            Self::T352x288 => 6,
            Self::T1280x1024 => 7,
        }
    }

    /// The frame's width and height in pixels.
    pub fn dimensions(self) -> (r: (u32, u32))
        ensures
            self == Resolution::S160x120 ==> r == (160u32, 120u32),
            self == Resolution::S320x240 ==> r == (320u32, 240u32),
            self == Resolution::S640x480 ==> r == (640u32, 480u32),
            self == Resolution::S800x600 ==> r == (800u32, 600u32),
            self == Resolution::S1024x768 ==> r == (1024u32, 768u32),
            self == Resolution::S1600x1200 ==> r == (1600u32, 1200u32),
            self == Resolution::T352x288 ==> r == (352u32, 288u32),
            self == Resolution::T1280x1024 ==> r == (1280u32, 1024u32),
    {
        match self {
            Self::S160x120 => (160, 120),
            Self::S320x240 => (320, 240),
            Self::S640x480 => (640, 480),
            Self::S800x600 => (800, 600),
            Self::S1024x768 => (1024, 768),
            Self::S1600x1200 => (1600, 1200),
            Self::T352x288 => (352, 288),
            Self::T1280x1024 => (1280, 1024),
        }
    }

    /// The resolution's display label, width by height.
    pub fn label(self) -> (r: &'static str)
        ensures
            self == Resolution::S160x120 ==> r@ == "160 x 120"@,
            self == Resolution::S320x240 ==> r@ == "320 x 240"@,
            self == Resolution::S640x480 ==> r@ == "640 x 480"@,
            self == Resolution::S800x600 ==> r@ == "800 x 600"@,
            self == Resolution::S1024x768 ==> r@ == "1024 x 768"@,
            self == Resolution::S1600x1200 ==> r@ == "1600 x 1200"@,
            self == Resolution::T352x288 ==> r@ == "352 x 288"@,
            self == Resolution::T1280x1024 ==> r@ == "1280 x 1024"@,
    {
        match self {
            Self::S160x120 => "160 x 120",
            Self::S320x240 => "320 x 240",
            Self::S640x480 => "640 x 480",
            Self::S800x600 => "800 x 600",
            Self::S1024x768 => "1024 x 768",
            Self::S1600x1200 => "1600 x 1200",
            Self::T352x288 => "352 x 288",
            Self::T1280x1024 => "1280 x 1024",
        }
    }
}

/// The one configuration byte sent to the device: the resolution code in
/// bits 7 to 5, half the zero-based clock divisor in bits 4 to 0.
pub fn settings_byte(resolution: Resolution, clock_divisor: u8) -> (r: u8)
    requires
        1 <= clock_divisor <= CLOCK_DIVISOR_MAX,
    ensures
        r == spec_code(resolution) * 32 + (clock_divisor - 1) / 2,
{
    let c = resolution.code();
    let r = ((0b111 & c) << 5u8) | (0b11111 & ((clock_divisor - 1) >> 1u8));
    proof {
        assert(((0b111 & c) << 5u8) | (0b11111 & ((clock_divisor - 1) as u8 >> 1u8)) == c * 32 + (
        clock_divisor - 1) as u8 / 2) by (bit_vector)
            requires
                c <= 7 && 1 <= clock_divisor <= 32,
        ;
    }
    r
}

/// A sidebar control the user can be interacting with.
#[derive(Debug, PartialEq, Eq)]
pub enum Setting {
    /// The port list; holds the name of the port being picked, if any.
    SelectPort(Option<String>),
    /// The clock-divisor slider.
    ClockDivisor,
    /// The resolution slider.
    Resolution,
    /// The send-settings button.
    SendSettings,
}

} // verus!
