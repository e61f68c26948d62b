use vstd::prelude::*;

verus! {

// Byte offsets of the fields inside one raw report.
pub const X_AXIS_HIGH: usize = 1;
pub const X_AXIS_LOW: usize = 2;
pub const Y_AXIS_HIGH: usize = 3;
pub const Y_AXIS_LOW: usize = 4;
pub const PRESSURE_HIGH: usize = 5;
pub const PRESSURE_LOW: usize = 6;
pub const PEN_BUTTONS: usize = 9;
pub const TABLET_BUTTONS_LOW: usize = 11;
pub const TABLET_BUTTONS_HIGH: usize = 12;

/// Shortest report the decoder accepts: every field offset above must be
/// in bounds, and byte 0 is a report id the decoder does not consume.
pub const MIN_REPORT_LEN: usize = 14;

/// Number of bytes one polling cycle delivers.
pub const REPORT_LEN: usize = 64;

/// Mask OR'ed onto the tablet-button word. The hardware leaves the bits of
/// button positions 10 and 11 indeterminate; forcing them (and the two top
/// bits) high makes them read as "not pressed" under the active-low
/// convention, so they can never spuriously toggle.
pub const TABLET_BUTTONS_FORCED: u16 = 0xcc00;

/// Big-endian composition of two bytes into one 16-bit value.
pub open spec fn compose16(high: u8, low: u8) -> u16 {
    ((high as u16) << 8) | (low as u16)
}

/// The 16-bit X axis field of a report.
pub open spec fn x_axis_spec(d: Seq<u8>) -> u16 {
    compose16(d[X_AXIS_HIGH as int], d[X_AXIS_LOW as int])
}

/// The 16-bit Y axis field of a report.
pub open spec fn y_axis_spec(d: Seq<u8>) -> u16 {
    compose16(d[Y_AXIS_HIGH as int], d[Y_AXIS_LOW as int])
}

/// The 16-bit raw pressure field of a report.
pub open spec fn pressure_spec(d: Seq<u8>) -> u16 {
    compose16(d[PRESSURE_HIGH as int], d[PRESSURE_LOW as int])
}

/// The tablet-button bitmask of a report: active low, with the positions
/// the hardware never drives forced to "not pressed".
pub open spec fn tablet_mask_spec(d: Seq<u8>) -> u16 {
    compose16(d[TABLET_BUTTONS_HIGH as int], d[TABLET_BUTTONS_LOW as int]) | TABLET_BUTTONS_FORCED
}

/// The pen-button value code of a report.
pub open spec fn pen_button_spec(d: Seq<u8>) -> u8 {
    d[PEN_BUTTONS as int]
}

/// The raw report buffer for one polling cycle. The surrounding program
/// overwrites `data` in place between dispatch calls; the dispatcher only
/// reads it.
pub struct RawDataReader {
    pub data: Vec<u8>,
}

impl RawDataReader {
    /// A zeroed buffer of one report's length.
    pub fn new() -> (r: Self)
        ensures
            r.data@.len() == REPORT_LEN,
            forall|i: int| 0 <= i < r.data@.len() ==> r.data@[i] == 0u8,
    {
        let mut data: Vec<u8> = Vec::new();
        let mut i: usize = 0;
        while i < REPORT_LEN
            invariant
                i <= REPORT_LEN,
                data@.len() == i,
                forall|j: int| 0 <= j < i ==> data@[j] == 0u8,
            decreases REPORT_LEN - i,
        {
            data.push(0u8);
            i = i + 1;
        }
        RawDataReader { data }
    }

    /// Big-endian composition of two bytes into one 16-bit value.
    pub fn u16_from_2_u8(&self, high: u8, low: u8) -> (r: u16)
        ensures
            r == compose16(high, low),
    {
        (high as u16) << 8u16 | low as u16
    }

    /// The 16-bit X axis value.
    pub fn x_axis(&self) -> (r: i32)
        requires
            self.data@.len() >= MIN_REPORT_LEN,
        ensures
            r == x_axis_spec(self.data@) as i32,
            0 <= r < 0x10000,
    {
        self.u16_from_2_u8(self.data[X_AXIS_HIGH], self.data[X_AXIS_LOW]) as i32
    }

    /// The 16-bit Y axis value.
    pub fn y_axis(&self) -> (r: i32)
        requires
            self.data@.len() >= MIN_REPORT_LEN,
        ensures
            r == y_axis_spec(self.data@) as i32,
            0 <= r < 0x10000,
    {
        self.u16_from_2_u8(self.data[Y_AXIS_HIGH], self.data[Y_AXIS_LOW]) as i32
    }

    /// The 16-bit raw pressure value, before normalization.
    pub fn pressure(&self) -> (r: i32)
        requires
            self.data@.len() >= MIN_REPORT_LEN,
        ensures
            r == pressure_spec(self.data@) as i32,
            0 <= r < 0x10000,
    {
        self.u16_from_2_u8(self.data[PRESSURE_HIGH], self.data[PRESSURE_LOW]) as i32
    }

    /// The tablet-button bitmask, active low, with the undriven positions
    /// forced to "not pressed".
    pub fn tablet_buttons_as_binary_flags(&self) -> (r: u16)
        requires
            self.data@.len() >= MIN_REPORT_LEN,
        ensures
            r == tablet_mask_spec(self.data@),
    {
        self.u16_from_2_u8(self.data[TABLET_BUTTONS_HIGH], self.data[TABLET_BUTTONS_LOW])
            | TABLET_BUTTONS_FORCED
    }

    /// The pen-button value code.
    pub fn pen_buttons(&self) -> (r: u8)
        requires
            self.data@.len() >= MIN_REPORT_LEN,
        ensures
            r == pen_button_spec(self.data@),
    {
        self.data[PEN_BUTTONS]
    }
}

} // verus!
