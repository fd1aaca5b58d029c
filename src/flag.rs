use vstd::prelude::*;

verus! {

/// Parameter values sent with the controller's commands.
pub struct Flag;

impl Flag {
    pub const DATA_ENTRY_INCRY_INCRX: u8 = 0x03;
    pub const INTERNAL_TEMP_SENSOR: u8 = 0x80;
    pub const BORDER_WAVEFORM_FOLLOW_LUT: u8 = 0x05;
    pub const BORDER_WAVEFORM_LUT1: u8 = 0x01;
    pub const DISPLAY_MODE_1: u8 = 0xF7;
}

} // verus!
