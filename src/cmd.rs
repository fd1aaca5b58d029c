use vstd::prelude::*;

verus! {

/// Command opcodes of the SSD1681 controller.
pub struct Cmd;

impl Cmd {
    pub const DRIVER_CONTROL: u8 = 0x01;
    pub const DATA_MODE: u8 = 0x11;
    pub const SW_RESET: u8 = 0x12;
    pub const TEMP_CONTROL: u8 = 0x18;
    pub const MASTER_ACTIVATE: u8 = 0x20;
    pub const DISP_CTRL2: u8 = 0x22;
    pub const WRITE_BWRAM: u8 = 0x24;
    pub const WRITE_REDRAM: u8 = 0x26;
    pub const WRITE_BORDER: u8 = 0x3C;
    pub const SET_RAMXPOS: u8 = 0x44;
    pub const SET_RAMYPOS: u8 = 0x45;
    pub const SET_RAMXCOUNT: u8 = 0x4E;
    pub const SET_RAMYCOUNT: u8 = 0x4F;
}

} // verus!
