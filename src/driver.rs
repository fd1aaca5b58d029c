use crate::cmd::Cmd;
use crate::flag::Flag;
use crate::interface::{cmd_with_data_ops, DisplayInterface, Transaction, TransactionView};
use crate::{HEIGHT, WIDTH};
use vstd::prelude::*;

verus! {

/// Select the RAM window from `(start_x, start_y)` to `(end_x, end_y)`; X is
/// addressed in bytes, Y as two little-endian bytes.
pub open spec fn ram_area_ops(start_x: u32, start_y: u32, end_x: u32, end_y: u32) -> Seq<TransactionView> {
    cmd_with_data_ops(Cmd::SET_RAMXPOS, seq![(start_x >> 3u32) as u8, (end_x >> 3u32) as u8])
        + cmd_with_data_ops(
        Cmd::SET_RAMYPOS,
        seq![start_y as u8, (start_y >> 8u32) as u8, end_y as u8, (end_y >> 8u32) as u8],
    )
}

/// Put the RAM write cursor at `(x, y)`.
pub open spec fn ram_counter_ops(x: u32, y: u32) -> Seq<TransactionView> {
    cmd_with_data_ops(Cmd::SET_RAMXCOUNT, seq![(x >> 3u32) as u8])
        + cmd_with_data_ops(Cmd::SET_RAMYCOUNT, seq![y as u8, (y >> 8u32) as u8])
}

/// Select the whole panel and start writing at its top-left corner.
pub open spec fn full_frame_ops() -> Seq<TransactionView> {
    ram_area_ops(0, 0, 199, 199) + ram_counter_ops(0, 0)
}

/// The initialisation sequence of the controller.
pub open spec fn init_ops() -> Seq<TransactionView> {
    seq![TransactionView::Reset, TransactionView::Command(Cmd::SW_RESET), TransactionView::WaitUntilIdle]
        + cmd_with_data_ops(Cmd::DRIVER_CONTROL, seq![199u8, 0x00u8, 0x00u8])
        + cmd_with_data_ops(Cmd::DATA_MODE, seq![0x03u8])
        + full_frame_ops()
        + cmd_with_data_ops(Cmd::WRITE_BORDER, seq![0x05u8 | 0x01u8])
        + cmd_with_data_ops(Cmd::TEMP_CONTROL, seq![0x80u8])
        + seq![TransactionView::WaitUntilIdle]
}

/// Upload a whole plane with the RAM-write command `command`.
pub open spec fn update_frame_ops(command: u8, buffer: Seq<u8>) -> Seq<TransactionView> {
    full_frame_ops() + cmd_with_data_ops(command, buffer)
}

/// Fill a whole plane with byte `value` through the RAM-write command `command`.
pub open spec fn clear_frame_ops(command: u8, value: u8) -> Seq<TransactionView> {
    full_frame_ops() + seq![TransactionView::Command(command), TransactionView::RepeatData(value, 5000)]
}

/// Trigger the refresh of the panel and wait for it to end.
pub open spec fn display_frame_ops() -> Seq<TransactionView> {
    cmd_with_data_ops(Cmd::DISP_CTRL2, seq![0xF7u8])
        + seq![TransactionView::Command(Cmd::MASTER_ACTIVATE), TransactionView::WaitUntilIdle]
}

/// A configured display: the controller's procedures, issued as transactions
/// that the hardware layer carries out in order.
pub struct Ssd1681 {
    interface: DisplayInterface,
}

impl Ssd1681 {
    /// The transactions issued and not yet handed out, oldest first.
    pub closed spec fn pending(&self) -> Seq<TransactionView> {
        self.interface.pending()
    }

    /// Create the display driver and issue its initialisation.
    pub fn new() -> (r: Ssd1681)
        ensures
            r.pending() == init_ops(),
    {
        let interface = DisplayInterface::new();
        let mut ssd1681 = Ssd1681 { interface };
        ssd1681.init();
        proof {
            assert(ssd1681.pending() =~= init_ops());
        }
        ssd1681
    }

    /// Initialise the controller
    pub fn init(&mut self)
        ensures
            final(self).pending() == old(self).pending() + init_ops(),
    {
        self.interface.reset();
        self.interface.cmd(Cmd::SW_RESET);
        self.interface.wait_until_idle();
        let geometry = [(HEIGHT - 1) as u8, 0x00, 0x00];
        assert(geometry@ == seq![199u8, 0x00u8, 0x00u8]);
        self.interface.cmd_with_data(Cmd::DRIVER_CONTROL, &geometry);
        let mode = [Flag::DATA_ENTRY_INCRY_INCRX];
        assert(mode@ == seq![0x03u8]);
        self.interface.cmd_with_data(Cmd::DATA_MODE, &mode);
        self.use_full_frame();
        let border = [Flag::BORDER_WAVEFORM_FOLLOW_LUT | Flag::BORDER_WAVEFORM_LUT1];
        assert(border@ == seq![0x05u8 | 0x01u8]);
        self.interface.cmd_with_data(Cmd::WRITE_BORDER, &border);
        let sensor = [Flag::INTERNAL_TEMP_SENSOR];
        assert(sensor@ == seq![0x80u8]);
        self.interface.cmd_with_data(Cmd::TEMP_CONTROL, &sensor);
        self.interface.wait_until_idle();
        proof {
            assert(final(self).pending() =~= old(self).pending() + init_ops());
        }
    }

    /// Update the whole BW buffer on the display driver
    pub fn update_bw_frame(&mut self, buffer: &[u8])
        ensures
            final(self).pending() == old(self).pending() + update_frame_ops(Cmd::WRITE_BWRAM, buffer@),
    {
        self.use_full_frame();
        self.interface.cmd_with_data(Cmd::WRITE_BWRAM, buffer);
        proof {
            assert(final(self).pending() =~= old(self).pending() + update_frame_ops(Cmd::WRITE_BWRAM, buffer@));
        }
    }

    /// Update the whole Red buffer on the display driver
    pub fn update_red_frame(&mut self, buffer: &[u8])
        ensures
            final(self).pending() == old(self).pending() + update_frame_ops(Cmd::WRITE_REDRAM, buffer@),
    {
        self.use_full_frame();
        self.interface.cmd_with_data(Cmd::WRITE_REDRAM, buffer);
        proof {
            assert(final(self).pending() =~= old(self).pending() + update_frame_ops(Cmd::WRITE_REDRAM, buffer@));
        }
    }

    /// Start an update of the whole display
    pub fn display_frame(&mut self)
        ensures
            final(self).pending() == old(self).pending() + display_frame_ops(),
    {
        let mode = [Flag::DISPLAY_MODE_1];
        assert(mode@ == seq![0xF7u8]);
        self.interface.cmd_with_data(Cmd::DISP_CTRL2, &mode);
        self.interface.cmd(Cmd::MASTER_ACTIVATE);
        self.interface.wait_until_idle();
        proof {
            assert(final(self).pending() =~= old(self).pending() + display_frame_ops());
        }
    }

    /// Make the whole black and white frame on the display driver white
    pub fn clear_bw_frame(&mut self)
        ensures
            final(self).pending() == old(self).pending() + clear_frame_ops(Cmd::WRITE_BWRAM, 0xFF),
    {
        self.use_full_frame();
        let color: u8 = 0xFF;
        self.interface.cmd(Cmd::WRITE_BWRAM);
        self.interface.data_x_times(color, WIDTH as u32 / 8 * HEIGHT as u32);
        proof {
            assert(final(self).pending() =~= old(self).pending() + clear_frame_ops(Cmd::WRITE_BWRAM, 0xFF));
        }
    }

    /// Make the whole red frame on the display driver free of red
    pub fn clear_red_frame(&mut self)
        ensures
            final(self).pending() == old(self).pending() + clear_frame_ops(Cmd::WRITE_REDRAM, 0x00),
    {
        self.use_full_frame();
        let color: u8 = 0x00;
        self.interface.cmd(Cmd::WRITE_REDRAM);
        self.interface.data_x_times(color, WIDTH as u32 / 8 * HEIGHT as u32);
        proof {
            assert(final(self).pending() =~= old(self).pending() + clear_frame_ops(Cmd::WRITE_REDRAM, 0x00));
        }
    }

    /// Hands out the issued transactions, oldest first, for the hardware layer to
    /// carry out, and leaves none pending.
    pub fn take_pending(&mut self) -> (r: Vec<Transaction>)
        ensures
            r@.map_values(|t: Transaction| t@) == old(self).pending(),
            final(self).pending() == Seq::<TransactionView>::empty(),
    {
        self.interface.take_pending()
    }

    fn use_full_frame(&mut self)
        ensures
            final(self).pending() == old(self).pending() + full_frame_ops(),
    {
        // choose full frame/ram
        self.set_ram_area(0, 0, WIDTH as u32 - 1, HEIGHT as u32 - 1);
        // start from the beginning
        self.set_ram_counter(0, 0);
        proof {
            assert(final(self).pending() =~= old(self).pending() + full_frame_ops());
        }
    }

    /// A window whose start is not before its end on either axis is a caller's
    /// error, ruled out by the precondition.
    fn set_ram_area(&mut self, start_x: u32, start_y: u32, end_x: u32, end_y: u32)
        requires
            start_x < end_x,
            start_y < end_y,
        ensures
            final(self).pending() == old(self).pending() + ram_area_ops(start_x, start_y, end_x, end_y),
    {
        self.interface.cmd_with_data(
            Cmd::SET_RAMXPOS,
            &[#[verifier::truncate] ((start_x >> 3) as u8), #[verifier::truncate] ((end_x >> 3) as u8)],
        );
        self.interface.cmd_with_data(
            Cmd::SET_RAMYPOS,
            &[
                #[verifier::truncate] (start_y as u8),
                #[verifier::truncate] ((start_y >> 8) as u8),
                #[verifier::truncate] (end_y as u8),
                #[verifier::truncate] ((end_y >> 8) as u8),
            ],
        );
        proof {
            assert(final(self).pending() =~= old(self).pending() + ram_area_ops(start_x, start_y, end_x, end_y));
        }
    }

    fn set_ram_counter(&mut self, x: u32, y: u32)
        ensures
            final(self).pending() == old(self).pending() + ram_counter_ops(x, y),
    {
        // x is positioned in bytes, so the last 3 bits which show the position inside a byte in the ram
        // aren't relevant
        let xs = [#[verifier::truncate] ((x >> 3) as u8)];
        assert(xs@ == seq![(x >> 3u32) as u8]);
        self.interface.cmd_with_data(Cmd::SET_RAMXCOUNT, &xs);
        // 2 Databytes: A[7:0] & 0..A[8]
        self.interface.cmd_with_data(Cmd::SET_RAMYCOUNT, &[#[verifier::truncate] (y as u8), #[verifier::truncate] ((y >> 8) as u8)]);
        proof {
            assert(final(self).pending() =~= old(self).pending() + ram_counter_ops(x, y));
        }
    }
}

} // verus!
