//! Transactions with the panel: command bytes, data payloads and the two timing steps.
use vstd::prelude::*;

verus! {

/// Failures of the bus and the signal lines, as reported by whoever carries out
/// the transactions.
#[derive(Clone, Copy, Debug, PartialEq, Eq, Structural)]
pub enum DisplayError {
    InvalidFormatError,
    BusWriteError,
    DCError,
    CSError,
    DataFormatNotImplemented,
    RSError,
    OutOfBoundsError,
}

/// One step of talking to the panel.
#[derive(Clone, Debug, PartialEq, Eq)]
pub enum Transaction {
    /// Data/command-select at command level, then one byte.
    Command(u8),
    /// Data/command-select at data level, then the bytes.
    Data(Vec<u8>),
    /// Data/command-select at data level, then the byte as many times as given.
    RepeatData(u8, u32),
    /// Reset line low for 10 ms, then high for 10 ms.
    Reset,
    /// Poll the busy line every millisecond until it reads idle.
    WaitUntilIdle,
}

/// What a transaction sends, with its payload as a sequence.
pub enum TransactionView {
    Command(u8),
    Data(Seq<u8>),
    RepeatData(u8, u32),
    Reset,
    WaitUntilIdle,
}

impl View for Transaction {
    type V = TransactionView;

    open spec fn view(&self) -> TransactionView {
        match self {
            Transaction::Command(c) => TransactionView::Command(*c),
            Transaction::Data(d) => TransactionView::Data(d@),
            Transaction::RepeatData(v, n) => TransactionView::RepeatData(*v, *n),
            Transaction::Reset => TransactionView::Reset,
            Transaction::WaitUntilIdle => TransactionView::WaitUntilIdle,
        }
    }
}

/// The transactions of a command followed by its payload.
pub open spec fn cmd_with_data_ops(command: u8, data: Seq<u8>) -> Seq<TransactionView> {
    seq![TransactionView::Command(command), TransactionView::Data(data)]
}

fn copy_bytes(data: &[u8]) -> (r: Vec<u8>)
    ensures
        r@ == data@,
{
    let mut r: Vec<u8> = Vec::with_capacity(data.len());
    let mut i: usize = 0;
    while i < data.len()
        invariant
            i <= data@.len(),
            r@ == data@.take(i as int),
        decreases data@.len() - i,
    {
        r.push(data[i]);
        i = i + 1;
        proof {
            assert(r@ == data@.take(i as int));
        }
    }
    proof {
        assert(data@.take(i as int) == data@);
    }
    r
}

/// Whether to keep waiting after a reading of the busy line (`None`: the reading
/// failed, which counts as busy).
pub fn keep_waiting(reading: Option<bool>) -> (r: bool)
    ensures
        r == (reading != Some(false)),
{
    match reading {
        Some(high) => high,
        None => true,
    }
}

/// The queue of transactions that the driver has issued and that are still to be
/// carried out on the hardware, oldest first.
pub struct DisplayInterface {
    pending: Vec<Transaction>,
}

impl DisplayInterface {
    /// The pending transactions, oldest first.
    pub closed spec fn pending(&self) -> Seq<TransactionView> {
        self.pending@.map_values(|t: Transaction| t@)
    }

    /// An interface with nothing pending.
    pub fn new() -> (r: DisplayInterface)
        ensures
            r.pending() == Seq::<TransactionView>::empty(),
    {
        DisplayInterface { pending: Vec::new() }
    }

    fn push(&mut self, t: Transaction)
        ensures
            final(self).pending() == old(self).pending().push(t@),
    {
        self.pending.push(t);
        proof {
            assert(final(self).pending() =~= old(self).pending().push(t@));
        }
    }

    /// Basic function for sending commands
    pub fn cmd(&mut self, command: u8)
        ensures
            final(self).pending() == old(self).pending().push(TransactionView::Command(command)),
    {
        self.push(Transaction::Command(command));
    }

    /// Basic function for sending an array of u8-values of data
    pub fn data(&mut self, data: &[u8])
        ensures
            final(self).pending() == old(self).pending().push(TransactionView::Data(data@)),
    {
        let bytes = copy_bytes(data);
        self.push(Transaction::Data(bytes));
    }

    /// Basic function for sending a command and the data belonging to it.
    pub fn cmd_with_data(&mut self, command: u8, data: &[u8])
        ensures
            final(self).pending() == old(self).pending() + cmd_with_data_ops(command, data@),
    {
        self.cmd(command);
        self.data(data);
        proof {
            assert(final(self).pending() =~= old(self).pending() + cmd_with_data_ops(command, data@));
        }
    }

    /// Sending the same byte of data `repetitions` times, for filling a whole frame
    /// with one color.
    pub fn data_x_times(&mut self, val: u8, repetitions: u32)
        ensures
            final(self).pending() == old(self).pending().push(TransactionView::RepeatData(val, repetitions)),
    {
        self.push(Transaction::RepeatData(val, repetitions));
    }

    /// Waits until device isn't busy anymore
    pub fn wait_until_idle(&mut self)
        ensures
            final(self).pending() == old(self).pending().push(TransactionView::WaitUntilIdle),
    {
        self.push(Transaction::WaitUntilIdle);
    }

    /// Resets the device.
    pub fn reset(&mut self)
        ensures
            final(self).pending() == old(self).pending().push(TransactionView::Reset),
    {
        self.push(Transaction::Reset);
    }

    /// Hands out the pending transactions, oldest first, and leaves none pending.
    pub fn take_pending(&mut self) -> (r: Vec<Transaction>)
        ensures
            r@.map_values(|t: Transaction| t@) == old(self).pending(),
            final(self).pending() == Seq::<TransactionView>::empty(),
    {
        let mut out: Vec<Transaction> = Vec::new();
        std::mem::swap(&mut out, &mut self.pending);
        proof {
            assert(final(self).pending() =~= Seq::<TransactionView>::empty());
        }
        out
    }
}

} // verus!
