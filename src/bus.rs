//! The serial bus seen by the driver: capabilities it is handed, the header
//! byte of each access, strobe commands, and a model of what goes on the wire.
use vstd::prelude::*;

verus! {

/// A full-duplex serial bus that moves bytes, supplied by the caller.
pub trait Spi {
    /// What a failed transfer reports.
    type Error;

    /// Sends `words` and replaces each of them with the byte received in its place.
    /// A slice keeps its length, which is all the driver assumes of an implementation.
    fn transfer(&mut self, words: &mut [u8]) -> (r: Result<(), Self::Error>)
        ensures
            final(words)@.len() == old(words)@.len(),
    ;

    /// Sends `words`, ignoring the bytes that come back.
    fn write(&mut self, words: &[u8]) -> (r: Result<(), Self::Error>);
}

/// The chip-select line of the device, supplied by the caller.
pub trait ChipSelect {
    /// Drives the line low, which selects the device.
    fn set_low(&mut self);

    /// Drives the line high, which releases the device.
    fn set_high(&mut self);
}

/// The access mode bits of a header byte.
#[allow(non_camel_case_types)]
#[derive(Clone, Copy, Debug, PartialEq, Eq, Structural)]
pub enum Access {
    /// Write a single byte.
    WRITE_SINGLE,
    /// Write a burst of bytes.
    WRITE_BURST,
    /// Read a single byte.
    READ_SINGLE,
    /// Read a burst of bytes.
    READ_BURST,
}

impl Access {
    /// The bits that the mode sets in a header byte.
    pub open spec fn spec_offset(&self) -> u8 {
        match self {
            Access::WRITE_SINGLE => 0x00,
            Access::WRITE_BURST => 0x40,
            Access::READ_SINGLE => 0x80,
            Access::READ_BURST => 0xC0,
        }
    }

    /// The bits that the mode sets in a header byte.
    #[verifier::when_used_as_spec(spec_offset)]
    pub fn offset(&self) -> (r: u8)
        ensures
            r == self.spec_offset(),
    {
        match self {
            Access::WRITE_SINGLE => 0x00,
            Access::WRITE_BURST => 0x40,
            Access::READ_SINGLE => 0x80,
            Access::READ_BURST => 0xC0,
        }
    }
}

/// Strobe commands, and the two addresses reached by burst access.
#[derive(Clone, Copy, Debug, PartialEq, Eq, Structural)]
pub enum Command {
    /// Reset the chip.
    SRES,
    /// Enable and calibrate the frequency synthesizer.
    SFSTXON,
    /// Turn off the crystal oscillator.
    SXOFF,
    /// Calibrate the frequency synthesizer and turn it off.
    SCAL,
    /// Enable receive.
    SRX,
    /// Enable transmit.
    STX,
    /// Leave receive or transmit.
    SIDLE,
    /// Frequency offset compensation.
    SAFC,
    /// Start the automatic receive polling sequence.
    SWOR,
    /// Enter power-down when the chip is released.
    SPWD,
    /// Flush the receive FIFO.
    SFRX,
    /// Flush the transmit FIFO.
    SFTX,
    /// Reset the real-time clock.
    SWORRST,
    /// No operation.
    SNOP,
    /// The power amplifier table.
    PATABLE,
    /// The FIFOs.
    FIFO,
}

impl Command {
    /// The opcode of the command.
    pub open spec fn spec_addr(self) -> u8 {
        match self {
            Command::SRES => 0x30,
            Command::SFSTXON => 0x31,
            Command::SXOFF => 0x32,
            Command::SCAL => 0x33,
            Command::SRX => 0x34,
            Command::STX => 0x35,
            Command::SIDLE => 0x36,
            Command::SAFC => 0x37,
            Command::SWOR => 0x38,
            Command::SPWD => 0x39,
            Command::SFRX => 0x3A,
            Command::SFTX => 0x3B,
            Command::SWORRST => 0x3C,
            Command::SNOP => 0x3D,
            Command::PATABLE => 0x3E,
            Command::FIFO => 0x3F,
        }
    }

    /// The opcode of the command.
    #[verifier::when_used_as_spec(spec_addr)]
    pub fn addr(self) -> (r: u8)
        ensures
            r == self.spec_addr(),
            0x30 <= r < 0x40,
    {
        match self {
            Command::SRES => 0x30,
            Command::SFSTXON => 0x31,
            Command::SXOFF => 0x32,
            Command::SCAL => 0x33,
            Command::SRX => 0x34,
            Command::STX => 0x35,
            Command::SIDLE => 0x36,
            Command::SAFC => 0x37,
            Command::SWOR => 0x38,
            Command::SPWD => 0x39,
            Command::SFRX => 0x3A,
            Command::SFTX => 0x3B,
            Command::SWORRST => 0x3C,
            Command::SNOP => 0x3D,
            Command::PATABLE => 0x3E,
            Command::FIFO => 0x3F,
        }
    }
}

/// One step of the driver on the bus, as the driver performed it.
pub enum BusEvent {
    /// The chip-select line was driven low.
    Select,
    /// The chip-select line was driven high.
    Deselect,
    /// These bytes were sent, what came back ignored; the flag tells whether
    /// the bus reported success.
    Write(Seq<u8>, bool),
    /// The first bytes were sent and the second came back in their place; the
    /// flag tells whether the bus reported success.
    Transfer(Seq<u8>, Seq<u8>, bool),
}

/// A transaction that sends `bytes` and ignores the reply; `ok` tells whether
/// the bus reported success.
pub open spec fn write_attempt(bytes: Seq<u8>, ok: bool) -> Seq<BusEvent> {
    seq![BusEvent::Select, BusEvent::Write(bytes, ok), BusEvent::Deselect]
}

/// `t` is one transaction that sends `bytes` and ignores the reply, whatever
/// the bus reported.
pub open spec fn is_write_of(t: Seq<BusEvent>, bytes: Seq<u8>) -> bool {
    t == write_attempt(bytes, txn_ok(t))
}

/// A transaction that sends `bytes`, ignores the reply, and succeeds.
pub open spec fn write_txn(bytes: Seq<u8>) -> Seq<BusEvent> {
    write_attempt(bytes, true)
}

/// A strobe: a transaction of the opcode alone.
pub open spec fn strobe_txn(opcode: u8) -> Seq<BusEvent> {
    write_txn(seq![opcode])
}

/// A single-register write: header and value in one transaction.
pub open spec fn register_write_txn(addr: u8, value: u8) -> Seq<BusEvent> {
    write_txn(seq![addr | Access::WRITE_SINGLE.spec_offset(), value])
}

/// `t` is one transaction that sends `sent` and receives as many bytes back.
pub open spec fn is_transfer_txn(t: Seq<BusEvent>, sent: Seq<u8>) -> bool {
    &&& t.len() == 3
    &&& t[0] == BusEvent::Select
    &&& t[2] == BusEvent::Deselect
    &&& t[1] is Transfer
    &&& t[1]->Transfer_0 == sent
    &&& t[1]->Transfer_1.len() == sent.len()
}

/// `t` is one single-byte read: the header, then a dummy byte.
pub open spec fn is_read_txn(t: Seq<BusEvent>, header: u8) -> bool {
    is_transfer_txn(t, seq![header, 0u8])
}

/// The byte that came back last in a transfer transaction.
pub open spec fn reply_of(t: Seq<BusEvent>) -> u8 {
    t[1]->Transfer_1.last()
}

/// What was added to a trace after its first `n` events.
pub open spec fn since(t: Seq<BusEvent>, n: int) -> Seq<BusEvent> {
    t.subrange(n, t.len() as int)
}

/// The `i`-th transaction of a run of three-event transactions.
pub open spec fn txn_at(t: Seq<BusEvent>, i: int) -> Seq<BusEvent> {
    t.subrange(3 * i, 3 * i + 3)
}

/// `t` is one transaction: the device selected, one exchange of bytes, the device released.
pub open spec fn is_txn(t: Seq<BusEvent>) -> bool {
    &&& t.len() == 3
    &&& t[0] == BusEvent::Select
    &&& t[2] == BusEvent::Deselect
    &&& (t[1] is Write || t[1] is Transfer)
}

/// `s` is whole transactions one after another, so the device is released
/// after each of them.
pub open spec fn framed(s: Seq<BusEvent>) -> bool {
    &&& s.len() % 3 == 0
    &&& forall|i: int| 0 <= i < s.len() / 3 ==> is_txn(#[trigger] txn_at(s, i))
}

/// One transaction is framed.
pub proof fn lemma_txn_framed(t: Seq<BusEvent>)
    requires
        is_txn(t),
    ensures
        framed(t),
{
    assert(txn_at(t, 0) =~= t);
}

/// Framed runs put one after the other stay framed.
pub proof fn lemma_framed_concat(a: Seq<BusEvent>, b: Seq<BusEvent>)
    requires
        framed(a),
        framed(b),
    ensures
        framed(a + b),
{
    let s = a + b;
    let n = a.len() / 3;
    assert forall|i: int| 0 <= i < s.len() / 3 implies is_txn(#[trigger] txn_at(s, i)) by {
        if i < n {
            assert(txn_at(s, i) =~= txn_at(a, i));
        } else {
            assert(txn_at(s, i) =~= txn_at(b, i - n));
        }
    }
}

/// The bus reported success for the exchange of transaction `t`.
pub open spec fn txn_ok(t: Seq<BusEvent>) -> bool {
    match t[1] {
        BusEvent::Write(_, ok) => ok,
        BusEvent::Transfer(_, _, ok) => ok,
        _ => false,
    }
}

/// Every exchange of the transactions in `s` succeeded.
pub open spec fn all_ok(s: Seq<BusEvent>) -> bool {
    forall|i: int| 0 <= i < s.len() / 3 ==> txn_ok(#[trigger] txn_at(s, i))
}

/// The last exchange of the transactions in `s` failed, and only that one.
pub open spec fn failed_last(s: Seq<BusEvent>) -> bool {
    &&& s.len() / 3 >= 1
    &&& forall|i: int| 0 <= i < s.len() / 3 - 1 ==> txn_ok(#[trigger] txn_at(s, i))
    &&& !txn_ok(txn_at(s, s.len() / 3 - 1))
}

/// Outcomes of framed runs put one after the other: all succeeded if both did,
/// and only the last failed if only the second run's last did.
pub proof fn lemma_outcome_concat(a: Seq<BusEvent>, b: Seq<BusEvent>)
    requires
        framed(a),
        framed(b),
    ensures
        all_ok(a) && all_ok(b) ==> all_ok(a + b),
        all_ok(a) && failed_last(b) ==> failed_last(a + b),
{
    let s = a + b;
    let n = a.len() / 3;
    assert forall|i: int| 0 <= i < s.len() / 3 implies #[trigger] txn_at(s, i) == (if i < n {
        txn_at(a, i)
    } else {
        txn_at(b, i - n)
    }) by {
        if i < n {
            assert(txn_at(s, i) =~= txn_at(a, i));
        } else {
            assert(txn_at(s, i) =~= txn_at(b, i - n));
        }
    }
}

/// One transaction succeeded or failed as its exchange did.
pub proof fn lemma_txn_outcome(t: Seq<BusEvent>)
    requires
        is_txn(t),
    ensures
        txn_ok(t) ==> all_ok(t),
        !txn_ok(t) ==> failed_last(t),
{
    assert(txn_at(t, 0) =~= t);
}

} // verus!
