//! Read-only status registers, their fields, and the chip's machine states.
use vstd::prelude::*;

verus! {

/// The status registers that the driver core reads. They share their
/// addresses with strobe commands and are told apart by the burst bit of the
/// header, so they are always read with the burst access mode.
#[derive(Clone, Copy, Debug, PartialEq, Eq, Structural)]
pub enum Register {
    PARTNUM,
    VERSION,
    LQI,
    RSSI,
    MARCSTATE,
    RXBYTES,
}

impl Register {
    /// The address of the register in the status space.
    pub open spec fn spec_addr(self) -> u8 {
        match self {
            Register::PARTNUM => 0x30,
            Register::VERSION => 0x31,
            Register::LQI => 0x33,
            Register::RSSI => 0x34,
            Register::MARCSTATE => 0x35,
            Register::RXBYTES => 0x3B,
        }
    }

    /// The address of the register in the status space.
    #[verifier::when_used_as_spec(spec_addr)]
    pub fn addr(self) -> (r: u8)
        ensures
            r == self.spec_addr(),
            0x30 <= r < 0x40,
    {
        match self {
            Register::PARTNUM => 0x30,
            Register::VERSION => 0x31,
            Register::LQI => 0x33,
            Register::RSSI => 0x34,
            Register::MARCSTATE => 0x35,
            Register::RXBYTES => 0x3B,
        }
    }
}

/// MARCSTATE[4:0]: the main radio control state.
pub open spec fn spec_marc_state(byte: u8) -> u8 {
    byte & 0x1F
}

/// RXBYTES[6:0]: the number of bytes in the receive FIFO.
pub open spec fn spec_num_rxbytes(byte: u8) -> u8 {
    byte & 0x7F
}

/// RXBYTES[7]: the receive FIFO has overflowed.
pub open spec fn spec_rxfifo_overflow(byte: u8) -> bool {
    byte & 0x80 != 0
}

/// MARCSTATE[4:0]: the main radio control state.
#[verifier::when_used_as_spec(spec_marc_state)]
pub fn marc_state(byte: u8) -> (r: u8)
    ensures
        r == spec_marc_state(byte),
{
    byte & 0x1F
}

/// RXBYTES[6:0]: the number of bytes in the receive FIFO.
#[verifier::when_used_as_spec(spec_num_rxbytes)]
pub fn num_rxbytes(byte: u8) -> (r: u8)
    ensures
        r == spec_num_rxbytes(byte),
{
    byte & 0x7F
}

/// RXBYTES[7]: the receive FIFO has overflowed.
#[verifier::when_used_as_spec(spec_rxfifo_overflow)]
pub fn rxfifo_overflow(byte: u8) -> (r: bool)
    ensures
        r == spec_rxfifo_overflow(byte),
{
    byte & 0x80 != 0
}

/// The states of the chip's main radio control state machine.
#[allow(non_camel_case_types)]
#[derive(Clone, Copy, Debug, PartialEq, Eq, Structural)]
pub enum MachineState {
    SLEEP,
    IDLE,
    XOFF,
    VCOON_MC,
    REGON_MC,
    MANCAL,
    VCOON,
    REGON,
    STARTCAL,
    BWBOOST,
    FS_LOCK,
    IFADCON,
    ENDCAL,
    RX,
    RX_END,
    RX_RST,
    TXRX_SWITCH,
    RXFIFO_OVERFLOW,
    FSTXON,
    TX,
    TX_END,
    RXTX_SWITCH,
    TXFIFO_UNDERFLOW,
}

impl MachineState {
    /// The code that MARCSTATE reports for the state.
    pub open spec fn spec_value(&self) -> u8 {
        match self {
            MachineState::SLEEP => 0x00,
            MachineState::IDLE => 0x01,
            MachineState::XOFF => 0x02,
            MachineState::VCOON_MC => 0x03,
            MachineState::REGON_MC => 0x04,
            MachineState::MANCAL => 0x05,
            MachineState::VCOON => 0x06,
            MachineState::REGON => 0x07,
            MachineState::STARTCAL => 0x08,
            MachineState::BWBOOST => 0x09,
            MachineState::FS_LOCK => 0x0A,
            MachineState::IFADCON => 0x0B,
            MachineState::ENDCAL => 0x0C,
            MachineState::RX => 0x0D,
            MachineState::RX_END => 0x0E,
            MachineState::RX_RST => 0x0F,
            MachineState::TXRX_SWITCH => 0x10,
            MachineState::RXFIFO_OVERFLOW => 0x11,
            MachineState::FSTXON => 0x12,
            MachineState::TX => 0x13,
            MachineState::TX_END => 0x14,
            MachineState::RXTX_SWITCH => 0x15,
            MachineState::TXFIFO_UNDERFLOW => 0x16,
        }
    }

    /// The code that MARCSTATE reports for the state.
    #[verifier::when_used_as_spec(spec_value)]
    pub fn value(&self) -> (r: u8)
        ensures
            r == self.spec_value(),
    {
        match self {
            MachineState::SLEEP => 0x00,
            MachineState::IDLE => 0x01,
            MachineState::XOFF => 0x02,
            MachineState::VCOON_MC => 0x03,
            MachineState::REGON_MC => 0x04,
            MachineState::MANCAL => 0x05,
            MachineState::VCOON => 0x06,
            MachineState::REGON => 0x07,
            MachineState::STARTCAL => 0x08,
            MachineState::BWBOOST => 0x09,
            MachineState::FS_LOCK => 0x0A,
            MachineState::IFADCON => 0x0B,
            MachineState::ENDCAL => 0x0C,
            MachineState::RX => 0x0D,
            MachineState::RX_END => 0x0E,
            MachineState::RX_RST => 0x0F,
            MachineState::TXRX_SWITCH => 0x10,
            MachineState::RXFIFO_OVERFLOW => 0x11,
            MachineState::FSTXON => 0x12,
            MachineState::TX => 0x13,
            MachineState::TX_END => 0x14,
            MachineState::RXTX_SWITCH => 0x15,
            MachineState::TXFIFO_UNDERFLOW => 0x16,
        }
    }
}

} // verus!
