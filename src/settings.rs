//! The configuration choices that the driver offers, and the register values each one sets.
use vstd::prelude::*;
use crate::config;
use crate::config::Field;

verus! {

/// Modulation formats (MDMCFG2.MOD_FORMAT).
#[derive(Clone, Copy, Debug, PartialEq, Eq, Structural)]
pub enum Modulation {
    BinaryFrequencyShiftKeying,
    GaussianFrequencyShiftKeying,
    OnOffKeying,
    FourFrequencyShiftKeying,
    MinimumShiftKeying,
}

impl Modulation {
    /// The field code of the format.
    pub open spec fn spec_value(self) -> u8 {
        match self {
            Modulation::BinaryFrequencyShiftKeying => 0b000,
            Modulation::GaussianFrequencyShiftKeying => 0b001,
            Modulation::OnOffKeying => 0b011,
            Modulation::FourFrequencyShiftKeying => 0b100,
            Modulation::MinimumShiftKeying => 0b111,
        }
    }

    /// The field code of the format.
    #[verifier::when_used_as_spec(spec_value)]
    pub fn value(self) -> (r: u8)
        ensures
            r == self.spec_value(),
            r <= Field::ModFormat.max(),
    {
        match self {
            Modulation::BinaryFrequencyShiftKeying => 0b000,
            Modulation::GaussianFrequencyShiftKeying => 0b001,
            Modulation::OnOffKeying => 0b011,
            Modulation::FourFrequencyShiftKeying => 0b100,
            Modulation::MinimumShiftKeying => 0b111,
        }
    }
}

/// Packet length modes.
#[derive(Clone, Copy, Debug, PartialEq, Eq, Structural)]
pub enum PacketLength {
    /// Every packet has this length.
    Fixed(u8),
    /// The length is the first byte of the packet, up to this maximum.
    Variable(u8),
    /// No length: the packet runs until the mode is changed.
    Infinite,
}

/// Address filtering of received packets.
#[derive(Clone, Copy, Debug, PartialEq, Eq, Structural)]
pub enum AddressFilter {
    Disabled,
    /// Accept packets for this address.
    Device(u8),
    /// Accept packets for this address and the broadcast address 0x00.
    DeviceLowBroadcast(u8),
    /// Accept packets for this address and the broadcast addresses 0x00 and 0xFF.
    DeviceHighLowBroadcast(u8),
}

/// The operating modes that the driver moves the radio into.
#[derive(Clone, Copy, Debug, PartialEq, Eq, Structural)]
pub enum RadioMode {
    Receive,
    Transmit,
    Idle,
}

/// Sync word qualification.
#[derive(Clone, Copy, Debug, PartialEq, Eq, Structural)]
pub enum SyncMode {
    Disabled,
    /// Accept 15 of the 16 bits of this sync word.
    MatchPartial(u16),
    /// Accept 30 of 32 bits of this sync word sent twice.
    MatchPartialRepeated(u16),
    /// Accept all 16 bits of this sync word.
    MatchFull(u16),
}

/// The qualifier mode and the sync word that a sync mode sets; a disabled
/// check keeps the reset word.
pub open spec fn sync_setting(mode: SyncMode) -> (config::SyncCheck, u16) {
    match mode {
        SyncMode::Disabled => (
            config::SyncCheck::DISABLED,
            ((config::Register::SYNC1.spec_reset() as int) * 256
                + config::Register::SYNC0.spec_reset() as int) as u16,
        ),
        SyncMode::MatchPartial(word) => (config::SyncCheck::CHECK_15_16, word),
        SyncMode::MatchPartialRepeated(word) => (config::SyncCheck::CHECK_30_32, word),
        SyncMode::MatchFull(word) => (config::SyncCheck::CHECK_16_16, word),
    }
}

/// The check mode and the address that an address filter sets; a disabled
/// filter keeps the reset address.
pub open spec fn address_setting(filter: AddressFilter) -> (config::AddressCheck, u8) {
    match filter {
        AddressFilter::Disabled => (config::AddressCheck::DISABLED, config::Register::ADDR.spec_reset()),
        AddressFilter::Device(a) => (config::AddressCheck::SELF, a),
        AddressFilter::DeviceLowBroadcast(a) => (config::AddressCheck::SELF_LOW_BROADCAST, a),
        AddressFilter::DeviceHighLowBroadcast(a) => (config::AddressCheck::SELF_HIGH_LOW_BROADCAST, a),
    }
}

/// The length configuration and PKTLEN value that a packet length mode sets;
/// an infinite length keeps the reset PKTLEN.
pub open spec fn length_setting(length: PacketLength) -> (config::LengthConfig, u8) {
    match length {
        PacketLength::Fixed(limit) => (config::LengthConfig::FIXED, limit),
        PacketLength::Variable(max) => (config::LengthConfig::VARIABLE, max),
        PacketLength::Infinite => (config::LengthConfig::INFINITE, config::Register::PKTLEN.spec_reset()),
    }
}

} // verus!
