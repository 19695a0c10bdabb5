//! Configuration registers (read/write) and their bitfields.
use vstd::prelude::*;

verus! {

/// The configuration registers that the driver core uses.
#[derive(Clone, Copy, Debug, PartialEq, Eq, Structural)]
pub enum Register {
    SYNC1,
    SYNC0,
    PKTLEN,
    PKTCTRL1,
    PKTCTRL0,
    ADDR,
    FSCTRL1,
    FREQ2,
    FREQ1,
    FREQ0,
    MDMCFG4,
    MDMCFG3,
    MDMCFG2,
    DEVIATN,
    MCSM0,
    AGCCTRL2,
}

impl Register {
    /// The address of the register in the configuration space.
    pub open spec fn spec_addr(self) -> u8 {
        match self {
            Register::SYNC1 => 0x04,
            Register::SYNC0 => 0x05,
            Register::PKTLEN => 0x06,
            Register::PKTCTRL1 => 0x07,
            Register::PKTCTRL0 => 0x08,
            Register::ADDR => 0x09,
            Register::FSCTRL1 => 0x0B,
            Register::FREQ2 => 0x0D,
            Register::FREQ1 => 0x0E,
            Register::FREQ0 => 0x0F,
            Register::MDMCFG4 => 0x10,
            Register::MDMCFG3 => 0x11,
            Register::MDMCFG2 => 0x12,
            Register::DEVIATN => 0x15,
            Register::MCSM0 => 0x18,
            Register::AGCCTRL2 => 0x1B,
        }
    }

    /// The value the register holds after a chip reset.
    pub open spec fn spec_reset(self) -> u8 {
        match self {
            Register::SYNC1 => 0xD3,
            Register::SYNC0 => 0x91,
            Register::PKTLEN => 0xFF,
            Register::PKTCTRL1 => 0x04,
            Register::PKTCTRL0 => 0x45,
            Register::ADDR => 0x00,
            Register::FSCTRL1 => 0x0F,
            Register::FREQ2 => 0x1E,
            Register::FREQ1 => 0xC4,
            Register::FREQ0 => 0xEC,
            Register::MDMCFG4 => 0x8C,
            Register::MDMCFG3 => 0x22,
            Register::MDMCFG2 => 0x02,
            Register::DEVIATN => 0x47,
            Register::MCSM0 => 0x04,
            Register::AGCCTRL2 => 0x03,
        }
    }

    /// The address of the register in the configuration space.
    #[verifier::when_used_as_spec(spec_addr)]
    pub fn addr(self) -> (r: u8)
        ensures
            r == self.spec_addr(),
            r < 0x30,
    {
        match self {
            Register::SYNC1 => 0x04,
            Register::SYNC0 => 0x05,
            Register::PKTLEN => 0x06,
            Register::PKTCTRL1 => 0x07,
            Register::PKTCTRL0 => 0x08,
            Register::ADDR => 0x09,
            Register::FSCTRL1 => 0x0B,
            Register::FREQ2 => 0x0D,
            Register::FREQ1 => 0x0E,
            Register::FREQ0 => 0x0F,
            Register::MDMCFG4 => 0x10,
            Register::MDMCFG3 => 0x11,
            Register::MDMCFG2 => 0x12,
            Register::DEVIATN => 0x15,
            Register::MCSM0 => 0x18,
            Register::AGCCTRL2 => 0x1B,
        }
    }

    /// The value the register holds after a chip reset.
    #[verifier::when_used_as_spec(spec_reset)]
    pub fn reset_value(self) -> (r: u8)
        ensures
            r == self.spec_reset(),
    {
        match self {
            Register::SYNC1 => 0xD3,
            Register::SYNC0 => 0x91,
            Register::PKTLEN => 0xFF,
            Register::PKTCTRL1 => 0x04,
            Register::PKTCTRL0 => 0x45,
            Register::ADDR => 0x00,
            Register::FSCTRL1 => 0x0F,
            Register::FREQ2 => 0x1E,
            Register::FREQ1 => 0xC4,
            Register::FREQ0 => 0xEC,
            Register::MDMCFG4 => 0x8C,
            Register::MDMCFG3 => 0x22,
            Register::MDMCFG2 => 0x02,
            Register::DEVIATN => 0x47,
            Register::MCSM0 => 0x04,
            Register::AGCCTRL2 => 0x03,
        }
    }
}

/// A named bitfield of a configuration register.
#[derive(Clone, Copy, Debug, PartialEq, Eq, Structural)]
pub enum Field {
    /// MDMCFG2[2:0]: sync-word qualifier mode.
    SyncMode,
    /// MDMCFG2[6:4]: modulation format.
    ModFormat,
    /// MDMCFG2[7]: disables the digital DC-blocking filter.
    DemDcfiltOff,
    /// PKTCTRL1[1:0]: address check of received packets.
    AdrChk,
    /// PKTCTRL0[1:0]: packet length configuration.
    LengthConfig,
    /// PKTCTRL0[6]: data whitening.
    WhiteData,
    /// FSCTRL1[4:0]: intermediate frequency.
    FreqIf,
    /// MDMCFG4[7:6]: channel bandwidth exponent.
    ChanbwE,
    /// MDMCFG4[5:4]: channel bandwidth mantissa.
    ChanbwM,
    /// MDMCFG4[3:0]: data rate exponent.
    DrateE,
    /// MDMCFG3[7:0]: data rate mantissa.
    DrateM,
    /// DEVIATN[6:4]: deviation exponent.
    DeviationE,
    /// DEVIATN[2:0]: deviation mantissa.
    DeviationM,
    /// MCSM0[5:4]: automatic calibration.
    FsAutocal,
    /// AGCCTRL2[5:3]: maximum LNA gain reduction.
    MaxLnaGain,
}

/// `byte` with the bits under `mask << offset` replaced by `value << offset`.
pub open spec fn insert_bits(byte: u8, offset: u8, mask: u8, value: u8) -> u8 {
    (byte & !((mask << offset) as u8)) | ((value << offset) as u8)
}

/// The bits of `byte` under `mask << offset`, shifted down.
pub open spec fn extract_bits(byte: u8, offset: u8, mask: u8) -> u8 {
    (byte >> offset) & mask
}

impl Field {
    /// Position of the lowest bit of the field, and the mask of its width.
    pub open spec fn spec_layout(self) -> (u8, u8) {
        match self {
            Field::SyncMode => (0, 0x07),
            Field::ModFormat => (4, 0x07),
            Field::DemDcfiltOff => (7, 0x01),
            Field::AdrChk => (0, 0x03),
            Field::LengthConfig => (0, 0x03),
            Field::WhiteData => (6, 0x01),
            Field::FreqIf => (0, 0x1F),
            Field::ChanbwE => (6, 0x03),
            Field::ChanbwM => (4, 0x03),
            Field::DrateE => (0, 0x0F),
            Field::DrateM => (0, 0xFF),
            Field::DeviationE => (4, 0x07),
            Field::DeviationM => (0, 0x07),
            Field::FsAutocal => (4, 0x03),
            Field::MaxLnaGain => (3, 0x07),
        }
    }

    /// The largest value the field can hold.
    pub open spec fn max(self) -> u8 {
        self.spec_layout().1
    }

    /// `byte` with this field set to `value`.
    pub open spec fn spec_insert(self, byte: u8, value: u8) -> u8 {
        insert_bits(byte, self.spec_layout().0, self.spec_layout().1, value)
    }

    /// The value of this field in `byte`.
    pub open spec fn spec_extract(self, byte: u8) -> u8 {
        extract_bits(byte, self.spec_layout().0, self.spec_layout().1)
    }

    /// Position of the lowest bit of the field, and the mask of its width.
    #[verifier::when_used_as_spec(spec_layout)]
    pub fn layout(self) -> (r: (u8, u8))
        ensures
            r == self.spec_layout(),
    {
        match self {
            Field::SyncMode => (0, 0x07),
            Field::ModFormat => (4, 0x07),
            Field::DemDcfiltOff => (7, 0x01),
            Field::AdrChk => (0, 0x03),
            Field::LengthConfig => (0, 0x03),
            Field::WhiteData => (6, 0x01),
            Field::FreqIf => (0, 0x1F),
            Field::ChanbwE => (6, 0x03),
            Field::ChanbwM => (4, 0x03),
            Field::DrateE => (0, 0x0F),
            Field::DrateM => (0, 0xFF),
            Field::DeviationE => (4, 0x07),
            Field::DeviationM => (0, 0x07),
            Field::FsAutocal => (4, 0x03),
            Field::MaxLnaGain => (3, 0x07),
        }
    }

    /// Returns `byte` with this field set to `value`, leaving the other bits as they are.
    #[verifier::when_used_as_spec(spec_insert)]
    pub fn insert(self, byte: u8, value: u8) -> (r: u8)
        requires
            value <= self.max(),
        ensures
            r == self.spec_insert(byte, value),
    {
        let (offset, mask) = self.layout();
        (byte & !(mask << offset)) | (value << offset)
    }

    /// Returns the value of this field in `byte`.
    #[verifier::when_used_as_spec(spec_extract)]
    pub fn extract(self, byte: u8) -> (r: u8)
        ensures
            r == self.spec_extract(byte),
            r <= self.max(),
    {
        let (offset, mask) = self.layout();
        let r = (byte >> offset) & mask;
        assert((byte >> offset) & mask <= mask) by (bit_vector);
        r
    }
}

/// Setting a field and reading it back gives the value that was set, and
/// setting it leaves every bit outside the field as it was.
pub proof fn lemma_field_insert_extract(field: Field, byte: u8, value: u8)
    requires
        value <= field.max(),
    ensures
        field.spec_extract(field.spec_insert(byte, value)) == value,
        field.spec_insert(byte, value) & !((field.spec_layout().1 << field.spec_layout().0) as u8)
            == byte & !((field.spec_layout().1 << field.spec_layout().0) as u8),
{
    let (offset, mask) = field.spec_layout();
    let known = (offset == 0 && mask == 7) || (offset == 4 && mask == 7) || (offset == 7 && mask
        == 1) || (offset == 0 && mask == 3) || (offset == 6 && mask == 1) || (offset == 0 && mask
        == 31) || (offset == 6 && mask == 3) || (offset == 4 && mask == 3) || (offset == 0 && mask
        == 15) || (offset == 0 && mask == 255) || (offset == 3 && mask == 7);
    assert(known);
    let ins = insert_bits(byte, offset, mask, value);
    assert(ins == (byte & !(mask << offset)) | (value << offset));
    assert(((((byte & !(mask << offset)) | (value << offset)) >> offset) & mask) == value && ((
    byte & !(mask << offset)) | (value << offset)) & !(mask << offset) == byte & !(mask << offset))
        by (bit_vector)
        requires
            (offset == 0 && mask == 7) || (offset == 4 && mask == 7) || (offset == 7 && mask == 1)
                || (offset == 0 && mask == 3) || (offset == 6 && mask == 1) || (offset == 0 && mask
                == 31) || (offset == 6 && mask == 3) || (offset == 4 && mask == 3) || (offset == 0
                && mask == 15) || (offset == 0 && mask == 255) || (offset == 3 && mask == 7),
            value <= mask,
    ;
}

/// The sync-word qualifier modes (MDMCFG2.SYNC_MODE).
#[allow(non_camel_case_types)]
#[derive(Clone, Copy, Debug, PartialEq, Eq, Structural)]
pub enum SyncCheck {
    DISABLED,
    CHECK_15_16,
    CHECK_16_16,
    CHECK_30_32,
    CHECK_0_0_CS,
    CHECK_15_16_CS,
    CHECK_16_16_CS,
    CHECK_30_32_CS,
}

impl SyncCheck {
    /// The field code of the mode.
    pub open spec fn spec_value(self) -> u8 {
        match self {
            SyncCheck::DISABLED => 0x00,
            SyncCheck::CHECK_15_16 => 0x01,
            SyncCheck::CHECK_16_16 => 0x02,
            SyncCheck::CHECK_30_32 => 0x03,
            SyncCheck::CHECK_0_0_CS => 0x04,
            SyncCheck::CHECK_15_16_CS => 0x05,
            SyncCheck::CHECK_16_16_CS => 0x06,
            SyncCheck::CHECK_30_32_CS => 0x07,
        }
    }

    /// The field code of the mode.
    #[verifier::when_used_as_spec(spec_value)]
    pub fn value(self) -> (r: u8)
        ensures
            r == self.spec_value(),
            r <= Field::SyncMode.max(),
    {
        match self {
            SyncCheck::DISABLED => 0x00,
            SyncCheck::CHECK_15_16 => 0x01,
            SyncCheck::CHECK_16_16 => 0x02,
            SyncCheck::CHECK_30_32 => 0x03,
            SyncCheck::CHECK_0_0_CS => 0x04,
            SyncCheck::CHECK_15_16_CS => 0x05,
            SyncCheck::CHECK_16_16_CS => 0x06,
            SyncCheck::CHECK_30_32_CS => 0x07,
        }
    }
}

/// The address check modes (PKTCTRL1.ADR_CHK).
#[allow(non_camel_case_types)]
#[derive(Clone, Copy, Debug, PartialEq, Eq, Structural)]
pub enum AddressCheck {
    DISABLED,
    SELF,
    SELF_LOW_BROADCAST,
    SELF_HIGH_LOW_BROADCAST,
}

impl AddressCheck {
    /// The field code of the mode.
    pub open spec fn spec_value(self) -> u8 {
        match self {
            AddressCheck::DISABLED => 0x00,
            AddressCheck::SELF => 0x01,
            AddressCheck::SELF_LOW_BROADCAST => 0x02,
            AddressCheck::SELF_HIGH_LOW_BROADCAST => 0x03,
        }
    }

    /// The field code of the mode.
    #[verifier::when_used_as_spec(spec_value)]
    pub fn value(self) -> (r: u8)
        ensures
            r == self.spec_value(),
            r <= Field::AdrChk.max(),
    {
        match self {
            AddressCheck::DISABLED => 0x00,
            AddressCheck::SELF => 0x01,
            AddressCheck::SELF_LOW_BROADCAST => 0x02,
            AddressCheck::SELF_HIGH_LOW_BROADCAST => 0x03,
        }
    }
}

/// The packet length configurations (PKTCTRL0.LENGTH_CONFIG).
#[derive(Clone, Copy, Debug, PartialEq, Eq, Structural)]
pub enum LengthConfig {
    FIXED,
    VARIABLE,
    INFINITE,
}

impl LengthConfig {
    /// The field code of the configuration.
    pub open spec fn spec_value(self) -> u8 {
        match self {
            LengthConfig::FIXED => 0x00,
            LengthConfig::VARIABLE => 0x01,
            LengthConfig::INFINITE => 0x02,
        }
    }

    /// The field code of the configuration.
    #[verifier::when_used_as_spec(spec_value)]
    pub fn value(self) -> (r: u8)
        ensures
            r == self.spec_value(),
            r <= Field::LengthConfig.max(),
    {
        match self {
            LengthConfig::FIXED => 0x00,
            LengthConfig::VARIABLE => 0x01,
            LengthConfig::INFINITE => 0x02,
        }
    }
}

/// The automatic calibration policies (MCSM0.FS_AUTOCAL).
#[allow(non_camel_case_types)]
#[derive(Clone, Copy, Debug, PartialEq, Eq, Structural)]
pub enum AutoCalibration {
    DISABLED,
    FROM_IDLE,
    TO_IDLE,
    TO_IDLE_EVERY_4TH,
}

impl AutoCalibration {
    /// The field code of the policy.
    pub open spec fn spec_value(self) -> u8 {
        match self {
            AutoCalibration::DISABLED => 0x00,
            AutoCalibration::FROM_IDLE => 0x01,
            AutoCalibration::TO_IDLE => 0x02,
            AutoCalibration::TO_IDLE_EVERY_4TH => 0x03,
        }
    }

    /// The field code of the policy.
    #[verifier::when_used_as_spec(spec_value)]
    pub fn value(self) -> (r: u8)
        ensures
            r == self.spec_value(),
            r <= Field::FsAutocal.max(),
    {
        match self {
            AutoCalibration::DISABLED => 0x00,
            AutoCalibration::FROM_IDLE => 0x01,
            AutoCalibration::TO_IDLE => 0x02,
            AutoCalibration::TO_IDLE_EVERY_4TH => 0x03,
        }
    }
}

} // verus!
