use cc1101::bus::{Access, Command};
use cc1101::config::{Field, Register};
use cc1101::status::{marc_state, num_rxbytes, rxfifo_overflow, MachineState};

#[test]
fn header_bits_of_access_modes() {
    assert_eq!(Access::WRITE_SINGLE.offset(), 0x00);
    assert_eq!(Access::WRITE_BURST.offset(), 0x40);
    assert_eq!(Access::READ_SINGLE.offset(), 0x80);
    assert_eq!(Access::READ_BURST.offset(), 0xC0);
}

#[test]
fn command_opcodes() {
    assert_eq!(Command::SRES.addr(), 0x30);
    assert_eq!(Command::SIDLE.addr(), 0x36);
    assert_eq!(Command::SFRX.addr(), 0x3A);
    assert_eq!(Command::FIFO.addr(), 0x3F);
}

#[test]
fn field_insert_and_extract() {
    assert_eq!(Field::ModFormat.insert(0xFF, 0), 0x8F);
    assert_eq!(Field::ModFormat.extract(0x9A), 0x01);
    assert_eq!(Field::ChanbwE.insert(0x00, 3), 0xC0);
    assert_eq!(Field::MaxLnaGain.insert(0x03, 4), 0x23);
    assert_eq!(Field::DrateM.insert(0x22, 0x83), 0x83);
    assert_eq!(Field::SyncMode.extract(Field::SyncMode.insert(0xA5, 6)), 6);
    assert_eq!(Register::MDMCFG2.addr(), 0x12);
    assert_eq!(Register::DEVIATN.reset_value(), 0x47);
}

#[test]
fn status_fields() {
    assert_eq!(marc_state(0xED), 0x0D);
    assert_eq!(num_rxbytes(0x85), 0x05);
    assert!(rxfifo_overflow(0x80));
    assert!(!rxfifo_overflow(0x7F));
    assert_eq!(MachineState::TXFIFO_UNDERFLOW.value(), 0x16);
    assert_eq!(MachineState::RX.value(), 0x0D);
}
