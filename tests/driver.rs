use std::cell::RefCell;
use std::collections::{HashMap, VecDeque};
use std::rc::Rc;

use cc1101::bus::{ChipSelect, Spi};
use cc1101::pa_table::pa_table;
use cc1101::{AddressFilter, Cc1101, Error, Modulation, PacketLength, RadioMode, SyncMode};

#[derive(Debug, Clone, PartialEq)]
enum Ev {
    Low,
    High,
    Write(Vec<u8>),
    Xfer(Vec<u8>),
}

#[derive(Debug, Clone, Copy, PartialEq)]
struct Fault;

type Log = Rc<RefCell<Vec<Ev>>>;

/// A bus that records what is sent and answers each read from a script kept
/// per header byte; the last scripted answer repeats.
struct ScriptedSpi {
    log: Log,
    script: HashMap<u8, VecDeque<u8>>,
    fail: bool,
}

impl ScriptedSpi {
    fn next(&mut self, header: u8) -> u8 {
        match self.script.get_mut(&header) {
            Some(q) if q.len() > 1 => q.pop_front().unwrap(),
            Some(q) => *q.front().unwrap(),
            None => 0,
        }
    }
}

impl Spi for ScriptedSpi {
    type Error = Fault;

    fn transfer(&mut self, words: &mut [u8]) -> Result<(), Fault> {
        self.log.borrow_mut().push(Ev::Xfer(words.to_vec()));
        if self.fail {
            return Err(Fault);
        }
        let header = words[0];
        for w in words.iter_mut().skip(1) {
            *w = self.next(header);
        }
        Ok(())
    }

    fn write(&mut self, words: &[u8]) -> Result<(), Fault> {
        self.log.borrow_mut().push(Ev::Write(words.to_vec()));
        if self.fail {
            return Err(Fault);
        }
        Ok(())
    }
}

struct RecordingPin {
    log: Log,
}

impl ChipSelect for RecordingPin {
    fn set_low(&mut self) {
        self.log.borrow_mut().push(Ev::Low);
    }

    fn set_high(&mut self) {
        self.log.borrow_mut().push(Ev::High);
    }
}

fn driver(script: &[(u8, &[u8])], fail: bool) -> (Cc1101<ScriptedSpi, RecordingPin>, Log) {
    let log: Log = Rc::new(RefCell::new(Vec::new()));
    let mut map = HashMap::new();
    for (header, replies) in script {
        map.insert(*header, replies.iter().copied().collect::<VecDeque<u8>>());
    }
    let spi = ScriptedSpi { log: log.clone(), script: map, fail };
    let cs = RecordingPin { log: log.clone() };
    match Cc1101::new(spi, cs) {
        Ok(d) => (d, log),
        Err(_) => panic!("construction failed"),
    }
}

/// The bytes sent in each transaction, in order.
fn frames(log: &Log) -> Vec<Vec<u8>> {
    let events = log.borrow();
    let mut out = Vec::new();
    let mut i = 0;
    while i < events.len() {
        assert_eq!(events[i], Ev::Low);
        match &events[i + 1] {
            Ev::Write(b) | Ev::Xfer(b) => out.push(b.clone()),
            e => panic!("unexpected event {:?}", e),
        }
        assert_eq!(events[i + 2], Ev::High);
        i += 3;
    }
    out
}

fn strobes(log: &Log) -> Vec<u8> {
    frames(log).into_iter().filter(|f| f.len() == 1).map(|f| f[0]).collect()
}

#[test]
fn set_defaults_writes_reset_then_recommended_bytes() {
    let (mut d, log) = driver(&[], false);
    assert!(d.set_defaults().is_ok());
    assert_eq!(
        frames(&log),
        vec![
            vec![0x30],
            vec![0x08, 0x05],
            vec![0x0B, 0x08],
            vec![0x10, 0xCA],
            vec![0x11, 0x83],
            vec![0x12, 0x82],
            vec![0x15, 0x35],
            vec![0x18, 0x14],
            vec![0x1B, 0x23],
        ]
    );
}

#[test]
fn set_frequency_writes_high_middle_low() {
    let (mut d, log) = driver(&[], false);
    assert!(d.set_frequency(433_000_000).is_ok());
    assert_eq!(frames(&log), vec![vec![0x0D, 0x10], vec![0x0E, 0xA7], vec![0x0F, 0x62]]);
}

#[test]
fn get_hw_info_reads_part_number_and_version() {
    let (mut d, log) = driver(&[(0xF0, &[0x00]), (0xF1, &[0x14])], false);
    match d.get_hw_info() {
        Ok(info) => assert_eq!(info, (0x00, 0x14)),
        Err(_) => panic!("read failed"),
    }
    assert_eq!(frames(&log), vec![vec![0xF0, 0x00], vec![0xF1, 0x00]]);
}

#[test]
fn set_modulation_modifies_only_its_field() {
    let (mut d, log) = driver(&[(0x92, &[0x82])], false);
    assert!(d.set_modulation(Modulation::GaussianFrequencyShiftKeying).is_ok());
    assert_eq!(frames(&log), vec![vec![0x92, 0x00], vec![0x12, 0x92]]);
}

#[test]
fn set_sync_mode_full_word() {
    let (mut d, log) = driver(&[(0x92, &[0x80])], false);
    assert!(d.set_sync_mode(SyncMode::MatchFull(0xBEEF)).is_ok());
    assert_eq!(
        frames(&log),
        vec![vec![0x92, 0x00], vec![0x12, 0x82], vec![0x04, 0xBE], vec![0x05, 0xEF]]
    );
}

#[test]
fn set_sync_mode_disabled_restores_reset_word() {
    let (mut d, log) = driver(&[(0x92, &[0x07])], false);
    assert!(d.set_sync_mode(SyncMode::Disabled).is_ok());
    assert_eq!(
        frames(&log),
        vec![vec![0x92, 0x00], vec![0x12, 0x00], vec![0x04, 0xD3], vec![0x05, 0x91]]
    );
}

#[test]
fn set_address_filter_device() {
    let (mut d, log) = driver(&[(0x87, &[0x04])], false);
    assert!(d.set_address_filter(AddressFilter::Device(0x42)).is_ok());
    assert_eq!(frames(&log), vec![vec![0x87, 0x00], vec![0x07, 0x05], vec![0x09, 0x42]]);
}

#[test]
fn set_packet_length_fixed() {
    let (mut d, log) = driver(&[(0x88, &[0x45])], false);
    assert!(d.set_packet_length(PacketLength::Fixed(20)).is_ok());
    assert_eq!(frames(&log), vec![vec![0x88, 0x00], vec![0x08, 0x44], vec![0x06, 20]]);
}

#[test]
fn receive_mode_idles_before_rx() {
    let (mut d, log) = driver(&[(0xF5, &[0x01, 0x0D])], false);
    assert!(d.set_radio_mode(RadioMode::Receive).is_ok());
    assert_eq!(strobes(&log), vec![0x36, 0x34]);
    assert_eq!(
        frames(&log),
        vec![vec![0x36], vec![0xF5, 0x00], vec![0x34], vec![0xF5, 0x00]]
    );
}

#[test]
fn transmit_mode_idles_before_tx() {
    let (mut d, log) = driver(&[(0xF5, &[0x08, 0x01, 0x12, 0x13])], false);
    assert!(d.set_radio_mode(RadioMode::Transmit).is_ok());
    assert_eq!(strobes(&log), vec![0x36, 0x35]);
    assert_eq!(
        frames(&log),
        vec![vec![0x36], vec![0xF5, 0x00], vec![0xF5, 0x00], vec![0x35], vec![0xF5, 0x00], vec![0xF5, 0x00]]
    );
}

#[test]
fn waiting_for_a_state_times_out() {
    let (mut d, log) = driver(&[(0xF5, &[0x00])], false);
    d.set_poll_limit(3);
    assert_eq!(d.poll_limit(), 3);
    assert!(matches!(d.set_radio_mode(RadioMode::Idle), Err(Error::Timeout)));
    assert_eq!(frames(&log).len(), 4);
}

#[test]
fn rx_bytes_settle_on_two_equal_counts() {
    let (mut d, log) = driver(&[(0xFB, &[0x00, 0x05, 0x07, 0x07])], false);
    assert!(matches!(d.rx_bytes_available(), Ok(7)));
    assert_eq!(frames(&log).len(), 4);
}

#[test]
fn rx_overflow_is_reported_whatever_the_count() {
    let (mut d, _) = driver(&[(0xFB, &[0x03, 0x85])], false);
    assert!(matches!(d.rx_bytes_available(), Err(Error::RxOverflow)));
    let (mut d, log) = driver(&[(0xFB, &[0x80])], false);
    assert!(matches!(d.rx_bytes_available(), Err(Error::RxOverflow)));
    assert_eq!(frames(&log).len(), 1);
    let (mut d, _) = driver(&[(0xFB, &[0x04, 0x84])], false);
    assert!(matches!(d.rx_bytes_available(), Err(Error::RxOverflow)));
}

#[test]
fn receive_reads_packet_and_metadata_then_flushes() {
    let (mut d, log) = driver(
        &[(0xFB, &[0x04]), (0xFF, &[0xA1, 0xA2, 0xA3, 0xA4]), (0xF4, &[0x55]), (0xF3, &[0x2A])],
        false,
    );
    let mut buf = [0u8; 5];
    let mut rssi = 0u8;
    let mut lqi = 0u8;
    assert!(d.receive(&mut buf, &mut rssi, &mut lqi).is_ok());
    assert_eq!(buf, [0xFF, 0xA1, 0xA2, 0xA3, 0xA4]);
    assert_eq!((rssi, lqi), (0x55, 0x2A));
    let f = frames(&log);
    assert_eq!(f[0], vec![0xFB, 0x00]);
    assert_eq!(f[1], vec![0xFB, 0x00]);
    assert_eq!(f[2], vec![0xFF, 0, 0, 0, 0]);
    assert_eq!(f[3], vec![0xF4, 0x00]);
    assert_eq!(f[4], vec![0xF3, 0x00]);
    assert_eq!(f[5], vec![0x3A]);
    assert_eq!(f.len(), 6);
}

#[test]
fn pa_table_is_one_burst_of_eight_bytes() {
    let (mut d, log) = driver(&[], false);
    assert!(d.write_pa_table(&pa_table(433_000_000)).is_ok());
    assert_eq!(frames(&log), vec![vec![0x7E, 0x12, 0x0E, 0x1D, 0x34, 0x60, 0x84, 0xC8, 0xC0]]);
}

#[test]
fn bus_failure_releases_chip_select() {
    let (mut d, log) = driver(&[], true);
    assert!(matches!(d.set_frequency(868_000_000), Err(Error::Spi(Fault))));
    assert_eq!(*log.borrow(), vec![Ev::Low, Ev::Write(vec![0x0D, 0x21]), Ev::High]);
    let (mut d, log) = driver(&[], true);
    assert!(matches!(d.get_hw_info(), Err(Error::Spi(Fault))));
    assert_eq!(*log.borrow(), vec![Ev::Low, Ev::Xfer(vec![0xF0, 0x00]), Ev::High]);
}

#[test]
fn rx_bytes_wait_times_out_without_a_stable_count() {
    let (mut d, log) = driver(&[(0xFB, &[0x00])], false);
    d.set_poll_limit(3);
    assert!(matches!(d.rx_bytes_available(), Err(Error::Timeout)));
    assert_eq!(frames(&log), vec![vec![0xFB, 0x00]; 3]);
}

#[test]
fn disabled_address_filter_restores_reset_address() {
    let (mut d, log) = driver(&[(0x87, &[0x07])], false);
    assert!(d.set_address_filter(AddressFilter::Disabled).is_ok());
    assert_eq!(frames(&log), vec![vec![0x87, 0x00], vec![0x07, 0x04], vec![0x09, 0x00]]);
}

#[test]
fn infinite_packet_length_restores_reset_length() {
    let (mut d, log) = driver(&[(0x88, &[0x45])], false);
    assert!(d.set_packet_length(PacketLength::Infinite).is_ok());
    assert_eq!(frames(&log), vec![vec![0x88, 0x00], vec![0x08, 0x46], vec![0x06, 0xFF]]);
}

#[test]
fn modulation_codes() {
    assert_eq!(Modulation::BinaryFrequencyShiftKeying.value(), 0b000);
    assert_eq!(Modulation::GaussianFrequencyShiftKeying.value(), 0b001);
    assert_eq!(Modulation::OnOffKeying.value(), 0b011);
    assert_eq!(Modulation::FourFrequencyShiftKeying.value(), 0b100);
    assert_eq!(Modulation::MinimumShiftKeying.value(), 0b111);
}

#[test]
fn bus_failure_in_mode_change_stops_after_the_failed_strobe() {
    let (mut d, log) = driver(&[], true);
    assert!(matches!(d.set_radio_mode(RadioMode::Transmit), Err(Error::Spi(Fault))));
    assert_eq!(*log.borrow(), vec![Ev::Low, Ev::Write(vec![0x36]), Ev::High]);
}

#[test]
fn bus_error_converts_into_driver_error() {
    assert!(matches!(Error::from(Fault), Error::Spi(Fault)));
}

#[test]
fn receive_on_overflow_reads_nothing_more() {
    let (mut d, log) = driver(&[(0xFB, &[0x02, 0x82])], false);
    let mut buf = [7u8; 3];
    let mut rssi = 1u8;
    let mut lqi = 2u8;
    assert!(matches!(d.receive(&mut buf, &mut rssi, &mut lqi), Err(Error::RxOverflow)));
    assert_eq!(buf, [7, 7, 7]);
    assert_eq!((rssi, lqi), (1, 2));
    assert_eq!(frames(&log), vec![vec![0xFB, 0x00], vec![0xFB, 0x00]]);
}
