//! The driver: bus transactions, register access, and the radio operations built on them.
use vstd::prelude::*;
use crate::bus::{
    all_ok, framed, is_read_txn, is_transfer_txn, is_write_of, register_write_txn, reply_of, since,
    strobe_txn, txn_at, write_attempt, Access, BusEvent, ChipSelect, Command, Spi,
};
use crate::config;
use crate::config::Field;
use crate::convert::from_frequency;
use crate::pa_table::{wire_payload, PaColumn};
use crate::protocol::{
    all_reads, default_writes, frequency_writes, grows, is_modify, lemma_grows_append,
    lemma_grows_trans, lemma_mode_entered, lemma_mode_timed_out, lemma_packet_received,
    lemma_poll_step, lemma_quiet_no_overflow, lemma_read_step, leave_idle_opcode, mode_entered,
    mode_timed_out, modify_then, outcome, packet_received, polled_in_vain, polled_until, quiet,
    rx_count_at, rx_overflow_at, rx_overflowed, rx_ready, rx_timed_out, rxbytes_header, spi_failed,
    status_header, target_state,
};
use crate::settings::{
    address_setting, length_setting, sync_setting, AddressFilter, Modulation, PacketLength,
    RadioMode, SyncMode,
};
use crate::status;

verus! {

/// How many status reads a wait makes, at most, unless set otherwise.
pub const DEFAULT_POLL_LIMIT: u32 = 10_000;

/// What an operation of the driver can fail with.
#[derive(Debug)]
pub enum Error<E> {
    /// The receive FIFO overflowed: received data was lost.
    RxOverflow,
    /// The bus reported a failure.
    Spi(E),
    /// A wait on the chip made as many status reads as allowed without seeing
    /// what it waited for.
    Timeout,
}

/// A bus failure is an error of the driver.
impl<E> From<E> for Error<E> {
    fn from(e: E) -> (r: Self) {
        Error::Spi(e)
    }
}

impl<E> vstd::std_specs::convert::FromSpecImpl<E> for Error<E> {
    open spec fn obeys_from_spec() -> bool {
        true
    }

    open spec fn from_spec(v: E) -> Error<E> {
        Error::Spi(v)
    }
}

/// A radio driver over a serial bus and a chip-select line.
pub struct Cc1101<SPI, CS> {
    spi: SPI,
    cs: CS,
    poll_limit: u32,
    trace: Ghost<Seq<BusEvent>>,
}

impl<SPI: Spi, CS: ChipSelect> Cc1101<SPI, CS> {
    /// Everything the driver has done on the bus, oldest first.
    pub closed spec fn trace(&self) -> Seq<BusEvent> {
        self.trace@
    }

    /// How many status reads a wait makes, at most.
    pub closed spec fn spec_poll_limit(&self) -> u32 {
        self.poll_limit
    }

    /// Creates a driver over a bus and the device's chip-select line.
    pub fn new(spi: SPI, cs: CS) -> (r: Result<Self, Error<SPI::Error>>)
        ensures
            r is Ok,
            r->Ok_0.trace() == Seq::<BusEvent>::empty(),
            r->Ok_0.spec_poll_limit() == DEFAULT_POLL_LIMIT,
    {
        Ok(Cc1101 { spi, cs, poll_limit: DEFAULT_POLL_LIMIT, trace: Ghost(Seq::empty()) })
    }

    /// How many status reads a wait makes, at most.
    pub fn poll_limit(&self) -> (r: u32)
        ensures
            r == self.spec_poll_limit(),
    {
        self.poll_limit
    }

    /// Sets how many status reads a wait makes, at most.
    pub fn set_poll_limit(&mut self, limit: u32)
        ensures
            final(self).spec_poll_limit() == limit,
            final(self).trace() == old(self).trace(),
    {
        self.poll_limit = limit;
    }

    /// Reads one configuration register.
    fn read_register(&mut self, reg: config::Register) -> (r: Result<u8, Error<SPI::Error>>)
        ensures
            final(self).spec_poll_limit() == old(self).spec_poll_limit(),
            framed(since(final(self).trace(), old(self).trace().len() as int)),
            outcome(since(final(self).trace(), old(self).trace().len() as int), spi_failed(r)),
            grows(final(self).trace(), old(self).trace()),
            is_read_txn(
                since(final(self).trace(), old(self).trace().len() as int),
                reg.spec_addr() | Access::READ_SINGLE.spec_offset(),
            ),
            r is Ok ==> r->Ok_0 == reply_of(
                since(final(self).trace(), old(self).trace().len() as int),
            ),
            r is Err ==> r->Err_0 is Spi,
    {
        let header = reg.addr() | Access::READ_SINGLE.offset();
        let mut buffer = [header, 0u8];
        self.cs.set_low();
        let res = self.spi.transfer(&mut buffer);
        self.cs.set_high();
        let ghost added = seq![
            BusEvent::Select,
            BusEvent::Transfer(seq![header, 0u8], buffer@, res.is_ok()),
            BusEvent::Deselect,
        ];
        proof {
            lemma_grows_append(self.trace@, added);
        }
        self.trace = Ghost(self.trace@ + added);
        match res {
            Ok(()) => Ok(buffer[1]),
            Err(e) => Err(Error::Spi(e)),
        }
    }

    /// Reads one status register.
    fn read_status(&mut self, reg: status::Register) -> (r: Result<u8, Error<SPI::Error>>)
        ensures
            final(self).spec_poll_limit() == old(self).spec_poll_limit(),
            framed(since(final(self).trace(), old(self).trace().len() as int)),
            outcome(since(final(self).trace(), old(self).trace().len() as int), spi_failed(r)),
            grows(final(self).trace(), old(self).trace()),
            is_read_txn(
                since(final(self).trace(), old(self).trace().len() as int),
                status_header(reg),
            ),
            r is Ok ==> r->Ok_0 == reply_of(
                since(final(self).trace(), old(self).trace().len() as int),
            ),
            r is Err ==> r->Err_0 is Spi,
    {
        let header = reg.addr() | Access::READ_BURST.offset();
        let mut buffer = [header, 0u8];
        self.cs.set_low();
        let res = self.spi.transfer(&mut buffer);
        self.cs.set_high();
        let ghost added = seq![
            BusEvent::Select,
            BusEvent::Transfer(seq![header, 0u8], buffer@, res.is_ok()),
            BusEvent::Deselect,
        ];
        proof {
            lemma_grows_append(self.trace@, added);
        }
        self.trace = Ghost(self.trace@ + added);
        match res {
            Ok(()) => Ok(buffer[1]),
            Err(e) => Err(Error::Spi(e)),
        }
    }

    /// Reads a burst from `com` into `buf`; the first byte of `buf` is
    /// overwritten with the header before the transfer.
    fn read_burst(&mut self, com: Command, buf: &mut [u8]) -> (r: Result<(), Error<SPI::Error>>)
        requires
            old(buf)@.len() >= 1,
        ensures
            final(self).spec_poll_limit() == old(self).spec_poll_limit(),
            framed(since(final(self).trace(), old(self).trace().len() as int)),
            outcome(since(final(self).trace(), old(self).trace().len() as int), spi_failed(r)),
            final(buf)@.len() == old(buf)@.len(),
            grows(final(self).trace(), old(self).trace()),
            is_transfer_txn(
                since(final(self).trace(), old(self).trace().len() as int),
                old(buf)@.update(0, com.spec_addr() | Access::READ_BURST.spec_offset()),
            ),
            since(final(self).trace(), old(self).trace().len() as int)[1]->Transfer_1
                == final(buf)@,
            r is Err ==> r->Err_0 is Spi,
    {
        let header = com.addr() | Access::READ_BURST.offset();
        buf[0] = header;
        let ghost sent = buf@;
        self.cs.set_low();
        let res = self.spi.transfer(buf);
        self.cs.set_high();
        let ghost added = seq![
            BusEvent::Select,
            BusEvent::Transfer(sent, buf@, res.is_ok()),
            BusEvent::Deselect,
        ];
        proof {
            lemma_grows_append(self.trace@, added);
        }
        self.trace = Ghost(self.trace@ + added);
        match res {
            Ok(()) => Ok(()),
            Err(e) => Err(Error::Spi(e)),
        }
    }

    /// Sends a strobe command.
    fn write_strobe(&mut self, com: Command) -> (r: Result<(), Error<SPI::Error>>)
        ensures
            final(self).spec_poll_limit() == old(self).spec_poll_limit(),
            framed(since(final(self).trace(), old(self).trace().len() as int)),
            outcome(since(final(self).trace(), old(self).trace().len() as int), spi_failed(r)),
            final(self).trace() == old(self).trace() + write_attempt(seq![com.spec_addr()], r is Ok),
            grows(final(self).trace(), old(self).trace()),
            r is Err ==> r->Err_0 is Spi,
    {
        let opcode = [com.addr()];
        self.cs.set_low();
        let res = self.spi.write(&opcode);
        self.cs.set_high();
        proof {
            lemma_grows_append(self.trace@, write_attempt(opcode@, res.is_ok()));
            assert(opcode@ =~= seq![com.spec_addr()]);
        }
        self.trace = Ghost(self.trace@ + write_attempt(opcode@, res.is_ok()));
        match res {
            Ok(()) => Ok(()),
            Err(e) => Err(Error::Spi(e)),
        }
    }

    /// Writes one configuration register.
    fn write_register(&mut self, reg: config::Register, byte: u8) -> (r: Result<
        (),
        Error<SPI::Error>,
    >)
        ensures
            final(self).spec_poll_limit() == old(self).spec_poll_limit(),
            framed(since(final(self).trace(), old(self).trace().len() as int)),
            outcome(since(final(self).trace(), old(self).trace().len() as int), spi_failed(r)),
            final(self).trace() == old(self).trace() + write_attempt(
                seq![reg.spec_addr() | Access::WRITE_SINGLE.spec_offset(), byte],
                r is Ok,
            ),
            grows(final(self).trace(), old(self).trace()),
            r is Err ==> r->Err_0 is Spi,
    {
        let buffer = [reg.addr() | Access::WRITE_SINGLE.offset(), byte];
        self.cs.set_low();
        let res = self.spi.write(&buffer);
        self.cs.set_high();
        proof {
            assert(buffer@ =~= seq![reg.spec_addr() | Access::WRITE_SINGLE.spec_offset(), byte]);
            lemma_grows_append(self.trace@, write_attempt(buffer@, res.is_ok()));
        }
        self.trace = Ghost(self.trace@ + write_attempt(buffer@, res.is_ok()));
        match res {
            Ok(()) => Ok(()),
            Err(e) => Err(Error::Spi(e)),
        }
    }

    /// Reads a configuration register and writes it back with one field set to `value`.
    fn modify_register(&mut self, reg: config::Register, field: Field, value: u8) -> (r: Result<
        (),
        Error<SPI::Error>,
    >)
        requires
            value <= field.max(),
        ensures
            final(self).spec_poll_limit() == old(self).spec_poll_limit(),
            framed(since(final(self).trace(), old(self).trace().len() as int)),
            outcome(since(final(self).trace(), old(self).trace().len() as int), spi_failed(r)),
            grows(final(self).trace(), old(self).trace()),
            r is Ok ==> is_modify(
                since(final(self).trace(), old(self).trace().len() as int),
                reg,
                field,
                value,
            ),
            r is Err ==> r->Err_0 is Spi,
    {
        let ghost t0 = self.trace@;
        let current = match self.read_register(reg) {
            Ok(b) => b,
            Err(e) => return Err(e),
        };
        let ghost t1 = self.trace@;
        let res = self.write_register(reg, field.insert(current, value));
        proof {
            lemma_grows_append(t1, register_write_txn(reg.spec_addr(), field.spec_insert(current, value)));
            lemma_grows_trans(t0, t1, self.trace@);
            assert(since(self.trace@, t0.len() as int).take(3) =~= since(t1, t0.len() as int));
            assert(since(self.trace@, t0.len() as int).skip(3) =~= since(self.trace@, t1.len() as int));
        }
        res
    }
}

impl<SPI: Spi, CS: ChipSelect> Cc1101<SPI, CS> {
    /// Sets the carrier frequency: FREQ2, FREQ1 and FREQ0 are written in that order.
    pub fn set_frequency(&mut self, hz: u64) -> (r: Result<(), Error<SPI::Error>>)
        requires
            hz * 65536 <= u64::MAX,
        ensures
            final(self).spec_poll_limit() == old(self).spec_poll_limit(),
            framed(since(final(self).trace(), old(self).trace().len() as int)),
            outcome(since(final(self).trace(), old(self).trace().len() as int), spi_failed(r)),
            grows(final(self).trace(), old(self).trace()),
            r is Ok ==> final(self).trace() == old(self).trace() + frequency_writes(hz as int),
            r is Err ==> r->Err_0 is Spi,
    {
        let ghost t0 = self.trace@;
        let (freq0, freq1, freq2) = from_frequency(hz);
        let r = self.write_register(config::Register::FREQ2, freq2);
        if r.is_err() {
            return r;
        }
        let ghost t1 = self.trace@;
        let r = self.write_register(config::Register::FREQ1, freq1);
        proof {
            lemma_grows_trans(t0, t1, self.trace@);
        }
        if r.is_err() {
            return r;
        }
        let ghost t2 = self.trace@;
        let r = self.write_register(config::Register::FREQ0, freq0);
        proof {
            lemma_grows_trans(t0, t2, self.trace@);
            if r is Ok {
                assert(self.trace@ =~= t0 + frequency_writes(hz as int));
            }
        }
        r
    }

    /// Sets a field by read-modify-write, then writes one more register.
    fn modify_then_write(
        &mut self,
        reg: config::Register,
        field: Field,
        value: u8,
        next: config::Register,
        byte: u8,
    ) -> (r: Result<(), Error<SPI::Error>>)
        requires
            value <= field.max(),
        ensures
            final(self).spec_poll_limit() == old(self).spec_poll_limit(),
            framed(since(final(self).trace(), old(self).trace().len() as int)),
            outcome(since(final(self).trace(), old(self).trace().len() as int), spi_failed(r)),
            grows(final(self).trace(), old(self).trace()),
            r is Ok ==> modify_then(
                since(final(self).trace(), old(self).trace().len() as int),
                reg,
                field,
                value,
                register_write_txn(next.spec_addr(), byte),
            ),
            r is Err ==> r->Err_0 is Spi,
    {
        let ghost t0 = self.trace@;
        let r = self.modify_register(reg, field, value);
        if r.is_err() {
            return r;
        }
        let ghost t1 = self.trace@;
        let r = self.write_register(next, byte);
        proof {
            lemma_grows_append(t1, register_write_txn(next.spec_addr(), byte));
            lemma_grows_trans(t0, t1, self.trace@);
            let s = since(self.trace@, t0.len() as int);
            assert(s.take(6) =~= since(t1, t0.len() as int));
            assert(s.skip(6) =~= since(self.trace@, t1.len() as int));
        }
        r
    }

    /// Reads the part number and the version of the chip.
    pub fn get_hw_info(&mut self) -> (r: Result<(u8, u8), Error<SPI::Error>>)
        ensures
            final(self).spec_poll_limit() == old(self).spec_poll_limit(),
            framed(since(final(self).trace(), old(self).trace().len() as int)),
            outcome(since(final(self).trace(), old(self).trace().len() as int), spi_failed(r)),
            grows(final(self).trace(), old(self).trace()),
            r is Ok ==> ({
                let s = since(final(self).trace(), old(self).trace().len() as int);
                &&& s.len() == 6
                &&& is_read_txn(s.take(3), status_header(status::Register::PARTNUM))
                &&& is_read_txn(s.skip(3), status_header(status::Register::VERSION))
                &&& r->Ok_0 == (reply_of(s.take(3)), reply_of(s.skip(3)))
            }),
            r is Err ==> r->Err_0 is Spi,
    {
        let ghost t0 = self.trace@;
        let partnum = match self.read_status(status::Register::PARTNUM) {
            Ok(b) => b,
            Err(e) => return Err(e),
        };
        let ghost t1 = self.trace@;
        let version = match self.read_status(status::Register::VERSION) {
            Ok(b) => b,
            Err(e) => {
                proof {
                    lemma_grows_trans(t0, t1, self.trace@);
                }
                return Err(e);
            },
        };
        proof {
            lemma_grows_trans(t0, t1, self.trace@);
            let s = since(self.trace@, t0.len() as int);
            assert(s.take(3) =~= since(t1, t0.len() as int));
            assert(s.skip(3) =~= since(self.trace@, t1.len() as int));
        }
        Ok((partnum, version))
    }

    /// Sets the sync word qualifier mode and the sync word.
    pub fn set_sync_mode(&mut self, sync_mode: SyncMode) -> (r: Result<(), Error<SPI::Error>>)
        ensures
            final(self).spec_poll_limit() == old(self).spec_poll_limit(),
            framed(since(final(self).trace(), old(self).trace().len() as int)),
            outcome(since(final(self).trace(), old(self).trace().len() as int), spi_failed(r)),
            grows(final(self).trace(), old(self).trace()),
            r is Ok ==> ({
                let (check, word) = sync_setting(sync_mode);
                let s = since(final(self).trace(), old(self).trace().len() as int);
                &&& s.len() == 12
                &&& modify_then(
                    s.take(9),
                    config::Register::MDMCFG2,
                    Field::SyncMode,
                    check.spec_value(),
                    register_write_txn(config::Register::SYNC1.spec_addr(), (word >> 8u16) as u8),
                )
                &&& s.skip(9) == register_write_txn(
                    config::Register::SYNC0.spec_addr(),
                    (word & 0xffu16) as u8,
                )
            }),
            r is Err ==> r->Err_0 is Spi,
    {
        let (mode, word) = match sync_mode {
            SyncMode::Disabled => (
                config::SyncCheck::DISABLED,
                (config::Register::SYNC1.reset_value() as u16) * 256
                    + config::Register::SYNC0.reset_value() as u16,
            ),
            SyncMode::MatchPartial(word) => (config::SyncCheck::CHECK_15_16, word),
            SyncMode::MatchPartialRepeated(word) => (config::SyncCheck::CHECK_30_32, word),
            SyncMode::MatchFull(word) => (config::SyncCheck::CHECK_16_16, word),
        };
        let ghost t0 = self.trace@;
        let r = self.modify_then_write(
            config::Register::MDMCFG2,
            Field::SyncMode,
            mode.value(),
            config::Register::SYNC1,
            (word >> 8) as u8,
        );
        if r.is_err() {
            return r;
        }
        let ghost t1 = self.trace@;
        let r = self.write_register(config::Register::SYNC0, (word & 0xff) as u8);
        proof {
            lemma_grows_trans(t0, t1, self.trace@);
            let s = since(self.trace@, t0.len() as int);
            assert(s.take(9) =~= since(t1, t0.len() as int));
            assert(s.skip(9) =~= since(self.trace@, t1.len() as int));
        }
        r
    }

    /// Sets the modulation format.
    pub fn set_modulation(&mut self, format: Modulation) -> (r: Result<(), Error<SPI::Error>>)
        ensures
            final(self).spec_poll_limit() == old(self).spec_poll_limit(),
            framed(since(final(self).trace(), old(self).trace().len() as int)),
            outcome(since(final(self).trace(), old(self).trace().len() as int), spi_failed(r)),
            grows(final(self).trace(), old(self).trace()),
            r is Ok ==> is_modify(
                since(final(self).trace(), old(self).trace().len() as int),
                config::Register::MDMCFG2,
                Field::ModFormat,
                format.spec_value(),
            ),
            r is Err ==> r->Err_0 is Spi,
    {
        self.modify_register(config::Register::MDMCFG2, Field::ModFormat, format.value())
    }

    /// Sets the address check of received packets and the device address.
    pub fn set_address_filter(&mut self, filter: AddressFilter) -> (r: Result<(), Error<SPI::Error>>)
        ensures
            final(self).spec_poll_limit() == old(self).spec_poll_limit(),
            framed(since(final(self).trace(), old(self).trace().len() as int)),
            outcome(since(final(self).trace(), old(self).trace().len() as int), spi_failed(r)),
            grows(final(self).trace(), old(self).trace()),
            r is Ok ==> modify_then(
                since(final(self).trace(), old(self).trace().len() as int),
                config::Register::PKTCTRL1,
                Field::AdrChk,
                address_setting(filter).0.spec_value(),
                register_write_txn(config::Register::ADDR.spec_addr(), address_setting(filter).1),
            ),
            r is Err ==> r->Err_0 is Spi,
    {
        let (mode, addr) = match filter {
            AddressFilter::Disabled => (
                config::AddressCheck::DISABLED,
                config::Register::ADDR.reset_value(),
            ),
            AddressFilter::Device(addr) => (config::AddressCheck::SELF, addr),
            AddressFilter::DeviceLowBroadcast(addr) => (config::AddressCheck::SELF_LOW_BROADCAST, addr),
            AddressFilter::DeviceHighLowBroadcast(addr) => (
                config::AddressCheck::SELF_HIGH_LOW_BROADCAST,
                addr,
            ),
        };
        self.modify_then_write(
            config::Register::PKTCTRL1,
            Field::AdrChk,
            mode.value(),
            config::Register::ADDR,
            addr,
        )
    }

    /// Sets the packet length mode and the packet length register.
    pub fn set_packet_length(&mut self, length: PacketLength) -> (r: Result<(), Error<SPI::Error>>)
        ensures
            final(self).spec_poll_limit() == old(self).spec_poll_limit(),
            framed(since(final(self).trace(), old(self).trace().len() as int)),
            outcome(since(final(self).trace(), old(self).trace().len() as int), spi_failed(r)),
            grows(final(self).trace(), old(self).trace()),
            r is Ok ==> modify_then(
                since(final(self).trace(), old(self).trace().len() as int),
                config::Register::PKTCTRL0,
                Field::LengthConfig,
                length_setting(length).0.spec_value(),
                register_write_txn(config::Register::PKTLEN.spec_addr(), length_setting(length).1),
            ),
            r is Err ==> r->Err_0 is Spi,
    {
        let (format, pktlen) = match length {
            PacketLength::Fixed(limit) => (config::LengthConfig::FIXED, limit),
            PacketLength::Variable(max_limit) => (config::LengthConfig::VARIABLE, max_limit),
            PacketLength::Infinite => (
                config::LengthConfig::INFINITE,
                config::Register::PKTLEN.reset_value(),
            ),
        };
        self.modify_then_write(
            config::Register::PKTCTRL0,
            Field::LengthConfig,
            format.value(),
            config::Register::PKTLEN,
            pktlen,
        )
    }

    /// Polls MARCSTATE until it reports `target`, at most `poll_limit` times.
    fn await_machine_state(&mut self, target: status::MachineState) -> (r: Result<
        (),
        Error<SPI::Error>,
    >)
        ensures
            final(self).spec_poll_limit() == old(self).spec_poll_limit(),
            framed(since(final(self).trace(), old(self).trace().len() as int)),
            outcome(since(final(self).trace(), old(self).trace().len() as int), spi_failed(r)),
            grows(final(self).trace(), old(self).trace()),
            r is Ok ==> polled_until(
                since(final(self).trace(), old(self).trace().len() as int),
                target.spec_value(),
            ),
            r is Err ==> r->Err_0 is Spi || r->Err_0 is Timeout,
            r is Err && r->Err_0 is Timeout ==> polled_in_vain(
                since(final(self).trace(), old(self).trace().len() as int),
                target.spec_value(),
                old(self).spec_poll_limit() as int,
            ),
    {
        let ghost t0 = self.trace@;
        let code = target.value();
        let mut i: u32 = 0;
        proof {
            lemma_grows_append(t0, Seq::empty());
            assert(t0 + Seq::<BusEvent>::empty() =~= t0);
        }
        while i < self.poll_limit
            invariant
                t0 == old(self).trace(),
                grows(self.trace@, t0),
                all_ok(since(self.trace@, t0.len() as int)),
                polled_in_vain(since(self.trace@, t0.len() as int), code, i as int),
                i <= self.poll_limit,
                self.poll_limit == old(self).poll_limit,
                code == target.spec_value(),
            decreases self.poll_limit - i,
        {
            let ghost t1 = self.trace@;
            let res = self.read_status(status::Register::MARCSTATE);
            proof {
                lemma_grows_trans(t0, t1, self.trace@);
                lemma_poll_step(since(t1, t0.len() as int), since(self.trace@, t1.len() as int), i as int);
            }
            match res {
                Ok(b) => {
                    if status::marc_state(b) == code {
                        return Ok(());
                    }
                },
                Err(e) => return Err(e),
            }
            i = i + 1;
        }
        Err(Error::Timeout)
    }

    /// Moves the radio into `radio_mode`: a strobe, then polling until the chip
    /// reports the matching state. Receive and transmit first go through idle.
    #[verifier::rlimit(40)]
    pub fn set_radio_mode(&mut self, radio_mode: RadioMode) -> (r: Result<(), Error<SPI::Error>>)
        ensures
            final(self).spec_poll_limit() == old(self).spec_poll_limit(),
            framed(since(final(self).trace(), old(self).trace().len() as int)),
            outcome(since(final(self).trace(), old(self).trace().len() as int), spi_failed(r)),
            grows(final(self).trace(), old(self).trace()),
            is_write_of(
                since(final(self).trace(), old(self).trace().len() as int).take(3),
                seq![Command::SIDLE.spec_addr()],
            ),
            r is Ok ==> mode_entered(
                since(final(self).trace(), old(self).trace().len() as int),
                radio_mode,
            ),
            r is Err ==> r->Err_0 is Spi || r->Err_0 is Timeout,
            r is Err && r->Err_0 is Timeout ==> mode_timed_out(
                since(final(self).trace(), old(self).trace().len() as int),
                radio_mode,
                old(self).spec_poll_limit() as int,
            ),
        decreases
            if radio_mode is Idle { 0int } else { 1int },
    {
        let ghost t0 = self.trace@;
        let ghost mut idle_len: int = 0;
        let target = match radio_mode {
            RadioMode::Receive => {
                match self.set_radio_mode(RadioMode::Idle) {
                    Ok(()) => {},
                    Err(e) => return Err(e),
                }
                let ghost t1 = self.trace@;
                let r = self.write_strobe(Command::SRX);
                proof {
                    lemma_grows_append(t1, write_attempt(seq![Command::SRX.spec_addr()], r is Ok));
                    lemma_grows_trans(t0, t1, self.trace@);
                    idle_len = t1.len() - t0.len();
                    let s1 = since(self.trace@, t0.len() as int);
                    assert(s1.take(idle_len) =~= since(t1, t0.len() as int));
                    assert(s1.skip(idle_len) =~= write_attempt(seq![Command::SRX.spec_addr()], r is Ok));
                    assert(s1.take(3) =~= since(t1, t0.len() as int).take(3));
                }
                if r.is_err() {
                    return r;
                }
                status::MachineState::RX
            },
            RadioMode::Transmit => {
                match self.set_radio_mode(RadioMode::Idle) {
                    Ok(()) => {},
                    Err(e) => return Err(e),
                }
                let ghost t1 = self.trace@;
                let r = self.write_strobe(Command::STX);
                proof {
                    lemma_grows_append(t1, write_attempt(seq![Command::STX.spec_addr()], r is Ok));
                    lemma_grows_trans(t0, t1, self.trace@);
                    idle_len = t1.len() - t0.len();
                    let s1 = since(self.trace@, t0.len() as int);
                    assert(s1.take(idle_len) =~= since(t1, t0.len() as int));
                    assert(s1.skip(idle_len) =~= write_attempt(seq![Command::STX.spec_addr()], r is Ok));
                    assert(s1.take(3) =~= since(t1, t0.len() as int).take(3));
                }
                if r.is_err() {
                    return r;
                }
                status::MachineState::TX
            },
            RadioMode::Idle => {
                let r = self.write_strobe(Command::SIDLE);
                proof {
                    let t = write_attempt(seq![Command::SIDLE.spec_addr()], r is Ok);
                    lemma_grows_append(t0, t);
                    assert(t.take(3) =~= t);
                }
                if r.is_err() {
                    return r;
                }
                status::MachineState::IDLE
            },
        };
        let ghost t2 = self.trace@;
        proof {
            let s1 = since(t2, t0.len() as int);
            assert(radio_mode is Idle || (3 <= idle_len <= s1.len() && mode_entered(
                s1.take(idle_len),
                RadioMode::Idle,
            ) && s1.skip(idle_len) == strobe_txn(leave_idle_opcode(radio_mode))));
            assert(target.spec_value() == target_state(radio_mode).spec_value());
        }
        let r = self.await_machine_state(target);
        proof {
            lemma_grows_trans(t0, t2, self.trace@);
            let s = since(self.trace@, t0.len() as int);
            let s1 = since(t2, t0.len() as int);
            assert(s.take(3) =~= s1.take(3));
            if r is Ok {
                lemma_mode_entered(s, s1, since(self.trace@, t2.len() as int), radio_mode, idle_len);
            } else if r->Err_0 is Timeout {
                lemma_mode_timed_out(
                    s,
                    s1,
                    since(self.trace@, t2.len() as int),
                    radio_mode,
                    idle_len,
                    self.poll_limit as int,
                );
            }
        }
        r
    }

    /// Polls RXBYTES until two reads in a row report the same nonzero count,
    /// and returns that count; at most `poll_limit` reads. Fails as soon as a
    /// read reports an overflow of the receive FIFO.
    #[verifier::rlimit(40)]
    pub fn rx_bytes_available(&mut self) -> (r: Result<u8, Error<SPI::Error>>)
        ensures
            final(self).spec_poll_limit() == old(self).spec_poll_limit(),
            framed(since(final(self).trace(), old(self).trace().len() as int)),
            outcome(since(final(self).trace(), old(self).trace().len() as int), spi_failed(r)),
            grows(final(self).trace(), old(self).trace()),
            ({
                let s = since(final(self).trace(), old(self).trace().len() as int);
                let n = s.len() / 3;
                &&& all_reads(s, rxbytes_header())
                &&& n <= old(self).spec_poll_limit()
                &&& forall|j: int| 0 <= j < n - 1 ==> quiet(s, j)
                &&& r is Ok ==> rx_ready(s, r->Ok_0)
                &&& r is Err && r->Err_0 is RxOverflow ==> n >= 1 && rx_overflow_at(s, n - 1)
                &&& r is Err && r->Err_0 is Timeout ==> n == old(self).spec_poll_limit() && (n
                    == 0 || quiet(s, n - 1))
                &&& forall|j: int| 0 <= j < n && #[trigger] rx_overflow_at(s, j) ==> (r is Err && (
                r->Err_0 is RxOverflow || (r->Err_0 is Spi && j == n - 1)))
            }),
            r is Err && r->Err_0 is Timeout ==> rx_timed_out(
                since(final(self).trace(), old(self).trace().len() as int),
                old(self).spec_poll_limit() as int,
            ),
            r is Err && r->Err_0 is RxOverflow ==> rx_overflowed(
                since(final(self).trace(), old(self).trace().len() as int),
            ),
    {
        let ghost t0 = self.trace@;
        let hdr = status::Register::RXBYTES.addr() | Access::READ_BURST.offset();
        let mut last: u8 = 0;
        let mut i: u32 = 0;
        proof {
            lemma_grows_append(t0, Seq::empty());
            assert(t0 + Seq::<BusEvent>::empty() =~= t0);
        }
        while i < self.poll_limit
            invariant
                t0 == old(self).trace(),
                grows(self.trace@, t0),
                all_ok(since(self.trace@, t0.len() as int)),
                all_reads(since(self.trace@, t0.len() as int), hdr),
                since(self.trace@, t0.len() as int).len() == 3 * i,
                forall|j: int| 0 <= j < i ==> quiet(since(self.trace@, t0.len() as int), j),
                i > 0 ==> last == rx_count_at(since(self.trace@, t0.len() as int), i - 1),
                i == 0 ==> last == 0,
                i <= self.poll_limit,
                self.poll_limit == old(self).poll_limit,
                hdr == rxbytes_header(),
            decreases self.poll_limit - i,
        {
            let ghost t1 = self.trace@;
            let res = self.read_status(status::Register::RXBYTES);
            proof {
                lemma_grows_trans(t0, t1, self.trace@);
                lemma_read_step(
                    since(t1, t0.len() as int),
                    since(self.trace@, t1.len() as int),
                    i as int,
                    hdr,
                );
                let s1 = since(t1, t0.len() as int);
                let s2 = since(self.trace@, t0.len() as int);
                assert forall|j: int| 0 <= j < i implies #[trigger] quiet(s2, j) by {
                    assert(txn_at(s2, j) == txn_at(s1, j));
                    if j >= 1 {
                        assert(txn_at(s2, j - 1) == txn_at(s1, j - 1));
                    }
                    assert(quiet(s1, j));
                }
                if i > 0 {
                    assert(txn_at(s2, i - 1) == txn_at(s1, i - 1));
                }
                assert(s2.len() / 3 == i + 1);
                lemma_quiet_no_overflow(s2, i as int);
            }
            let b = match res {
                Ok(b) => b,
                Err(e) => return Err(e),
            };
            if status::rxfifo_overflow(b) {
                return Err(Error::RxOverflow);
            }
            let nbytes = status::num_rxbytes(b);
            if nbytes > 0 && nbytes == last {
                return Ok(nbytes);
            }
            last = nbytes;
            i = i + 1;
        }
        proof {
            lemma_quiet_no_overflow(since(self.trace@, t0.len() as int), i as int);
        }
        Err(Error::Timeout)
    }

    /// Receives one packet into `buf` once the receive FIFO has settled, with
    /// its signal strength and link quality, then flushes the receive FIFO.
    /// The first byte of `buf` is taken by the header of the burst read.
    #[verifier::rlimit(40)]
    pub fn receive(&mut self, buf: &mut [u8], rssi: &mut u8, lqi: &mut u8) -> (r: Result<
        (),
        Error<SPI::Error>,
    >)
        requires
            old(buf)@.len() >= 1,
        ensures
            final(self).spec_poll_limit() == old(self).spec_poll_limit(),
            framed(since(final(self).trace(), old(self).trace().len() as int)),
            outcome(since(final(self).trace(), old(self).trace().len() as int), spi_failed(r)),
            final(buf)@.len() == old(buf)@.len(),
            grows(final(self).trace(), old(self).trace()),
            r is Ok ==> packet_received(
                since(final(self).trace(), old(self).trace().len() as int),
                old(buf)@.update(0, Command::FIFO.spec_addr() | Access::READ_BURST.spec_offset()),
                final(buf)@,
                *final(rssi),
                *final(lqi),
            ),
            r is Err && r->Err_0 is Timeout ==> rx_timed_out(
                since(final(self).trace(), old(self).trace().len() as int),
                old(self).spec_poll_limit() as int,
            ),
            r is Err && r->Err_0 is RxOverflow ==> rx_overflowed(
                since(final(self).trace(), old(self).trace().len() as int),
            ),
            r is Err && !(r->Err_0 is Spi) ==> final(buf)@ == old(buf)@ && *final(rssi) == *old(
                rssi,
            ) && *final(lqi) == *old(lqi),
    {
        let ghost t0 = self.trace@;
        let ghost before = buf@;
        let count = match self.rx_bytes_available() {
            Ok(n) => n,
            Err(e) => return Err(e),
        };
        let ghost t1 = self.trace@;
        let res = self.read_burst(Command::FIFO, buf);
        proof { lemma_grows_trans(t0, t1, self.trace@); }
        if res.is_err() {
            return res;
        }
        let ghost t2 = self.trace@;
        let strength = match self.read_status(status::Register::RSSI) {
            Ok(b) => b,
            Err(e) => {
                proof { lemma_grows_trans(t0, t2, self.trace@); }
                return Err(e);
            },
        };
        let ghost t3 = self.trace@;
        let quality = match self.read_status(status::Register::LQI) {
            Ok(b) => b,
            Err(e) => {
                proof {
                    lemma_grows_trans(t0, t2, t3);
                    lemma_grows_trans(t0, t3, self.trace@);
                }
                return Err(e);
            },
        };
        let ghost t4 = self.trace@;
        let res = self.write_strobe(Command::SFRX);
        proof {
            lemma_grows_trans(t0, t2, t3);
            lemma_grows_trans(t0, t3, t4);
            lemma_grows_trans(t0, t4, self.trace@);
        }
        if res.is_err() {
            return res;
        }
        proof {
            let sent = before.update(
                0,
                Command::FIFO.spec_addr() | Access::READ_BURST.spec_offset(),
            );
            lemma_packet_received(t0, t1, t2, t3, t4, self.trace@, count, sent, buf@, strength, quality);
        }
        *rssi = strength;
        *lqi = quality;
        Ok(())
    }

    /// Resets the chip, then loads the factory-recommended settings.
    #[verifier::rlimit(40)]
    pub fn set_defaults(&mut self) -> (r: Result<(), Error<SPI::Error>>)
        ensures
            final(self).spec_poll_limit() == old(self).spec_poll_limit(),
            framed(since(final(self).trace(), old(self).trace().len() as int)),
            outcome(since(final(self).trace(), old(self).trace().len() as int), spi_failed(r)),
            grows(final(self).trace(), old(self).trace()),
            r is Ok ==> final(self).trace() == old(self).trace() + strobe_txn(
                Command::SRES.spec_addr(),
            ) + default_writes(),
            r is Err ==> r->Err_0 is Spi,
    {
        let ghost t0 = self.trace@;
        let r = self.write_strobe(Command::SRES);
        if r.is_err() {
            return r;
        }
        let settings: [(config::Register, u8); 8] = [
            (config::Register::PKTCTRL0, Field::WhiteData.insert(config::Register::PKTCTRL0.reset_value(), 0)),
            (config::Register::FSCTRL1, Field::FreqIf.insert(config::Register::FSCTRL1.reset_value(), 0x08)),
            (
                config::Register::MDMCFG4,
                Field::DrateE.insert(
                    Field::ChanbwM.insert(
                        Field::ChanbwE.insert(config::Register::MDMCFG4.reset_value(), 0x03),
                        0x00,
                    ),
                    0x0A,
                ),
            ),
            (config::Register::MDMCFG3, Field::DrateM.insert(config::Register::MDMCFG3.reset_value(), 0x83)),
            (config::Register::MDMCFG2, Field::DemDcfiltOff.insert(config::Register::MDMCFG2.reset_value(), 1)),
            (
                config::Register::DEVIATN,
                Field::DeviationM.insert(
                    Field::DeviationE.insert(config::Register::DEVIATN.reset_value(), 0x03),
                    0x05,
                ),
            ),
            (
                config::Register::MCSM0,
                Field::FsAutocal.insert(
                    config::Register::MCSM0.reset_value(),
                    config::AutoCalibration::FROM_IDLE.value(),
                ),
            ),
            (config::Register::AGCCTRL2, Field::MaxLnaGain.insert(config::Register::AGCCTRL2.reset_value(), 0x04)),
        ];
        let ghost t1 = self.trace@;
        let ghost plan = default_writes();
        proof {
            assert(plan.len() == 24);
            assert forall|k: int| 0 <= k < 8 implies plan.subrange(3 * k, 3 * k + 3)
                == register_write_txn(#[trigger] settings@[k].0.spec_addr(), settings@[k].1) by {
                assert(plan.subrange(3 * k, 3 * k + 3) =~= register_write_txn(
                    settings@[k].0.spec_addr(),
                    settings@[k].1,
                ));
            }
            lemma_grows_append(t0, strobe_txn(Command::SRES.spec_addr()));
        }
        let mut k: usize = 0;
        while k < 8
            invariant
                t0 == old(self).trace(),
                t1 == old(self).trace() + strobe_txn(Command::SRES.spec_addr()),
                plan == default_writes(),
                plan.len() == 24,
                forall|j: int| 0 <= j < 8 ==> plan.subrange(3 * j, 3 * j + 3)
                    == register_write_txn(#[trigger] settings@[j].0.spec_addr(), settings@[j].1),
                k <= 8,
                self.trace@ == t1 + plan.take(3 * k),
                self.poll_limit == old(self).poll_limit,
                grows(self.trace@, t0),
                framed(since(self.trace@, t0.len() as int)),
            decreases 8 - k,
        {
            let (reg, byte) = settings[k];
            let ghost before = self.trace@;
            let r = self.write_register(reg, byte);
            proof {
                lemma_grows_trans(t0, before, self.trace@);
            }
            if r.is_err() {
                return r;
            }
            proof {
                assert(plan.take(3 * k + 3) =~= plan.take(3 * k) + plan.subrange(3 * k, 3 * k + 3));
                assert(self.trace@ =~= t1 + plan.take(3 * (k + 1)));
            }
            k = k + 1;
        }
        proof {
            assert(plan.take(24) =~= plan);
            lemma_grows_append(t0, strobe_txn(Command::SRES.spec_addr()) + plan);
            assert(self.trace@ =~= t0 + strobe_txn(Command::SRES.spec_addr()) + plan);
            assert(self.trace@ =~= t0 + (strobe_txn(Command::SRES.spec_addr()) + plan));
        }
        Ok(())
    }

    /// Writes `buf` in one burst to `com`.
    fn write_burst(&mut self, com: Command, buf: &[u8]) -> (r: Result<(), Error<SPI::Error>>)
        requires
            buf@.len() < usize::MAX,
        ensures
            final(self).spec_poll_limit() == old(self).spec_poll_limit(),
            framed(since(final(self).trace(), old(self).trace().len() as int)),
            outcome(since(final(self).trace(), old(self).trace().len() as int), spi_failed(r)),
            final(self).trace() == old(self).trace() + write_attempt(
                seq![com.spec_addr() | Access::WRITE_BURST.spec_offset()] + buf@,
                r is Ok,
            ),
            grows(final(self).trace(), old(self).trace()),
            r is Err ==> r->Err_0 is Spi,
    {
        let header = com.addr() | Access::WRITE_BURST.offset();
        let mut frame: Vec<u8> = Vec::with_capacity(buf.len() + 1);
        frame.push(header);
        let mut i: usize = 0;
        while i < buf.len()
            invariant
                i <= buf@.len(),
                frame@ == seq![header] + buf@.take(i as int),
            decreases buf@.len() - i,
        {
            frame.push(buf[i]);
            i = i + 1;
            proof {
                assert(frame@ =~= seq![header] + buf@.take(i as int));
            }
        }
        proof {
            assert(buf@.take(buf@.len() as int) =~= buf@);
        }
        self.cs.set_low();
        let res = self.spi.write(frame.as_slice());
        self.cs.set_high();
        proof {
            lemma_grows_append(self.trace@, write_attempt(frame@, res.is_ok()));
        }
        self.trace = Ghost(self.trace@ + write_attempt(frame@, res.is_ok()));
        match res {
            Ok(()) => Ok(()),
            Err(e) => Err(Error::Spi(e)),
        }
    }

    /// Writes the condensed entries of a power-amplifier row to the PA table, in one burst.
    pub fn write_pa_table(&mut self, column: &PaColumn) -> (r: Result<(), Error<SPI::Error>>)
        ensures
            final(self).spec_poll_limit() == old(self).spec_poll_limit(),
            framed(since(final(self).trace(), old(self).trace().len() as int)),
            outcome(since(final(self).trace(), old(self).trace().len() as int), spi_failed(r)),
            final(self).trace() == old(self).trace() + write_attempt(
                seq![Command::PATABLE.spec_addr() | Access::WRITE_BURST.spec_offset()]
                    + wire_payload(column.0@),
                r is Ok,
            ),
            r is Err ==> r->Err_0 is Spi,
    {
        let values = column.values();
        self.write_burst(Command::PATABLE, &values)
    }
}

} // verus!
