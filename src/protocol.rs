//! What the driver's operations put on the bus: spec functions over the trace
//! of bus events, and the lemmas that put the steps of an operation together.
use vstd::prelude::*;
use crate::bus::{
    all_ok, failed_last, framed, is_read_txn, is_transfer_txn, is_txn, lemma_framed_concat,
    lemma_outcome_concat, lemma_txn_framed, lemma_txn_outcome, txn_ok,
    register_write_txn, reply_of, since, strobe_txn, txn_at, Access, BusEvent, Command,
};
use crate::config;
use crate::config::Field;
use crate::convert::frequency_fields;
use crate::driver::Error;
use crate::settings::RadioMode;
use crate::status;

verus! {

/// The operation failed because the bus reported a failure.
pub open spec fn spi_failed<T, E>(r: Result<T, Error<E>>) -> bool {
    r is Err && r->Err_0 is Spi
}

/// How the exchanges of `s` went: if `failed`, the last one failed and only
/// that one; otherwise all of them succeeded.
pub open spec fn outcome(s: Seq<BusEvent>, failed: bool) -> bool {
    if failed {
        failed_last(s)
    } else {
        all_ok(s)
    }
}

/// `new` is `old` followed by more events.
pub open spec fn grows(new: Seq<BusEvent>, old: Seq<BusEvent>) -> bool {
    new.len() >= old.len() && new.subrange(0, old.len() as int) == old
}

/// Appending in two steps appends what each step added.
pub proof fn lemma_grows_trans(t0: Seq<BusEvent>, t1: Seq<BusEvent>, t2: Seq<BusEvent>)
    requires
        grows(t1, t0),
        grows(t2, t1),
    ensures
        grows(t2, t0),
        since(t2, t0.len() as int) == since(t1, t0.len() as int) + since(t2, t1.len() as int),
        framed(since(t1, t0.len() as int)) && framed(since(t2, t1.len() as int)) ==> framed(
            since(t2, t0.len() as int),
        ),
        framed(since(t1, t0.len() as int)) && framed(since(t2, t1.len() as int)) && all_ok(
            since(t1, t0.len() as int),
        ) && all_ok(since(t2, t1.len() as int)) ==> all_ok(since(t2, t0.len() as int)),
        framed(since(t1, t0.len() as int)) && framed(since(t2, t1.len() as int)) && all_ok(
            since(t1, t0.len() as int),
        ) && failed_last(since(t2, t1.len() as int)) ==> failed_last(since(t2, t0.len() as int)),
{
    assert(t2.subrange(0, t0.len() as int) =~= t0) by {
        assert forall|i: int| 0 <= i < t0.len() implies t2[i] == t0[i] by {
            assert(t2.subrange(0, t1.len() as int)[i] == t2[i]);
            assert(t1.subrange(0, t0.len() as int)[i] == t1[i]);
        }
    }
    assert(since(t2, t0.len() as int) =~= since(t1, t0.len() as int) + since(t2, t1.len() as int))
        by {
        assert forall|i: int| t0.len() <= i < t1.len() implies t2[i] == t1[i] by {
            assert(t2.subrange(0, t1.len() as int)[i] == t2[i]);
        }
    }
    if framed(since(t1, t0.len() as int)) && framed(since(t2, t1.len() as int)) {
        lemma_framed_concat(since(t1, t0.len() as int), since(t2, t1.len() as int));
        lemma_outcome_concat(since(t1, t0.len() as int), since(t2, t1.len() as int));
    }
}

/// Appending `added` to a trace makes it grow by exactly `added`.
pub proof fn lemma_grows_append(t: Seq<BusEvent>, added: Seq<BusEvent>)
    ensures
        grows(t + added, t),
        since(t + added, t.len() as int) == added,
        is_txn(added) ==> framed(since(t + added, t.len() as int)),
        is_txn(added) ==> outcome(since(t + added, t.len() as int), !txn_ok(added)),
{
    assert((t + added).subrange(0, t.len() as int) =~= t);
    assert(since(t + added, t.len() as int) =~= added);
    if is_txn(added) {
        lemma_txn_framed(added);
        lemma_txn_outcome(added);
    }
}

/// `s` is a read-modify-write of one field of a configuration register: a
/// single read, then a single write of the byte read with the field set to `value`.
pub open spec fn is_modify(s: Seq<BusEvent>, reg: config::Register, field: Field, value: u8) -> bool {
    &&& s.len() == 6
    &&& is_read_txn(s.take(3), reg.spec_addr() | Access::READ_SINGLE.spec_offset())
    &&& s.skip(3) == register_write_txn(reg.spec_addr(), field.spec_insert(reply_of(s.take(3)), value))
}


/// `s` is a read-modify-write of a field followed by the transactions `then`.
pub open spec fn modify_then(
    s: Seq<BusEvent>,
    reg: config::Register,
    field: Field,
    value: u8,
    then: Seq<BusEvent>,
) -> bool {
    &&& s.len() == 6 + then.len()
    &&& is_modify(s.take(6), reg, field, value)
    &&& s.skip(6) == then
}

/// The header of a read of a status register: reads of the status space always use burst access.
pub open spec fn status_header(reg: status::Register) -> u8 {
    reg.spec_addr() | Access::READ_BURST.spec_offset()
}

/// The header of a MARCSTATE read.
pub open spec fn marcstate_header() -> u8 {
    status_header(status::Register::MARCSTATE)
}

/// The header of an RXBYTES read.
pub open spec fn rxbytes_header() -> u8 {
    status_header(status::Register::RXBYTES)
}

/// `s` is a run of single-byte reads with header `header`.
pub open spec fn all_reads(s: Seq<BusEvent>, header: u8) -> bool {
    &&& s.len() % 3 == 0
    &&& forall|i: int| 0 <= i < s.len() / 3 ==> is_read_txn(#[trigger] txn_at(s, i), header)
}

/// The machine state that the `i`-th read of a run reported.
pub open spec fn state_at(s: Seq<BusEvent>, i: int) -> u8 {
    status::spec_marc_state(reply_of(txn_at(s, i)))
}

/// `s` is `n` MARCSTATE reads, none of which reported `code`.
pub open spec fn polled_in_vain(s: Seq<BusEvent>, code: u8, n: int) -> bool {
    &&& all_reads(s, marcstate_header())
    &&& s.len() == 3 * n
    &&& forall|i: int| 0 <= i < n ==> #[trigger] state_at(s, i) != code
}

/// `s` is MARCSTATE reads up to the first that reported `code`.
pub open spec fn polled_until(s: Seq<BusEvent>, code: u8) -> bool {
    &&& s.len() >= 3
    &&& polled_in_vain(s.take(s.len() - 3), code, s.len() / 3 - 1)
    &&& is_read_txn(s.skip(s.len() - 3), marcstate_header())
    &&& status::spec_marc_state(reply_of(s.skip(s.len() - 3))) == code
}

/// `s` is an IDLE strobe and polls until idle (events `0..j`), then the strobe
/// that leaves idle (events `j..k`), then polls until the chip reports the new state.
pub open spec fn idle_then(s: Seq<BusEvent>, j: int, k: int) -> bool {
    &&& 3 <= j && k == j + 3 && k <= s.len()
    &&& s.take(3) == strobe_txn(Command::SIDLE.spec_addr())
    &&& polled_until(s.subrange(3, j), status::MachineState::IDLE.spec_value())
}

/// `s` is what entering `mode` put on the bus: the strobes and the polls.
pub open spec fn mode_entered(s: Seq<BusEvent>, mode: RadioMode) -> bool {
    match mode {
        RadioMode::Idle => {
            &&& s.len() >= 3
            &&& s.take(3) == strobe_txn(Command::SIDLE.spec_addr())
            &&& polled_until(s.skip(3), status::MachineState::IDLE.spec_value())
        },
        RadioMode::Receive => exists|j: int, k: int|
            #[trigger] idle_then(s, j, k) && s.subrange(j, k) == strobe_txn(Command::SRX.spec_addr())
                && polled_until(s.skip(k), status::MachineState::RX.spec_value()),
        RadioMode::Transmit => exists|j: int, k: int|
            #[trigger] idle_then(s, j, k) && s.subrange(j, k) == strobe_txn(Command::STX.spec_addr())
                && polled_until(s.skip(k), status::MachineState::TX.spec_value()),
    }
}

/// The byte count that the `i`-th RXBYTES read of a run reported.
pub open spec fn rx_count_at(s: Seq<BusEvent>, i: int) -> u8 {
    status::spec_num_rxbytes(reply_of(txn_at(s, i)))
}

/// The `i`-th RXBYTES read of a run reported an overflow.
pub open spec fn rx_overflow_at(s: Seq<BusEvent>, i: int) -> bool {
    status::spec_rxfifo_overflow(reply_of(txn_at(s, i)))
}

/// The `i`-th RXBYTES read of a run repeated the nonzero count of the read before it.
pub open spec fn stable_at(s: Seq<BusEvent>, i: int) -> bool {
    i >= 1 && rx_count_at(s, i) > 0 && rx_count_at(s, i) == rx_count_at(s, i - 1)
}

/// The `i`-th RXBYTES read of a run neither overflowed nor settled the count.
pub open spec fn quiet(s: Seq<BusEvent>, i: int) -> bool {
    !rx_overflow_at(s, i) && !stable_at(s, i)
}

/// `s` is RXBYTES reads up to the first two in a row that report the same
/// nonzero count `count`, none of them reporting an overflow.
pub open spec fn rx_ready(s: Seq<BusEvent>, count: u8) -> bool {
    let n = s.len() / 3;
    &&& all_reads(s, rxbytes_header())
    &&& n >= 1
    &&& forall|j: int| 0 <= j < n - 1 ==> quiet(s, j)
    &&& !rx_overflow_at(s, n - 1)
    &&& stable_at(s, n - 1)
    &&& count == rx_count_at(s, n - 1)
}

/// `s` is `limit` RXBYTES reads, none of which overflowed or settled the count.
pub open spec fn rx_timed_out(s: Seq<BusEvent>, limit: int) -> bool {
    &&& all_reads(s, rxbytes_header())
    &&& s.len() == 3 * limit
    &&& forall|j: int| 0 <= j < limit ==> quiet(s, j)
}

/// `s` is RXBYTES reads up to the first that reported an overflow, none of
/// the earlier ones having settled the count.
pub open spec fn rx_overflowed(s: Seq<BusEvent>) -> bool {
    let n = s.len() / 3;
    &&& all_reads(s, rxbytes_header())
    &&& n >= 1
    &&& forall|j: int| 0 <= j < n - 1 ==> quiet(s, j)
    &&& rx_overflow_at(s, n - 1)
}

/// `s` is what receiving a packet put on the bus: the RXBYTES polls, a burst
/// read of the FIFO that sent `sent` and filled in `got`, a read of RSSI giving
/// `rssi`, a read of LQI giving `lqi`, then a flush of the receive FIFO.
pub open spec fn packet_received(s: Seq<BusEvent>, sent: Seq<u8>, got: Seq<u8>, rssi: u8, lqi: u8) -> bool {
    let m = s.len() - 12;
    &&& s.len() >= 12
    &&& exists|count: u8| rx_ready(#[trigger] s.take(m), count)
    &&& is_transfer_txn(s.subrange(m, m + 3), sent)
    &&& s[m + 1]->Transfer_1 == got
    &&& is_read_txn(s.subrange(m + 3, m + 6), status_header(status::Register::RSSI))
    &&& rssi == reply_of(s.subrange(m + 3, m + 6))
    &&& is_read_txn(s.subrange(m + 6, m + 9), status_header(status::Register::LQI))
    &&& lqi == reply_of(s.subrange(m + 6, m + 9))
    &&& s.skip(m + 9) == strobe_txn(Command::SFRX.spec_addr())
}

/// The steps of receiving a packet, put together.
#[verifier::rlimit(60)]
pub proof fn lemma_packet_received(
    t0: Seq<BusEvent>,
    t1: Seq<BusEvent>,
    t2: Seq<BusEvent>,
    t3: Seq<BusEvent>,
    t4: Seq<BusEvent>,
    t5: Seq<BusEvent>,
    count: u8,
    sent: Seq<u8>,
    got: Seq<u8>,
    rssi: u8,
    lqi: u8,
)
    requires
        grows(t1, t0),
        grows(t2, t1),
        grows(t3, t2),
        grows(t4, t3),
        t5 == t4 + strobe_txn(Command::SFRX.spec_addr()),
        rx_ready(since(t1, t0.len() as int), count),
        is_transfer_txn(since(t2, t1.len() as int), sent),
        since(t2, t1.len() as int)[1]->Transfer_1 == got,
        is_read_txn(since(t3, t2.len() as int), status_header(status::Register::RSSI)),
        rssi == reply_of(since(t3, t2.len() as int)),
        is_read_txn(since(t4, t3.len() as int), status_header(status::Register::LQI)),
        lqi == reply_of(since(t4, t3.len() as int)),
        framed(since(t1, t0.len() as int)),
        framed(since(t2, t1.len() as int)),
        framed(since(t3, t2.len() as int)),
        framed(since(t4, t3.len() as int)),
    ensures
        grows(t5, t0),
        framed(since(t5, t0.len() as int)),
        packet_received(since(t5, t0.len() as int), sent, got, rssi, lqi),
{
    lemma_grows_append(t4, strobe_txn(Command::SFRX.spec_addr()));
    lemma_grows_trans(t0, t1, t2);
    lemma_grows_trans(t0, t2, t3);
    lemma_grows_trans(t0, t3, t4);
    lemma_grows_trans(t0, t4, t5);
    let s = since(t5, t0.len() as int);
    let m = t1.len() - t0.len();
    assert(s.len() == m + 12);
    assert(s.take(m) =~= since(t1, t0.len() as int));
    assert(s.subrange(m, m + 3) =~= since(t2, t1.len() as int));
    assert(s.subrange(m + 3, m + 6) =~= since(t3, t2.len() as int));
    assert(s.subrange(m + 6, m + 9) =~= since(t4, t3.len() as int));
    assert(s.skip(m + 9) =~= since(t5, t4.len() as int));
    assert(rx_ready(s.take(m), count));
}

/// Reads that neither overflowed nor settled the count report no overflow.
pub proof fn lemma_quiet_no_overflow(s: Seq<BusEvent>, n: int)
    requires
        forall|j: int| 0 <= j < n ==> quiet(s, j),
    ensures
        forall|j: int| 0 <= j < n ==> !#[trigger] rx_overflow_at(s, j),
{
    assert forall|j: int| 0 <= j < n implies !#[trigger] rx_overflow_at(s, j) by {
        assert(quiet(s, j));
    }
}

/// One more read at the end of a run keeps the earlier reads where they were.
pub proof fn lemma_read_step(s: Seq<BusEvent>, added: Seq<BusEvent>, i: int, header: u8)
    requires
        s.len() == 3 * i,
        i >= 0,
        all_reads(s, header),
        is_read_txn(added, header),
    ensures
        all_reads(s + added, header),
        (s + added).len() == 3 * (i + 1),
        txn_at(s + added, i) == added,
        forall|j: int| 0 <= j < i ==> txn_at(s + added, j) == txn_at(s, j),
{
    let t = s + added;
    assert(txn_at(t, i) =~= added);
    assert forall|j: int| 0 <= j < i implies txn_at(t, j) == txn_at(s, j) by {
        assert(txn_at(t, j) =~= txn_at(s, j));
    }
    assert forall|j: int| 0 <= j < t.len() / 3 implies is_read_txn(#[trigger] txn_at(t, j), header) by {
        if j < i {
            assert(txn_at(t, j) =~= txn_at(s, j));
        }
    }
}

/// One more MARCSTATE read at the end of a fruitless run.
pub proof fn lemma_poll_step(s: Seq<BusEvent>, added: Seq<BusEvent>, i: int)
    requires
        s.len() == 3 * i,
        i >= 0,
        all_reads(s, marcstate_header()),
        is_read_txn(added, marcstate_header()),
    ensures
        forall|code: u8| polled_in_vain(s, code, i) && status::spec_marc_state(reply_of(added)) != code
            ==> #[trigger] polled_in_vain(s + added, code, i + 1),
        forall|code: u8| polled_in_vain(s, code, i) && status::spec_marc_state(reply_of(added)) == code
            ==> #[trigger] polled_until(s + added, code),
{
    lemma_read_step(s, added, i, marcstate_header());
    let t = s + added;
    assert(t.take(t.len() - 3) =~= s);
    assert(t.skip(t.len() - 3) =~= added);
    assert forall|code: u8| polled_in_vain(s, code, i) && status::spec_marc_state(reply_of(added)) != code
        implies #[trigger] polled_in_vain(s + added, code, i + 1) by {
        assert forall|j: int| 0 <= j < i + 1 implies #[trigger] state_at(t, j) != code by {
            if j < i {
                assert(state_at(t, j) == state_at(s, j));
            }
        }
    }
}

/// The strobe that takes the radio out of idle into `mode`.
pub open spec fn leave_idle_opcode(mode: RadioMode) -> u8 {
    match mode {
        RadioMode::Transmit => Command::STX.spec_addr(),
        _ => Command::SRX.spec_addr(),
    }
}

/// The machine state that `mode` waits for.
pub open spec fn target_state(mode: RadioMode) -> status::MachineState {
    match mode {
        RadioMode::Receive => status::MachineState::RX,
        RadioMode::Transmit => status::MachineState::TX,
        RadioMode::Idle => status::MachineState::IDLE,
    }
}

/// Strobes and polls, put together, enter the mode.
pub proof fn lemma_mode_entered(
    s: Seq<BusEvent>,
    s1: Seq<BusEvent>,
    polls: Seq<BusEvent>,
    mode: RadioMode,
    j: int,
)
    requires
        s == s1 + polls,
        polled_until(polls, target_state(mode).spec_value()),
        mode is Idle ==> s1 == strobe_txn(Command::SIDLE.spec_addr()),
        !(mode is Idle) ==> 3 <= j <= s1.len() && mode_entered(s1.take(j), RadioMode::Idle) && s1.skip(j)
            == strobe_txn(leave_idle_opcode(mode)),
    ensures
        mode_entered(s, mode),
{
    let k = s1.len() as int;
    assert(s.take(k) =~= s1);
    assert(s.skip(k) =~= polls);
    if mode is Idle {
        assert(s.take(3) =~= s1);
    } else {
        let idle = s1.take(j);
        assert(strobe_txn(leave_idle_opcode(mode)).len() == 3);
        assert(s1.skip(j).len() == s1.len() - j);
        assert(s.take(3) =~= idle.take(3));
        assert(s.subrange(3, j) =~= idle.skip(3));
        assert(s.subrange(j, k) =~= s1.skip(j));
        assert(idle_then(s, j, k));
    }
}

/// `s` is the IDLE strobe, then `limit` MARCSTATE reads none of which reported IDLE.
pub open spec fn idle_timed_out(s: Seq<BusEvent>, limit: int) -> bool {
    &&& s.len() >= 3
    &&& s.take(3) == strobe_txn(Command::SIDLE.spec_addr())
    &&& polled_in_vain(s.skip(3), status::MachineState::IDLE.spec_value(), limit)
}

/// `s` entered idle (events `0..k-3`), then sent the strobe that leaves idle
/// for `mode` (events `k-3..k`).
pub open spec fn left_idle_at(s: Seq<BusEvent>, k: int, mode: RadioMode) -> bool {
    &&& 6 <= k <= s.len()
    &&& mode_entered(s.take(k - 3), RadioMode::Idle)
    &&& s.subrange(k - 3, k) == strobe_txn(leave_idle_opcode(mode))
}

/// `s` is what a wait that ran out of reads put on the bus while entering
/// `mode`: either the IDLE strobe and `limit` fruitless polls for IDLE, or,
/// for receive and transmit, idle entered, the strobe that leaves it, and
/// `limit` fruitless polls for the new state.
pub open spec fn mode_timed_out(s: Seq<BusEvent>, mode: RadioMode, limit: int) -> bool {
    ||| idle_timed_out(s, limit)
    ||| (!(mode is Idle) && exists|k: int|
        #[trigger] left_idle_at(s, k, mode) && polled_in_vain(
            s.skip(k),
            target_state(mode).spec_value(),
            limit,
        ))
}

/// Strobes and fruitless polls, put together, time out entering the mode.
pub proof fn lemma_mode_timed_out(
    s: Seq<BusEvent>,
    s1: Seq<BusEvent>,
    polls: Seq<BusEvent>,
    mode: RadioMode,
    j: int,
    limit: int,
)
    requires
        s == s1 + polls,
        polled_in_vain(polls, target_state(mode).spec_value(), limit),
        mode is Idle ==> s1 == strobe_txn(Command::SIDLE.spec_addr()),
        !(mode is Idle) ==> 3 <= j <= s1.len() && mode_entered(s1.take(j), RadioMode::Idle)
            && s1.skip(j) == strobe_txn(leave_idle_opcode(mode)),
    ensures
        mode_timed_out(s, mode, limit),
{
    let k = s1.len() as int;
    assert(s.take(k) =~= s1);
    assert(s.skip(k) =~= polls);
    if mode is Idle {
        assert(s.take(3) =~= s1);
        assert(idle_timed_out(s, limit));
    } else {
        assert(strobe_txn(leave_idle_opcode(mode)).len() == 3);
        assert(s1.skip(j).len() == s1.len() - j);
        assert(s.take(j) =~= s1.take(j));
        assert(s.subrange(j, k) =~= s1.skip(j));
        assert(left_idle_at(s, k, mode));
    }
}

/// The factory-recommended settings, each a register and the byte written to it:
/// the reset value with a few fields changed.
pub open spec fn default_writes() -> Seq<BusEvent> {
    register_write_txn(
        config::Register::PKTCTRL0.spec_addr(),
        Field::WhiteData.spec_insert(config::Register::PKTCTRL0.spec_reset(), 0),
    ) + register_write_txn(
        config::Register::FSCTRL1.spec_addr(),
        Field::FreqIf.spec_insert(config::Register::FSCTRL1.spec_reset(), 0x08),
    ) + register_write_txn(
        config::Register::MDMCFG4.spec_addr(),
        Field::DrateE.spec_insert(
            Field::ChanbwM.spec_insert(
                Field::ChanbwE.spec_insert(config::Register::MDMCFG4.spec_reset(), 0x03),
                0x00,
            ),
            0x0A,
        ),
    ) + register_write_txn(
        config::Register::MDMCFG3.spec_addr(),
        Field::DrateM.spec_insert(config::Register::MDMCFG3.spec_reset(), 0x83),
    ) + register_write_txn(
        config::Register::MDMCFG2.spec_addr(),
        Field::DemDcfiltOff.spec_insert(config::Register::MDMCFG2.spec_reset(), 1),
    ) + register_write_txn(
        config::Register::DEVIATN.spec_addr(),
        Field::DeviationM.spec_insert(
            Field::DeviationE.spec_insert(config::Register::DEVIATN.spec_reset(), 0x03),
            0x05,
        ),
    ) + register_write_txn(
        config::Register::MCSM0.spec_addr(),
        Field::FsAutocal.spec_insert(
            config::Register::MCSM0.spec_reset(),
            config::AutoCalibration::FROM_IDLE.spec_value(),
        ),
    ) + register_write_txn(
        config::Register::AGCCTRL2.spec_addr(),
        Field::MaxLnaGain.spec_insert(config::Register::AGCCTRL2.spec_reset(), 0x04),
    )
}

/// The three frequency register writes for a carrier frequency, high byte first.
pub open spec fn frequency_writes(hz: int) -> Seq<BusEvent> {
    let f = frequency_fields(hz);
    register_write_txn(config::Register::FREQ2.spec_addr(), f.2) + register_write_txn(
        config::Register::FREQ1.spec_addr(),
        f.1,
    ) + register_write_txn(config::Register::FREQ0.spec_addr(), f.0)
}

} // verus!
