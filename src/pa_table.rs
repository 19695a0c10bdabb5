//! Power-amplifier calibration table: one 10-entry row per frequency band.
use vstd::prelude::*;

verus! {

/// The calibrated row of one frequency band (315, 433, 868 and 915 MHz), one
/// entry per output power bucket, lowest power first.
pub open spec fn pa_row(band: int) -> Seq<u8> {
    if band == 0 {
        seq![0x12u8, 0x0D, 0x1C, 0x34, 0x51, 0x51, 0x85, 0xCB, 0xC2, 0xC2]
    } else if band == 1 {
        seq![0x12u8, 0x0E, 0x1D, 0x34, 0x60, 0x60, 0x84, 0xC8, 0xC0, 0xC0]
    } else if band == 2 {
        seq![0x03u8, 0x17, 0x1D, 0x26, 0x37, 0x50, 0x86, 0xCD, 0xC5, 0xC0]
    } else {
        seq![0x03u8, 0x0E, 0x1E, 0x27, 0x38, 0x8E, 0x84, 0xCC, 0xC3, 0xC0]
    }
}

/// The band of a frequency in Hz, by fixed inclusive ranges.
pub open spec fn band_of(hz: int) -> int {
    if hz <= 363_000_000 {
        0
    } else if hz <= 621_500_000 {
        1
    } else if hz <= 899_990_000 {
        2
    } else {
        3
    }
}

/// The row entry for an output power in dBm, by fixed non-uniform buckets:
/// up to -30, -29..-20, -19..-15, -14..-12, -11..-6, -5..0, 1..5, 6..7, 8..10, from 11.
pub open spec fn power_row(dbm: int) -> int {
    if dbm <= -30 {
        0
    } else if dbm <= -20 {
        1
    } else if dbm <= -15 {
        2
    } else if dbm <= -12 {
        3
    } else if dbm <= -6 {
        4
    } else if dbm <= 0 {
        5
    } else if dbm <= 5 {
        6
    } else if dbm <= 7 {
        7
    } else if dbm <= 10 {
        8
    } else {
        9
    }
}

/// The burst payload of a row: the row without its entries 5 and 9.
pub open spec fn wire_payload(row: Seq<u8>) -> Seq<u8> {
    row.subrange(0, 5) + row.subrange(6, 9)
}

/// One calibrated power-amplifier row.
#[derive(Debug, Clone, Copy)]
pub struct PaColumn(pub [u8; 10]);

impl PaColumn {
    /// The entry of this row for an output power in dBm.
    pub fn output_power_value(&self, output_dbm: i32) -> (r: u8)
        ensures
            r == self.0@[power_row(output_dbm as int)],
    {
        let index = output_power_row_index(output_dbm);
        self.0[index]
    }

    /// The condensed entries that are written to the chip in one burst.
    pub fn values(&self) -> (r: [u8; 8])
        ensures
            r@ == wire_payload(self.0@),
    {
        let r = [
            self.0[0],
            self.0[1],
            self.0[2],
            self.0[3],
            self.0[4],
            self.0[6],
            self.0[7],
            self.0[8],
        ];
        assert(r@ =~= wire_payload(self.0@));
        r
    }

    /// The entry at position `index` of this row.
    pub fn index(&self, index: usize) -> (r: u8)
        requires
            index < 10,
        ensures
            r == self.0@[index as int],
    {
        self.0[index]
    }
}

/// The row of the band that holds the frequency `hz`.
pub fn pa_table(hz: u64) -> (r: PaColumn)
    ensures
        r.0@ == pa_row(band_of(hz as int)),
{
    let band = table_column_index(hz);
    let r = if band == 0 {
        PaColumn([0x12, 0x0D, 0x1C, 0x34, 0x51, 0x51, 0x85, 0xCB, 0xC2, 0xC2])
    } else if band == 1 {
        PaColumn([0x12, 0x0E, 0x1D, 0x34, 0x60, 0x60, 0x84, 0xC8, 0xC0, 0xC0])
    } else if band == 2 {
        PaColumn([0x03, 0x17, 0x1D, 0x26, 0x37, 0x50, 0x86, 0xCD, 0xC5, 0xC0])
    } else {
        PaColumn([0x03, 0x0E, 0x1E, 0x27, 0x38, 0x8E, 0x84, 0xCC, 0xC3, 0xC0])
    };
    assert(r.0@ =~= pa_row(band as int));
    r
}

/// The band index (0 to 3) of a frequency in Hz, whether or not the radio can use it.
pub fn table_column_index(hz: u64) -> (r: usize)
    ensures
        r as int == band_of(hz as int),
{
    if hz <= 363_000_000 {
        0
    } else if hz <= 621_500_000 {
        1
    } else if hz <= 899_990_000 {
        2
    } else {
        3
    }
}

/// The row index (0 to 9) for an output power in dBm.
pub fn output_power_row_index(output_dbm: i32) -> (r: usize)
    ensures
        r as int == power_row(output_dbm as int),
        r < 10,
{
    if output_dbm <= -30 {
        0
    } else if output_dbm <= -20 {
        1
    } else if output_dbm <= -15 {
        2
    } else if output_dbm <= -12 {
        3
    } else if output_dbm <= -6 {
        4
    } else if output_dbm <= 0 {
        5
    } else if output_dbm <= 5 {
        6
    } else if output_dbm <= 7 {
        7
    } else if output_dbm <= 10 {
        8
    } else {
        9
    }
}

} // verus!
