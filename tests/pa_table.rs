use cc1101::pa_table::{output_power_row_index, pa_table, table_column_index};

#[test]
fn band_boundaries() {
    assert_eq!(table_column_index(0), 0);
    assert_eq!(table_column_index(363_000_000), 0);
    assert_eq!(table_column_index(363_000_001), 1);
    assert_eq!(table_column_index(621_500_000), 1);
    assert_eq!(table_column_index(621_500_001), 2);
    assert_eq!(table_column_index(899_990_000), 2);
    assert_eq!(table_column_index(899_990_001), 3);
    assert_eq!(table_column_index(u64::MAX), 3);
}

#[test]
fn band_rows() {
    assert_eq!(pa_table(315_000_000).0, [0x12, 0x0D, 0x1C, 0x34, 0x51, 0x51, 0x85, 0xCB, 0xC2, 0xC2]);
    assert_eq!(pa_table(433_000_000).0, [0x12, 0x0E, 0x1D, 0x34, 0x60, 0x60, 0x84, 0xC8, 0xC0, 0xC0]);
    assert_eq!(pa_table(868_000_000).0, [0x03, 0x17, 0x1D, 0x26, 0x37, 0x50, 0x86, 0xCD, 0xC5, 0xC0]);
    assert_eq!(pa_table(915_000_000).0, [0x03, 0x0E, 0x1E, 0x27, 0x38, 0x8E, 0x84, 0xCC, 0xC3, 0xC0]);
}

#[test]
fn power_buckets() {
    assert_eq!(output_power_row_index(i32::MIN), 0);
    assert_eq!(output_power_row_index(-30), 0);
    assert_eq!(output_power_row_index(-20), 1);
    assert_eq!(output_power_row_index(-15), 2);
    assert_eq!(output_power_row_index(-12), 3);
    assert_eq!(output_power_row_index(-11), 4);
    assert_eq!(output_power_row_index(-6), 4);
    assert_eq!(output_power_row_index(-5), 5);
    assert_eq!(output_power_row_index(0), 5);
    assert_eq!(output_power_row_index(5), 6);
    assert_eq!(output_power_row_index(7), 7);
    assert_eq!(output_power_row_index(8), 8);
    assert_eq!(output_power_row_index(10), 8);
    assert_eq!(output_power_row_index(11), 9);
    assert_eq!(output_power_row_index(i32::MAX), 9);
}

#[test]
fn merged_power_buckets_share_a_value() {
    let column = pa_table(868_000_000);
    assert_eq!(column.output_power_value(-11), column.output_power_value(-6));
    assert_eq!(column.output_power_value(-6), 0x37);
    assert_eq!(column.output_power_value(-5), 0x50);
    assert_eq!(column.output_power_value(10), 0xC5);
    assert_eq!(column.output_power_value(11), 0xC0);
}

#[test]
fn wire_payload_drops_entries_five_and_nine() {
    let column = pa_table(915_000_000);
    assert_eq!(column.values(), [0x03, 0x0E, 0x1E, 0x27, 0x38, 0x84, 0xCC, 0xC3]);
    assert_eq!(column.index(5), 0x8E);
    assert_eq!(column.index(9), 0xC0);
}
