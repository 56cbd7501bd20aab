use mini_bootloader::flash::FlashError;
use mini_bootloader::partition;
use mini_bootloader::partition::{
    PartitionEntry, PartitionError, PARTITION_TABLE_READ_LEN, PART_TYPE_APP, PART_TYPE_DATA,
};

fn record(kind: u8, subtype: u8, offset: u32, size: u32, label: &[u8]) -> [u8; 32] {
    let mut b = [0u8; 32];
    b[0] = 0xAA;
    b[1] = 0x50;
    b[2] = kind;
    b[3] = subtype;
    b[4..8].copy_from_slice(&offset.to_le_bytes());
    b[8..12].copy_from_slice(&size.to_le_bytes());
    b[12..12 + label.len()].copy_from_slice(label);
    b
}

/// A table with these records, blank flash behind them.
fn table(records: &[[u8; 32]]) -> [u8; PARTITION_TABLE_READ_LEN] {
    let mut t = [0xFFu8; PARTITION_TABLE_READ_LEN];
    for (i, r) in records.iter().enumerate() {
        t[i * 32..(i + 1) * 32].copy_from_slice(r);
    }
    t
}

fn checksum() -> [u8; 32] {
    let mut b = [0xFFu8; 32];
    b[0] = 0xEB;
    b[1] = 0xEB;
    b
}

#[test]
fn parse_real_partition_entry_decodes_offset_and_label() {
    // Real bytes captured from flash@0x8000.
    let entry: [u8; 32] = [
        0xAA, 0x50, 0x01, 0x02, 0x00, 0x90, 0x00, 0x00, 0x00, 0x60, 0x00, 0x00, 0x6E, 0x76, 0x73,
        0x00, 0x00, 0x00, 0x00, 0x00, 0x00, 0x00, 0x00, 0x00, 0x00, 0x00, 0x00, 0x00, 0x00, 0x00,
        0x00, 0x00,
    ];
    let p = PartitionEntry::parse(&entry).unwrap();
    assert_eq!(p.kind, PART_TYPE_DATA);
    assert_eq!(p.subtype, 0x02);
    assert_eq!(p.offset, 0x9000);
    assert_eq!(p.size, 0x6000);
    assert_eq!(p.label_str(), "nvs");
}

#[test]
fn parse_rejects_bad_magic() {
    let mut entry = [0u8; 32];
    entry[0] = 0x55;
    entry[1] = 0x55;
    assert!(PartitionEntry::parse(&entry).is_none());
}

#[test]
fn record_round_trips() {
    let p = PartitionEntry::parse(&record(0, 0x10, 0x12345678, 0x9ABCDEF0, b"ota_0")).unwrap();
    assert_eq!(p.kind, PART_TYPE_APP);
    assert_eq!(p.subtype, 0x10);
    assert_eq!(p.offset, 0x12345678);
    assert_eq!(p.size, 0x9ABCDEF0);
    assert_eq!(&p.label, b"ota_0\0\0\0\0\0\0\0\0\0\0\0");
}

#[test]
fn label_may_fill_its_field() {
    let p = PartitionEntry::parse(&record(1, 0, 0, 0, b"abcdefghijklmnop")).unwrap();
    assert_eq!(p.label_str(), "abcdefghijklmnop");
}

#[test]
fn label_ends_at_its_first_nul() {
    let p = PartitionEntry::parse(&record(1, 0, 0, 0, b"ab\0cd")).unwrap();
    assert_eq!(p.label_str(), "ab");
}

#[test]
fn label_that_is_no_utf8_reads_as_nothing() {
    let p = PartitionEntry::parse(&record(1, 0, 0, 0, &[0x61, 0xC3, 0x28])).unwrap();
    assert_eq!(p.label_str(), "");
    let p = PartitionEntry::parse(&record(1, 0, 0, 0, "caf\u{e9}".as_bytes())).unwrap();
    assert_eq!(p.label_str(), "caf\u{e9}");
}

#[test]
fn walk_skips_the_checksum_and_stops_at_blank_flash() {
    let t = table(&[
        record(1, 2, 0x9000, 0x6000, b"nvs"),
        checksum(),
        record(0, 0, 0x20000, 0x100000, b"factory"),
        [0xFF; 32],
        record(0, 0x10, 0x120000, 0x100000, b"ota_0"),
    ]);
    let labels: Vec<String> =
        partition::entries(&t).iter().map(|p| p.label_str().to_string()).collect();
    assert_eq!(labels, vec!["nvs", "factory"]);
}

#[test]
fn walk_stops_at_a_record_of_the_end_type() {
    let t = table(&[
        record(1, 2, 0x9000, 0x6000, b"nvs"),
        record(0xFF, 0, 0x10000, 0x1000, b"end"),
        record(0, 0, 0x20000, 0x100000, b"factory"),
    ]);
    let found = partition::entries(&t);
    assert_eq!(found.len(), 1);
    assert_eq!(found[0].label_str(), "nvs");
    assert!(matches!(partition::find_factory_app(Ok(&t)), Err(PartitionError::NoFactoryApp)));
    assert!(matches!(partition::find_by_label(Ok(&t), "end"), Err(PartitionError::NoFactoryApp)));
    // A record by itself still decodes: what ends a table is for the walk to say.
    assert!(PartitionEntry::parse(&record(0xFF, 0, 0, 0, b"end")).is_some());
}

#[test]
fn walk_ends_with_the_table() {
    let full = vec![record(1, 2, 0, 0, b"x"); 32];
    assert_eq!(partition::entries(&table(&full)).len(), 32);
}

#[test]
fn factory_app_is_found_by_kind_and_subtype() {
    let t = table(&[
        record(1, 0, 0x9000, 0x6000, b"factory"),
        record(0, 0x10, 0x10000, 0x1000, b"ota_0"),
        record(0, 0, 0x20000, 0x1000, b"first"),
        record(0, 0, 0x30000, 0x1000, b"second"),
    ]);
    let p = partition::find_factory_app(Ok(&t)).unwrap();
    assert_eq!(p.offset, 0x20000);
    assert_eq!(p.label_str(), "first");
}

#[test]
fn partition_is_found_by_its_whole_label() {
    let t = table(&[
        record(0, 0x10, 0x10000, 0x1000, b"ota_00"),
        record(0, 0x10, 0x20000, 0x1000, b"ota_0"),
        record(0, 0x10, 0x30000, 0x1000, b"ota_0"),
    ]);
    assert_eq!(partition::find_by_label(Ok(&t), "ota_0").unwrap().offset, 0x20000);
    assert_eq!(partition::find_by_label(Ok(&t), "ota_00").unwrap().offset, 0x10000);
    assert!(matches!(
        partition::find_by_label(Ok(&t), "ota_1"),
        Err(PartitionError::NoFactoryApp)
    ));
}

#[test]
fn lookup_reports_each_failure() {
    let t = table(&[record(1, 2, 0x9000, 0x6000, b"nvs")]);
    assert!(matches!(
        partition::find_factory_app(Ok(&t)),
        Err(PartitionError::NoFactoryApp)
    ));
    assert!(matches!(
        partition::find_factory_app(Err(FlashError::Rom(9))),
        Err(PartitionError::Flash(FlashError::Rom(9)))
    ));
    assert!(matches!(
        partition::find_by_label(Err(FlashError::Unaligned), "nvs"),
        Err(PartitionError::Flash(FlashError::Unaligned))
    ));
}
