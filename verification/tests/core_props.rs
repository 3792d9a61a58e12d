use file_inventory::EntryInfo;
use file_inventory::EntryKind;
use file_inventory::FileMeta;
use file_inventory::FileRecord;
use file_inventory::Scanner;
use file_inventory::format_timestamp;
use file_inventory::render_u64;
use file_inventory::size_mb_string;
use file_inventory::sort_by_mtime;

fn file_entry(path: &str, size: u64, secs: i64) -> EntryInfo {
    EntryInfo {
        kind: EntryKind::File,
        path: path.to_string(),
        meta: Some(FileMeta { size_bytes: size, mtime_secs: secs, mtime_nanos: 0 }),
    }
}

fn record(path: &str, size: u64, secs: i64, nanos: u32) -> FileRecord {
    FileRecord { path: path.to_string(), size_bytes: size, mtime_secs: secs, mtime_nanos: nanos }
}

#[test]
fn scanner_counts_files_and_keeps_readable_metadata() {
    let entries = vec![
        EntryInfo { kind: EntryKind::Dir, path: "root".to_string(), meta: None },
        file_entry("root/a.txt", 10, 100),
        EntryInfo { kind: EntryKind::File, path: "root/locked.txt".to_string(), meta: None },
        EntryInfo {
            kind: EntryKind::Other,
            path: "root/link".to_string(),
            meta: Some(FileMeta { size_bytes: 5, mtime_secs: 7, mtime_nanos: 0 }),
        },
        file_entry("root/b.txt", 20, 50),
    ];
    let s = Scanner::scan(entries);
    // Three regular files were seen, metadata readable or not.
    assert_eq!(s.processed, 3);
    // Only the two with readable metadata became records.
    assert_eq!(s.records.len(), 2);
    assert_eq!(s.records[0].path, "root/a.txt");
    assert_eq!(s.records[0].size_bytes, 10);
    assert_eq!(s.records[0].mtime_secs, 100);
    assert_eq!(s.records[1].path, "root/b.txt");
    assert_eq!(s.records[1].mtime_secs, 50);
}

#[test]
fn scanner_ignores_directories_and_other_entries() {
    let entries = vec![
        EntryInfo { kind: EntryKind::Dir, path: "a".to_string(), meta: None },
        EntryInfo {
            kind: EntryKind::Dir,
            path: "a/b".to_string(),
            meta: Some(FileMeta { size_bytes: 1, mtime_secs: 1, mtime_nanos: 0 }),
        },
        EntryInfo { kind: EntryKind::Other, path: "a/dev".to_string(), meta: None },
    ];
    let s = Scanner::scan(entries);
    assert_eq!(s.processed, 0);
    assert_eq!(s.records.len(), 0);
}

#[test]
fn scanner_on_no_entries() {
    let s = Scanner::scan(Vec::new());
    assert_eq!(s.processed, 0);
    assert_eq!(s.records.len(), 0);
}

#[test]
fn observe_counts_unreadable_file_without_recording() {
    let mut s = Scanner::new();
    s.observe(EntryInfo { kind: EntryKind::File, path: "x".to_string(), meta: None });
    assert_eq!(s.processed, 1);
    assert_eq!(s.records.len(), 0);
}

#[test]
fn sort_orders_by_instant_and_keeps_ties_stable() {
    let mut v = vec![
        record("a", 0, 5, 0),
        record("b", 0, 1, 0),
        record("c", 0, 5, 0),
        record("d", 0, 1, 0),
        record("e", 0, 3, 999),
        record("f", 0, 3, 1),
    ];
    sort_by_mtime(&mut v);
    let order: Vec<&str> = v.iter().map(|r| r.path.as_str()).collect();
    assert_eq!(order, vec!["b", "d", "f", "e", "a", "c"]);
}

#[test]
fn sort_of_empty_and_single() {
    let mut v: Vec<FileRecord> = Vec::new();
    sort_by_mtime(&mut v);
    assert_eq!(v.len(), 0);
    let mut v = vec![record("a", 1, 2, 3)];
    sort_by_mtime(&mut v);
    assert_eq!(v.len(), 1);
    assert_eq!(v[0].path, "a");
}

#[test]
fn timestamp_of_the_epoch() {
    assert_eq!(format_timestamp(0, 0).unwrap(), "1970-01-01 00:00:00");
}

#[test]
fn timestamp_of_known_instants() {
    assert_eq!(format_timestamp(1614834367, 0).unwrap(), "2021-03-04 05:06:07");
    assert_eq!(format_timestamp(1582977600, 0).unwrap(), "2020-02-29 12:00:00");
    assert_eq!(format_timestamp(-1, 0).unwrap(), "1969-12-31 23:59:59");
}

#[test]
fn timestamp_applies_the_offset() {
    assert_eq!(format_timestamp(1614834367, 3600).unwrap(), "2021-03-04 06:06:07");
    assert_eq!(format_timestamp(0, -1).unwrap(), "1969-12-31 23:59:59");
}

#[test]
fn timestamp_range_edges() {
    assert_eq!(format_timestamp(253402300799, 0).unwrap(), "9999-12-31 23:59:59");
    assert_eq!(format_timestamp(-62167219200, 0).unwrap(), "0000-01-01 00:00:00");
    assert!(format_timestamp(253402300800, 0).is_none());
    assert!(format_timestamp(-62167219201, 0).is_none());
    assert!(format_timestamp(i64::MAX, 1).is_none());
}

#[test]
fn size_of_two_exact_megabytes() {
    assert_eq!(size_mb_string(2097152), "2.00");
}

#[test]
fn size_formatting_cases() {
    assert_eq!(size_mb_string(0), "0.00");
    assert_eq!(size_mb_string(1048576), "1.00");
    assert_eq!(size_mb_string(1572864), "1.50");
    assert_eq!(size_mb_string(1000000), "0.95");
    assert_eq!(size_mb_string(3221225472), "3072.00");
    assert_eq!(size_mb_string(1), "0.00");
    assert_eq!(size_mb_string(524288), "0.50");
}

#[test]
fn civil_split_of_a_known_instant() {
    let ct = file_inventory::civil_from_local(1614834367).unwrap();
    assert_eq!(
        (ct.year, ct.month, ct.day, ct.hour, ct.minute, ct.second),
        (2021, 3, 4, 5, 6, 7)
    );
    let ct = file_inventory::civil_from_local(-1).unwrap();
    assert_eq!(
        (ct.year, ct.month, ct.day, ct.hour, ct.minute, ct.second),
        (1969, 12, 31, 23, 59, 59)
    );
    assert!(file_inventory::civil_from_local(253402300800).is_none());
    assert!(file_inventory::civil_from_local(-62167219201).is_none());
}

#[test]
fn epoch_parts_floors_pre_epoch_instants() {
    assert_eq!(file_inventory::epoch_parts(false, 5, 10), (5, 10));
    assert_eq!(file_inventory::epoch_parts(false, 0, 0), (0, 0));
    assert_eq!(file_inventory::epoch_parts(true, 5, 0), (-5, 0));
    assert_eq!(file_inventory::epoch_parts(true, 5, 250_000_000), (-6, 750_000_000));
    assert_eq!(file_inventory::epoch_parts(true, 0, 1), (-1, 999_999_999));
}

#[test]
fn plain_decimal_rendering() {
    assert_eq!(render_u64(0), "0");
    assert_eq!(render_u64(7), "7");
    assert_eq!(render_u64(1234567890), "1234567890");
}
