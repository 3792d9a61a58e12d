use file_inventory::EntryInfo;
use file_inventory::EntryKind;
use file_inventory::FileMeta;
use file_inventory::FileRecord;
use file_inventory::collect_and_sort;
use file_inventory::render_rows;
use file_inventory::report_bytes;

fn record(path: &str, size: u64, secs: i64, nanos: u32) -> FileRecord {
    FileRecord { path: path.to_string(), size_bytes: size, mtime_secs: secs, mtime_nanos: nanos }
}

fn parse(bytes: &[u8]) -> Vec<Vec<String>> {
    let mut rd = csv::ReaderBuilder::new().has_headers(false).from_reader(bytes);
    let mut rows = Vec::new();
    for rec in rd.records() {
        let rec = rec.unwrap();
        rows.push(rec.iter().map(|f| f.to_string()).collect());
    }
    rows
}

#[test]
fn empty_scan_yields_header_only_report() {
    // An empty directory's traversal yields at most the root directory
    // entry: no regular files, nothing recorded.
    let entries = vec![EntryInfo { kind: EntryKind::Dir, path: ".".to_string(), meta: None }];
    let (records, processed) = collect_and_sort(entries);
    assert_eq!(processed, 0);
    assert_eq!(records.len(), 0);
    let bytes = report_bytes(&records, 0).unwrap();
    let rows = parse(&bytes);
    assert_eq!(rows, vec![vec!["Path", "Modified On", "Size (MB)"]]);
}

#[test]
fn single_file_scenario() {
    let entries = vec![
        EntryInfo { kind: EntryKind::Dir, path: ".".to_string(), meta: None },
        EntryInfo {
            kind: EntryKind::File,
            path: "./f.bin".to_string(),
            meta: Some(FileMeta { size_bytes: 1048576, mtime_secs: 1614834367, mtime_nanos: 0 }),
        },
    ];
    let (records, processed) = collect_and_sort(entries);
    assert_eq!(processed, 1);
    let bytes = report_bytes(&records, 0).unwrap();
    let rows = parse(&bytes);
    assert_eq!(rows.len(), 2);
    assert_eq!(rows[1], vec!["./f.bin", "2021-03-04 05:06:07", "1.00"]);
}

#[test]
fn report_rows_carry_all_fields_in_order() {
    let records = vec![record("a.txt", 2097152, 0, 0), record("b.txt", 1048576, 1614834367, 0)];
    let rows = render_rows(&records, 0).unwrap();
    assert_eq!(rows.len(), 3);
    assert_eq!(rows[0], vec!["Path", "Modified On", "Size (MB)"]);
    assert_eq!(rows[1], vec!["a.txt", "1970-01-01 00:00:00", "2.00"]);
    assert_eq!(rows[2], vec!["b.txt", "2021-03-04 05:06:07", "1.00"]);
}

#[test]
fn report_refused_when_a_timestamp_is_unrenderable() {
    let records = vec![record("a", 0, 0, 0), record("far", 0, 253402300800, 0)];
    assert!(render_rows(&records, 0).is_none());
    assert!(report_bytes(&records, 0).is_none());
}

#[test]
fn paths_with_delimiters_survive_the_encoding() {
    let records = vec![
        record("dir/with, comma.txt", 0, 0, 0),
        record("quote\"inside", 0, 1, 0),
        record("line\nbreak", 0, 2, 0),
    ];
    let bytes = report_bytes(&records, 0).unwrap();
    let rows = parse(&bytes);
    assert_eq!(rows.len(), 4);
    assert_eq!(rows[1][0], "dir/with, comma.txt");
    assert_eq!(rows[2][0], "quote\"inside");
    assert_eq!(rows[3][0], "line\nbreak");
}

#[test]
fn local_report_of_no_records_is_header_only() {
    // With nothing recorded, the local-time report is owed: no time-zone
    // lookup happens and the write step gets its header-only bytes.
    let records: Vec<FileRecord> = Vec::new();
    let bytes = file_inventory::report_bytes_local(&records).unwrap();
    let rows = parse(&bytes);
    assert_eq!(rows, vec![vec!["Path", "Modified On", "Size (MB)"]]);
}

#[test]
fn local_report_renders_one_row_per_record() {
    // The exact timestamp depends on the machine's time zone; the shape,
    // order and path column do not.
    let records = vec![record("b.txt", 1048576, 1000000000, 0), record("a.txt", 2097152, 0, 0)];
    let rows = file_inventory::render_rows_local(&records).unwrap();
    assert_eq!(rows.len(), 3);
    assert_eq!(rows[0], vec!["Path", "Modified On", "Size (MB)"]);
    assert_eq!(rows[1][0], "b.txt");
    assert_eq!(rows[1][2], "1.00");
    assert_eq!(rows[2][0], "a.txt");
    assert_eq!(rows[2][2], "2.00");
}

#[test]
fn written_report_reparses_in_mtime_order() {
    let entries = vec![
        EntryInfo {
            kind: EntryKind::File,
            path: "late".to_string(),
            meta: Some(FileMeta { size_bytes: 1, mtime_secs: 1614834367, mtime_nanos: 0 }),
        },
        EntryInfo {
            kind: EntryKind::File,
            path: "tie-first".to_string(),
            meta: Some(FileMeta { size_bytes: 2, mtime_secs: 1000000000, mtime_nanos: 5 }),
        },
        EntryInfo { kind: EntryKind::Dir, path: "d".to_string(), meta: None },
        EntryInfo {
            kind: EntryKind::File,
            path: "tie-second".to_string(),
            meta: Some(FileMeta { size_bytes: 3, mtime_secs: 1000000000, mtime_nanos: 5 }),
        },
        EntryInfo {
            kind: EntryKind::File,
            path: "early".to_string(),
            meta: Some(FileMeta { size_bytes: 4, mtime_secs: 0, mtime_nanos: 0 }),
        },
    ];
    let (records, processed) = collect_and_sort(entries);
    assert_eq!(processed, 4);
    let bytes = report_bytes(&records, 0).unwrap();
    let rows = parse(&bytes);
    assert_eq!(rows.len(), 5);
    // Non-decreasing in the timestamp column (the layout sorts as text).
    for w in rows[1..].windows(2) {
        assert!(w[0][1] <= w[1][1]);
    }
    // Stable: the two records with the same instant keep traversal order.
    assert_eq!(rows[1][0], "early");
    assert_eq!(rows[2][0], "tie-first");
    assert_eq!(rows[3][0], "tie-second");
    assert_eq!(rows[4][0], "late");
}
