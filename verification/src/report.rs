//! The report writer's computational half: one header row, one row per
//! record — path, `YYYY-MM-DD HH:MM:SS` local timestamp, size in megabytes —
//! in the order given, encoded as CSV. The local time zone enters only as a
//! per-record UTC offset; writing the bytes out is the caller's business.

use vstd::prelude::*;
use vstd::string::StringExecFns;

use crate::calendar::Civil;
use crate::calendar::civil_from_local;
use crate::calendar::lemma_civil_unique;
use crate::calendar::lemma_representable_window;
use crate::calendar::representable;
use crate::collect::Scanner;
use crate::collect::count_files;
use crate::collect::records_of;
use crate::entry::EntryInfo;
use crate::entry::FileRecord;
use crate::render::format_civil;
use crate::render::render_civil;
use crate::render::size_mb_string;
use crate::render::size_string;
use crate::sort::same_keyed_runs;
use crate::sort::sort_by_mtime;
use crate::sort::sorted_by_mtime;

verus! {

/// The fixed header row: column labels for path, timestamp and size.
pub open spec fn header() -> Seq<Seq<char>> {
    seq!["Path"@, "Modified On"@, "Size (MB)"@]
}

/// `row` is the rendering of `rec` under the UTC offset `off`: the path as
/// given, the civil local time of the modification instant, the size in
/// megabytes with two decimals.
pub open spec fn renders_row(rec: FileRecord, off: int, row: Seq<Seq<char>>) -> bool {
    exists|c: Civil|
        c.wf() && c.local_secs() == rec.mtime_secs + off && row == seq![
            rec.path@,
            format_civil(c),
            size_string(rec.size_bytes as int),
        ]
}

/// `rows` is the whole report for `recs`: the header first, then the
/// rendering of each record in order, record `i` under offset `offs[i]`.
pub open spec fn renders_report(
    recs: Seq<FileRecord>,
    offs: Seq<int>,
    rows: Seq<Seq<Seq<char>>>,
) -> bool {
    &&& offs.len() == recs.len()
    &&& rows.len() == recs.len() + 1
    &&& rows[0] == header()
    &&& forall|i: int| 0 <= i < recs.len() ==> renders_row(recs[i], offs[i], #[trigger] rows[i + 1])
}

/// Offsets that a real time zone can produce: strictly within a day.
pub open spec fn bounded_offs(offs: Seq<int>) -> bool {
    forall|i: int| 0 <= i < offs.len() ==> -86400 < #[trigger] offs[i] < 86400
}

/// The same offset for every record.
pub open spec fn const_offs(n: nat, off: int) -> Seq<int> {
    Seq::new(n, |i: int| off)
}

/// Relies on chrono's `Local` time zone: the UTC offset in effect at the
/// given instant, in seconds east of UTC. chrono keeps a `FixedOffset`
/// strictly within a day; `None` when the instant lies outside chrono's
/// representable range.
#[verifier::external_body]
fn local_offset_secs(epoch_secs: i64) -> (r: Option<i32>)
    ensures
        r matches Some(off) ==> -86400 < off < 86400,
{
    match chrono::DateTime::<chrono::Utc>::from_timestamp(epoch_secs, 0) {
        Some(dt) => Some(
            chrono::TimeZone::offset_from_utc_datetime(&chrono::Local, &dt.naive_utc())
                .local_minus_utc(),
        ),
        None => None,
    }
}

/// The bytes that csv's writer produces for these rows, in order.
pub uninterp spec fn csv_encoding(rows: Seq<Seq<Seq<char>>>) -> Seq<u8>;

/// Relies on csv's `Writer` over an in-memory buffer: encodes the given rows
/// as comma-separated lines with standard CSV quoting, a function of the rows
/// alone.
#[verifier::external_body]
fn csv_encode(rows: &Vec<Vec<String>>) -> (r: Vec<u8>)
    ensures
        r@ == csv_encoding(rows.deep_view()),
{
    let mut w = csv::WriterBuilder::new().flexible(true).from_writer(std::vec::Vec::new());
    for row in rows {
        let _ = w.write_record(row);
    }
    match w.into_inner() {
        Ok(buf) => buf,
        Err(_) => std::vec::Vec::new(),
    }
}

/// The modification instant rendered as `YYYY-MM-DD HH:MM:SS` of the clock
/// shifted east of UTC by `off` seconds; `None` exactly when no year-0-to-
/// 9999 civil time denotes that shifted instant.
pub fn format_timestamp(secs: i64, off: i32) -> (r: Option<String>)
    ensures
        r matches Some(s) ==> exists|c: Civil|
            c.wf() && c.local_secs() == secs + off && s@ == format_civil(c),
        r is Some <==> representable(secs + off),
{
    match secs.checked_add(off as i64) {
        Some(local) => match civil_from_local(local) {
            Some(ct) => {
                let s = render_civil(&ct);
                proof {
                    let c = ct@;
                    assert(c.wf() && c.local_secs() == secs + off && s@ == format_civil(c));
                }
                Some(s)
            },
            None => None,
        },
        None => {
            proof {
                assert forall|c: Civil| c.wf() implies c.local_secs() != secs + off by {
                    lemma_representable_window(c);
                }
            }
            None
        },
    }
}

/// One report row for one record, under a fixed UTC offset.
pub fn render_row(rec: &FileRecord, off: i32) -> (r: Option<Vec<String>>)
    ensures
        r matches Some(row) ==> renders_row(*rec, off as int, row.deep_view()),
        r is Some <==> representable(rec.mtime_secs + off),
{
    match format_timestamp(rec.mtime_secs, off) {
        Some(ts) => {
            let ghost ts_view = ts@;
            let mut row: Vec<String> = Vec::new();
            row.push(rec.path.clone());
            row.push(ts);
            row.push(size_mb_string(rec.size_bytes));
            proof {
                assert(row.deep_view() =~= seq![
                    rec.path@,
                    ts_view,
                    size_string(rec.size_bytes as int),
                ]);
                let c = choose|c: Civil|
                    c.wf() && c.local_secs() == rec.mtime_secs + off && ts_view == format_civil(c);
                assert(c.wf() && c.local_secs() == rec.mtime_secs + off && row.deep_view() == seq![
                    rec.path@,
                    format_civil(c),
                    size_string(rec.size_bytes as int),
                ]);
            }
            Some(row)
        },
        None => None,
    }
}

/// The header row.
pub fn header_row() -> (r: Vec<String>)
    ensures
        r.deep_view() == header(),
{
    let mut r: Vec<String> = Vec::new();
    r.push(String::from_str("Path"));
    r.push(String::from_str("Modified On"));
    r.push(String::from_str("Size (MB)"));
    proof {
        assert(r.deep_view() =~= header());
    }
    r
}

/// The whole report under one fixed UTC offset: header first, then one row
/// per record, in the records' order. `None` exactly when some record's
/// shifted modification instant falls outside the years 0 through 9999.
pub fn render_rows(records: &Vec<FileRecord>, off: i32) -> (r: Option<Vec<Vec<String>>>)
    ensures
        r matches Some(rows) ==> renders_report(
            records@,
            const_offs(records@.len(), off as int),
            rows.deep_view(),
        ),
        r is Some <==> (forall|i: int|
            0 <= i < records@.len() ==> representable(records@[i].mtime_secs + off)),
{
    let mut rows: Vec<Vec<String>> = Vec::new();
    rows.push(header_row());
    let mut k: usize = 0;
    while k < records.len()
        invariant
            0 <= k <= records@.len(),
            rows.deep_view().len() == k + 1,
            rows.deep_view()[0] == header(),
            forall|i: int|
                0 <= i < k ==> renders_row(records@[i], off as int, #[trigger] rows.deep_view()[i
                    + 1]),
            forall|i: int| 0 <= i < k ==> representable(records@[i].mtime_secs + off),
        decreases records@.len() - k,
    {
        let ghost dv = rows.deep_view();
        match render_row(&records[k], off) {
            Some(row) => {
                rows.push(row);
                proof {
                    assert(rows.deep_view() =~= dv.push(row.deep_view()));
                }
            },
            None => {
                return None;
            },
        }
        k = k + 1;
    }
    proof {
        assert(renders_report(
            records@,
            const_offs(records@.len(), off as int),
            rows.deep_view(),
        ));
    }
    Some(rows)
}

/// The report under one fixed UTC offset, as CSV bytes.
pub fn report_bytes(records: &Vec<FileRecord>, off: i32) -> (r: Option<Vec<u8>>)
    ensures
        r matches Some(b) ==> exists|rows: Seq<Seq<Seq<char>>>|
            renders_report(records@, const_offs(records@.len(), off as int), rows) && b@
                == csv_encoding(rows),
        r is Some <==> (forall|i: int|
            0 <= i < records@.len() ==> representable(records@[i].mtime_secs + off)),
{
    match render_rows(records, off) {
        Some(rows) => {
            let b = csv_encode(&rows);
            proof {
                let rs = rows.deep_view();
                assert(renders_report(records@, const_offs(records@.len(), off as int), rs) && b@
                    == csv_encoding(rs));
            }
            Some(b)
        },
        None => None,
    }
}

/// The whole report with each record's timestamp shifted by the local time
/// zone's offset at that record's own instant, as the interactive exporter
/// writes it. `None` when some instant falls outside the renderable years or
/// outside the time-zone lookup's range.
pub fn render_rows_local(records: &Vec<FileRecord>) -> (r: Option<Vec<Vec<String>>>)
    ensures
        r matches Some(rows) ==> exists|offs: Seq<int>| bounded_offs(offs)
            && renders_report(records@, offs, rows.deep_view()),
        records@.len() == 0 ==> r is Some,
{
    let mut rows: Vec<Vec<String>> = Vec::new();
    rows.push(header_row());
    let ghost mut offs: Seq<int> = Seq::empty();
    let mut k: usize = 0;
    while k < records.len()
        invariant
            0 <= k <= records@.len(),
            offs.len() == k,
            forall|i: int| 0 <= i < k ==> -86400 < #[trigger] offs[i] < 86400,
            rows.deep_view().len() == k + 1,
            rows.deep_view()[0] == header(),
            forall|i: int|
                0 <= i < k ==> renders_row(records@[i], offs[i], #[trigger] rows.deep_view()[i
                    + 1]),
        decreases records@.len() - k,
    {
        let ghost dv = rows.deep_view();
        let off = match local_offset_secs(records[k].mtime_secs) {
            Some(off) => off,
            None => {
                return None;
            },
        };
        match render_row(&records[k], off) {
            Some(row) => {
                rows.push(row);
                proof {
                    assert(rows.deep_view() =~= dv.push(row.deep_view()));
                    offs = offs.push(off as int);
                }
            },
            None => {
                return None;
            },
        }
        k = k + 1;
    }
    proof {
        assert(bounded_offs(offs) && renders_report(records@, offs, rows.deep_view()));
    }
    Some(rows)
}

/// A record has exactly one rendering under a given offset: the timestamp's
/// civil reading is unique, so two rows that both render the record are the
/// same row.
pub proof fn lemma_row_deterministic(
    rec: FileRecord,
    off: int,
    r1: Seq<Seq<char>>,
    r2: Seq<Seq<char>>,
)
    requires
        renders_row(rec, off, r1),
        renders_row(rec, off, r2),
    ensures
        r1 == r2,
{
    let c1 = choose|c: Civil|
        c.wf() && c.local_secs() == rec.mtime_secs + off && r1 == seq![
            rec.path@,
            format_civil(c),
            size_string(rec.size_bytes as int),
        ];
    let c2 = choose|c: Civil|
        c.wf() && c.local_secs() == rec.mtime_secs + off && r2 == seq![
            rec.path@,
            format_civil(c),
            size_string(rec.size_bytes as int),
        ];
    lemma_civil_unique(c1, c2);
}

/// The scan-and-sort half of the exporter in one call: collect the records
/// of these traversal entries, sort them by modification instant (stable),
/// and hand back the sorted records with the processed-file count.
pub fn collect_and_sort(entries: Vec<EntryInfo>) -> (r: (Vec<FileRecord>, u64))
    ensures
        sorted_by_mtime(r.0@),
        r.0@.to_multiset() == records_of(entries@).to_multiset(),
        same_keyed_runs(records_of(entries@), r.0@),
        r.1 == count_files(entries@),
{
    let s = Scanner::scan(entries);
    let mut records = s.records;
    sort_by_mtime(&mut records);
    (records, s.processed)
}

/// The local-time report as CSV bytes.
pub fn report_bytes_local(records: &Vec<FileRecord>) -> (r: Option<Vec<u8>>)
    ensures
        r matches Some(b) ==> exists|offs: Seq<int>, rows: Seq<Seq<Seq<char>>>|
            bounded_offs(offs) && renders_report(records@, offs, rows) && b@
                == csv_encoding(rows),
        records@.len() == 0 ==> r is Some,
{
    match render_rows_local(records) {
        Some(rows) => {
            let b = csv_encode(&rows);
            proof {
                let offs = choose|offs: Seq<int>|
                    bounded_offs(offs) && renders_report(records@, offs, rows.deep_view());
                let rs = rows.deep_view();
                assert(bounded_offs(offs) && renders_report(records@, offs, rs) && b@
                    == csv_encoding(rs));
            }
            Some(b)
        },
        None => None,
    }
}

} // verus!
