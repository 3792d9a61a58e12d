//! Scans a directory tree's entries, collects per-file metadata records,
//! sorts them by modification time, and renders a CSV report.

use vstd::prelude::*;

mod calendar;
mod collect;
mod entry;
mod render;
mod report;
mod sort;

pub use calendar::Civil;
pub use calendar::CivilTime;
pub use calendar::civil_from_local;
pub use calendar::days_before_month;
pub use calendar::days_before_year;
pub use calendar::days_from_civil;
pub use calendar::days_in_month;
pub use calendar::days_in_year;
pub use calendar::is_leap_year;
pub use calendar::lemma_civil_secs_bounds;
pub use calendar::lemma_civil_unique;
pub use calendar::lemma_representable_window;
pub use calendar::representable;
pub use collect::Scanner;
pub use collect::count_files;
pub use collect::is_counted;
pub use collect::is_recorded;
pub use collect::lemma_non_files_contribute_nothing;
pub use collect::lemma_recorded_entry_has_record;
pub use collect::record_of;
pub use collect::records_of;
pub use entry::EntryKind;
pub use entry::epoch_parts;
pub use entry::key_le;
pub use render::dec_digit;
pub use render::dec_string;
pub use render::format_civil;
pub use render::four_digits;
pub use render::render_civil;
pub use render::render_u64;
pub use render::size_hundredths;
pub use render::size_mb_string;
pub use render::size_string;
pub use render::two_digits;
pub use report::bounded_offs;
pub use report::collect_and_sort;
pub use report::const_offs;
pub use report::csv_encoding;
pub use report::format_timestamp;
pub use report::header;
pub use report::header_row;
pub use report::lemma_row_deterministic;
pub use report::render_row;
pub use report::render_rows;
pub use report::render_rows_local;
pub use report::renders_report;
pub use report::renders_row;
pub use report::report_bytes;
pub use report::report_bytes_local;
pub use sort::same_keyed_runs;
pub use sort::sort_by_mtime;
pub use sort::sorted_by_mtime;
pub use sort::with_key;
pub use entry::EntryInfo;
pub use entry::FileMeta;
pub use entry::FileRecord;

verus! {

} // verus!
