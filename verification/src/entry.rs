//! The data model: filesystem entries as the traversal reports them, and the
//! records kept for regular files whose metadata could be read.

use vstd::prelude::*;

verus! {

/// Classification of a filesystem entry as the traversal reports it.
#[derive(Clone, Copy, PartialEq, Eq, Structural, Debug)]
pub enum EntryKind {
    /// A regular file: the only kind that is counted and may be recorded.
    File,
    /// A directory: traversed through, never recorded.
    Dir,
    /// Anything else (symlink, device, ...): ignored.
    Other,
}

/// Metadata of a regular file, when the filesystem yielded it: byte size and
/// the last-modification instant as seconds since the Unix epoch plus a
/// sub-second nanosecond part.
#[derive(Clone, Copy, Debug)]
pub struct FileMeta {
    pub size_bytes: u64,
    pub mtime_secs: i64,
    pub mtime_nanos: u32,
}

/// One filesystem entry handed to the collector: its classification, its path
/// rendered as text, and its metadata where both the metadata read and the
/// modification-time lookup succeeded.
pub struct EntryInfo {
    pub kind: EntryKind,
    pub path: String,
    pub meta: Option<FileMeta>,
}

/// One collected record: a regular file whose metadata was read successfully.
pub struct FileRecord {
    pub path: String,
    pub size_bytes: u64,
    pub mtime_secs: i64,
    pub mtime_nanos: u32,
}

impl FileRecord {
    /// The sort key: modification instant, seconds first, then nanoseconds.
    pub open spec fn key(self) -> (i64, u32) {
        (self.mtime_secs, self.mtime_nanos)
    }
}

/// Key order: non-decreasing modification instant.
pub open spec fn key_le(a: FileRecord, b: FileRecord) -> bool {
    a.mtime_secs < b.mtime_secs
        || (a.mtime_secs == b.mtime_secs && a.mtime_nanos <= b.mtime_nanos)
}

/// A duration from the epoch, taken forwards or backwards, as the floored
/// seconds-plus-nanoseconds instant that `FileMeta` carries: for an instant
/// before the epoch the seconds are rounded down and the nanosecond part
/// borrows up, so it stays in range and the pair still orders correctly.
pub fn epoch_parts(pre_epoch: bool, secs: u64, nanos: u32) -> (r: (i64, u32))
    requires
        secs < i64::MAX as u64,
        nanos < 1_000_000_000,
    ensures
        r.1 < 1_000_000_000,
        r.0 * 1_000_000_000 + r.1 == (if pre_epoch {
            -((secs as int) * 1_000_000_000 + nanos)
        } else {
            (secs as int) * 1_000_000_000 + nanos
        }),
{
    if pre_epoch {
        if nanos == 0 {
            (-(secs as i64), 0)
        } else {
            (-(secs as i64) - 1, 1_000_000_000 - nanos)
        }
    } else {
        (secs as i64, nanos)
    }
}

} // verus!
