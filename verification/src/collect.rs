//! The traversal collector: consumes filesystem entries one at a time,
//! counts every regular file, and keeps a record for each regular file whose
//! metadata was readable. Directories and other entry kinds contribute
//! nothing; a regular file without readable metadata is counted but not
//! recorded.

use vstd::prelude::*;

use crate::entry::EntryInfo;
use crate::entry::EntryKind;
use crate::entry::FileRecord;

verus! {

/// An entry increments the processed counter exactly when the traversal
/// classified it as a regular file.
pub open spec fn is_counted(e: EntryInfo) -> bool {
    e.kind == EntryKind::File
}

/// An entry yields a record exactly when it is a regular file whose metadata
/// (size and modification time) was read successfully.
pub open spec fn is_recorded(e: EntryInfo) -> bool {
    e.kind == EntryKind::File && e.meta is Some
}

/// The record kept for a recordable entry: its path and its metadata.
pub open spec fn record_of(e: EntryInfo) -> FileRecord {
    FileRecord {
        path: e.path,
        size_bytes: e.meta->Some_0.size_bytes,
        mtime_secs: e.meta->Some_0.mtime_secs,
        mtime_nanos: e.meta->Some_0.mtime_nanos,
    }
}

/// The records a scan of these entries produces, in traversal order.
pub open spec fn records_of(s: Seq<EntryInfo>) -> Seq<FileRecord> {
    s.filter(|e: EntryInfo| is_recorded(e)).map_values(|e: EntryInfo| record_of(e))
}

/// How many of these entries are regular files, metadata readable or not.
pub open spec fn count_files(s: Seq<EntryInfo>) -> nat {
    s.filter(|e: EntryInfo| is_counted(e)).len()
}

/// How one more entry extends the records and the counter.
proof fn lemma_scan_step(s: Seq<EntryInfo>, e: EntryInfo)
    ensures
        records_of(s.push(e)) == (if is_recorded(e) {
            records_of(s).push(record_of(e))
        } else {
            records_of(s)
        }),
        count_files(s.push(e)) == count_files(s) + (if is_counted(e) {
            1nat
        } else {
            0nat
        }),
{
    reveal(Seq::filter);
    let pr = |x: EntryInfo| is_recorded(x);
    let pc = |x: EntryInfo| is_counted(x);
    assert(s.push(e).drop_last() =~= s);
    assert(s.push(e).last() == e);
    if is_recorded(e) {
        assert(s.push(e).filter(pr) =~= s.filter(pr).push(e));
        assert(records_of(s.push(e)) =~= records_of(s).push(record_of(e)));
    } else {
        assert(s.push(e).filter(pr) =~= s.filter(pr));
        assert(records_of(s.push(e)) =~= records_of(s));
    }
    if is_counted(e) {
        assert(s.push(e).filter(pc) =~= s.filter(pc).push(e));
    } else {
        assert(s.push(e).filter(pc) =~= s.filter(pc));
    }
}

/// The collector's state: the records gathered so far and the running count
/// of regular files seen, success and metadata failure alike.
pub struct Scanner {
    pub records: Vec<FileRecord>,
    pub processed: u64,
}

impl Scanner {
    pub fn new() -> (s: Scanner)
        ensures
            s.records@ == Seq::<FileRecord>::empty(),
            s.processed == 0,
    {
        Scanner { records: Vec::new(), processed: 0 }
    }

    /// Feed one traversal entry to the collector. A regular file is always
    /// counted; it is recorded exactly when its metadata was readable; a
    /// directory or other entry changes nothing.
    pub fn observe(&mut self, e: EntryInfo)
        requires
            is_counted(e) ==> old(self).processed < u64::MAX,
        ensures
            final(self).processed == old(self).processed + (if is_counted(e) {
                1u64
            } else {
                0u64
            }),
            final(self).records@ == (if is_recorded(e) {
                old(self).records@.push(record_of(e))
            } else {
                old(self).records@
            }),
    {
        match e.kind {
            EntryKind::File => {
                if let Some(m) = e.meta {
                    self.records.push(FileRecord {
                        path: e.path,
                        size_bytes: m.size_bytes,
                        mtime_secs: m.mtime_secs,
                        mtime_nanos: m.mtime_nanos,
                    });
                }
                self.processed = self.processed + 1;
            },
            EntryKind::Dir => {},
            EntryKind::Other => {},
        }
    }

    /// Collect a whole traversal in one call: after it, the records are
    /// exactly those of the recordable entries, in traversal order, and the
    /// counter equals the number of regular-file entries.
    pub fn scan(entries: Vec<EntryInfo>) -> (s: Scanner)
        ensures
            s.records@ == records_of(entries@),
            s.processed == count_files(entries@),
    {
        let ghost all = entries@;
        let mut rest = entries;
        let total = rest.len();
        let mut s = Scanner::new();
        let ghost mut seen: Seq<EntryInfo> = Seq::empty();
        while rest.len() > 0
            invariant
                seen + rest@ =~= all,
                all.len() == total,
                s.records@ == records_of(seen),
                s.processed == count_files(seen),
            decreases rest.len(),
        {
            proof {
                seen.lemma_filter_len(|e: EntryInfo| is_counted(e));
                assert(seen.len() + rest@.len() == all.len());
            }
            let e = rest.remove(0);
            proof {
                lemma_scan_step(seen, e);
            }
            s.observe(e);
            proof {
                seen = seen.push(e);
                assert(seen + rest@ =~= all);
            }
        }
        proof {
            assert(seen =~= all);
        }
        s
    }
}

/// Every recordable entry is represented in the scan's result: a record with
/// that entry's path, size and modification time is among the records.
pub proof fn lemma_recorded_entry_has_record(entries: Seq<EntryInfo>, i: int)
    requires
        0 <= i < entries.len(),
        is_recorded(entries[i]),
    ensures
        records_of(entries).contains(record_of(entries[i])),
{
    let pr = |e: EntryInfo| is_recorded(e);
    entries.lemma_filter_contains(pr, i);
    let f = entries.filter(pr);
    let j = choose|j: int| 0 <= j < f.len() && f[j] == entries[i];
    assert(records_of(entries)[j] == record_of(entries[i]));
}

/// A traversal that yields no regular file (only directories and other
/// non-regular entries) produces no records and a zero count.
pub proof fn lemma_non_files_contribute_nothing(entries: Seq<EntryInfo>)
    requires
        forall|i: int| 0 <= i < entries.len() ==> entries[i].kind != EntryKind::File,
    ensures
        records_of(entries) =~= Seq::<FileRecord>::empty(),
        count_files(entries) == 0,
    decreases entries.len(),
{
    reveal(Seq::filter);
    if entries.len() > 0 {
        assert forall|i: int| 0 <= i < entries.drop_last().len() implies entries.drop_last()[i].kind
            != EntryKind::File by {
            assert(entries.drop_last()[i] == entries[i]);
        }
        lemma_non_files_contribute_nothing(entries.drop_last());
    }
}

} // verus!
