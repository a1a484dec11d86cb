//! The session log and its sentinel marker.
//!
//! One file, opened for append, is shared by the output relay and the
//! boundary listener. A lock around the real file makes each write atomic,
//! so the log's content is the flattening of a sequence of whole entries:
//! chunks of relayed output, and the sentinel marker that the boundary
//! listener inserts when a new command begins. The log is append-only for
//! the whole session; a command's context is "cleared" by inserting a new
//! marker, never by erasing bytes.

use vstd::prelude::*;

verus! {

/// The sentinel token as bytes: the literal `<<<wtg:cmd-end>>>`, chosen so
/// that ordinary terminal output is unlikely to produce it. A program that
/// prints the exact token misleads boundary detection; that is a documented
/// limitation, not corrected here.
pub open spec fn marker_bytes() -> Seq<u8> {
    seq![
        60u8, 60, 60, 119, 116, 103, 58, 99, 109, 100, 45, 101, 110, 100, 62, 62, 62,
    ]
}

/// The sentinel token, built at run time: `<<<wtg:cmd-end>>>`.
pub fn new_command_msg() -> (r: Vec<u8>)
    ensures
        r@ == marker_bytes(),
{
    let mut v: Vec<u8> = Vec::new();
    v.push(60);
    v.push(60);
    v.push(60);
    v.push(119);
    v.push(116);
    v.push(103);
    v.push(58);
    v.push(99);
    v.push(109);
    v.push(100);
    v.push(45);
    v.push(101);
    v.push(110);
    v.push(100);
    v.push(62);
    v.push(62);
    v.push(62);
    proof {
        assert(v@ =~= marker_bytes());
    }
    v
}

/// One atomic write into the log: the sentinel marker, or a chunk of
/// relayed terminal output.
pub enum LogEntry {
    Marker,
    Output(Vec<u8>),
}

/// The bytes an entry contributes to the file.
pub open spec fn entry_bytes(e: LogEntry) -> Seq<u8> {
    match e {
        LogEntry::Marker => marker_bytes(),
        LogEntry::Output(v) => v@,
    }
}

/// The file content of a sequence of entries: their bytes, in append order.
pub open spec fn entries_bytes(s: Seq<LogEntry>) -> Seq<u8>
    decreases s.len(),
{
    if s.len() == 0 {
        Seq::empty()
    } else {
        entries_bytes(s.drop_last()) + entry_bytes(s.last())
    }
}

/// How many sentinel markers a sequence of entries holds.
pub open spec fn marker_count(s: Seq<LogEntry>) -> nat
    decreases s.len(),
{
    if s.len() == 0 {
        0
    } else {
        marker_count(s.drop_last()) + (if s.last() is Marker {
            1nat
        } else {
            0nat
        })
    }
}

/// Appending an entry appends exactly its bytes.
pub proof fn lemma_entries_bytes_push(s: Seq<LogEntry>, e: LogEntry)
    ensures
        entries_bytes(s.push(e)) == entries_bytes(s) + entry_bytes(e),
{
    assert(s.push(e).drop_last() =~= s);
    assert(s.push(e).last() == e);
}

/// Appending an entry adds one to the marker count exactly when the entry is
/// the marker.
pub proof fn lemma_marker_count_push(s: Seq<LogEntry>, e: LogEntry)
    ensures
        marker_count(s.push(e)) == marker_count(s) + (if e is Marker {
            1nat
        } else {
            0nat
        }),
{
    assert(s.push(e).drop_last() =~= s);
    assert(s.push(e).last() == e);
}

/// The log is append-only: appending an entry leaves every byte already
/// written in place, so what a concurrent reader has seen stays valid.
pub proof fn lemma_append_preserves_written(s: Seq<LogEntry>, e: LogEntry, k: int)
    requires
        0 <= k <= entries_bytes(s).len(),
    ensures
        entries_bytes(s.push(e)).len() >= entries_bytes(s).len(),
        entries_bytes(s.push(e)).take(k) == entries_bytes(s).take(k),
{
    lemma_entries_bytes_push(s, e);
    assert((entries_bytes(s) + entry_bytes(e)).take(k) =~= entries_bytes(s).take(k));
}

/// The shared, append-only session log, modelled as the sequence of atomic
/// writes it received. The unverified binary mirrors each operation onto the
/// real file under the log's lock, in the same order.
pub struct SessionLog {
    pub entries: Vec<LogEntry>,
}

impl SessionLog {
    /// The file content this log denotes.
    pub open spec fn bytes(self) -> Seq<u8> {
        entries_bytes(self.entries@)
    }

    /// How many sentinel markers the log holds.
    pub open spec fn markers(self) -> nat {
        marker_count(self.entries@)
    }

    /// A fresh, empty log.
    pub fn new() -> (r: SessionLog)
        ensures
            r.entries@ =~= Seq::<LogEntry>::empty(),
            r.markers() == 0,
            r.bytes() =~= Seq::<u8>::empty(),
    {
        SessionLog { entries: Vec::new() }
    }

    /// Append one chunk of relayed output, as a single write under the lock.
    pub fn append_output(&mut self, bytes: Vec<u8>)
        ensures
            final(self).entries@ == old(self).entries@.push(LogEntry::Output(bytes)),
            final(self).bytes() == old(self).bytes() + bytes@,
            final(self).markers() == old(self).markers(),
    {
        let ghost prev = self.entries@;
        self.entries.push(LogEntry::Output(bytes));
        proof {
            lemma_entries_bytes_push(prev, self.entries@.last());
            lemma_marker_count_push(prev, self.entries@.last());
        }
    }

    /// Insert the sentinel marker, as a single write under the lock: a new
    /// command has begun here.
    pub fn insert_marker(&mut self)
        ensures
            final(self).entries@ == old(self).entries@.push(LogEntry::Marker),
            final(self).bytes() == old(self).bytes() + marker_bytes(),
            final(self).markers() == old(self).markers() + 1,
    {
        let ghost prev = self.entries@;
        self.entries.push(LogEntry::Marker);
        proof {
            lemma_entries_bytes_push(prev, self.entries@.last());
            lemma_marker_count_push(prev, self.entries@.last());
        }
    }

    /// Flatten the log to the byte content of the file it denotes.
    pub fn to_bytes(&self) -> (r: Vec<u8>)
        ensures
            r@ == self.bytes(),
    {
        let mut out: Vec<u8> = Vec::new();
        let mut i: usize = 0;
        while i < self.entries.len()
            invariant
                i <= self.entries@.len(),
                out@ == entries_bytes(self.entries@.take(i as int)),
            decreases self.entries@.len() - i,
        {
            let ghost prefix = self.entries@.take(i as int);
            match &self.entries[i] {
                LogEntry::Marker => {
                    let m = new_command_msg();
                    out.extend_from_slice(m.as_slice());
                },
                LogEntry::Output(v) => {
                    out.extend_from_slice(v.as_slice());
                },
            }
            proof {
                lemma_entries_bytes_push(prefix, self.entries@[i as int]);
                assert(self.entries@.take(i + 1) =~= prefix.push(self.entries@[i as int]));
            }
            i += 1;
        }
        proof {
            assert(self.entries@.take(self.entries@.len() as int) =~= self.entries@);
        }
        out
    }
}

} // verus!
