use vstd::prelude::*;

use crate::decode::lossy_of;
use crate::decode::lossy_string;
use crate::order::natural_le;
use crate::order::sort_paths_natural;
use crate::order::sorted_natural;

verus! {

/// Declares `std::io::Error` so that the `Io` failure below can carry the
/// underlying error that opening the first file produced, as an opaque value.
#[verifier::external_type_specification]
#[verifier::external_body]
pub struct ExIoError(std::io::Error);

/// The failures that construction can report. Once construction has
/// succeeded, no error is ever surfaced through the pull interface: runtime
/// failures are absorbed and at most reported to a diagnostic sink.
#[derive(Debug)]
pub enum DirectoryLinesStreamerError {
    /// The directory path names no existing file-system entry.
    DirectoryDoesNotExists(String),
    /// Opening the first file in visitation order failed; carries the
    /// underlying error.
    Io(std::io::Error),
    /// The directory exists but its listing holds no entries.
    EmptyDirectory(String),
}

/// The core of the directory streamer: which files remain to be visited and
/// in what order, which file is being consumed now, and the running line
/// count kept for diagnostics.
///
/// The one open file handle is I/O state and lives with the caller driving
/// the stream. One pull of the caller's loop is: read one line-terminated
/// chunk from the current handle and pass it to [`Self::absorb_read`]; when
/// that signals end of the current file, take paths off the queue with
/// [`Self::next_pending`] until one opens — recording success with
/// [`Self::note_opened`] — or the queue empties, which ends the stream for
/// good.
#[derive(Debug)]
pub struct DirectoryLinesStreamer {
    dir: String,
    /// Pending paths in reverse visitation order: the next file to visit sits
    /// at the end, ready to be popped.
    files: Vec<String>,
    opened_file_path: String,
    line_id: usize,
}

impl DirectoryLinesStreamer {
    /// The directory this streamer was constructed for.
    pub closed spec fn dir_name(self) -> Seq<char> {
        self.dir@
    }

    /// The paths not yet visited, in forward visitation order.
    pub closed spec fn pending(self) -> Seq<Seq<char>> {
        Seq::new(self.files@.len(), |i: int| self.files@[self.files@.len() - 1 - i]@)
    }

    /// The path of the file currently being consumed.
    pub closed spec fn current(self) -> Seq<char> {
        self.opened_file_path@
    }

    /// The 1-based number of the line the next read will produce, kept for
    /// diagnostic attribution: it starts at 1 and rises exactly when a line
    /// is returned.
    pub closed spec fn line_count(self) -> nat {
        self.line_id as nat
    }

    /// The full visitation order still ahead: the current file, then the
    /// pending ones.
    pub open spec fn visit_order(self) -> Seq<Seq<char>> {
        seq![self.current()] + self.pending()
    }

    /// The order invariant: the visitation order still ahead is ascending
    /// natural order by path. Construction establishes it and every
    /// transition preserves it, so files are always visited in natural order.
    pub open spec fn wf(self) -> bool {
        sorted_natural(self.visit_order())
    }

    /// Decide construction from the directory listing: `dir_exists` says
    /// whether `input_dir` names an existing entry, and `entries` are the
    /// listable children (the caller drops unreadable ones silently). On
    /// success the visitation order is exactly the entries, sorted in
    /// ascending natural order, the first of them current and ready to be
    /// opened.
    pub fn from_dir(input_dir: String, dir_exists: bool, entries: Vec<String>) -> (r: Result<
        DirectoryLinesStreamer,
        DirectoryLinesStreamerError,
    >)
        ensures
            match r {
                Ok(s) => dir_exists && entries@.len() > 0 && s.dir_name() == input_dir@
                    && s.line_count() == 1 && s.visit_order().len() == entries@.len()
                    && s.visit_order().to_multiset() == entries@.map_values(
                    |p: String| p@,
                ).to_multiset() && s.wf(),
                Err(DirectoryLinesStreamerError::DirectoryDoesNotExists(d)) => !dir_exists && d@
                    == input_dir@,
                Err(DirectoryLinesStreamerError::EmptyDirectory(d)) => dir_exists && entries@.len()
                    == 0 && d@ == input_dir@,
                Err(DirectoryLinesStreamerError::Io(_)) => false,
            },
    {
        if !dir_exists {
            return Err(DirectoryLinesStreamerError::DirectoryDoesNotExists(input_dir));
        }
        let mut sorted = entries;
        sort_paths_natural(&mut sorted);
        if sorted.len() == 0 {
            return Err(DirectoryLinesStreamerError::EmptyDirectory(input_dir));
        }
        let ghost s0 = sorted@;
        let n: usize = sorted.len();
        // Invert the sorted list so that the next file to visit is last.
        let mut rev: Vec<String> = Vec::new();
        while sorted.len() > 0
            invariant
                n == s0.len(),
                sorted@.len() + rev@.len() == n,
                sorted@ == s0.take(sorted@.len() as int),
                forall|k: int| 0 <= k < rev@.len() ==> rev@[k] == s0[n - 1 - k],
            decreases sorted.len(),
        {
            let p = sorted.pop().unwrap();
            rev.push(p);
        }
        // The first file in order is the last element of the inverted list.
        let opened_file_path = rev.pop().unwrap();
        let s = DirectoryLinesStreamer { dir: input_dir, files: rev, opened_file_path, line_id: 1 };
        proof {
            let sv = s0.map_values(|p: String| p@);
            assert(s.visit_order() =~= sv);
        }
        Ok(s)
    }

    /// The path of the current file, for the caller to open or to attribute
    /// diagnostics to.
    pub fn current_path(&self) -> (p: &String)
        ensures
            p@ == self.current(),
    {
        &self.opened_file_path
    }

    /// The running line count, for the caller to attribute diagnostics to.
    pub fn line_number(&self) -> (n: usize)
        ensures
            n == self.line_count(),
    {
        self.line_id
    }

    /// Absorb the outcome of one buffered read against the current file:
    /// `bytes` is the chunk the read produced (through a trailing newline
    /// inclusive, or to end of data) and `read_failed` says whether the read
    /// ended in an error after gathering those bytes.
    ///
    /// A chunk with at least one byte is a line: it is decoded lossily and
    /// returned. A failed read is still a line — whatever was gathered before
    /// the failure, possibly nothing — so one bad line never ends the stream.
    /// Only a clean, empty read is true end of the current file, answered
    /// with `None`. The line counter rises exactly when a line is returned
    /// (saturating at the machine limit); queue and current file are
    /// untouched.
    ///
    /// A returned line from a successful read is never empty, and it ends in
    /// a newline exactly when its bytes ended in the newline byte — so the
    /// last line of a file lacking a terminator comes back without one.
    pub fn absorb_read(&mut self, bytes: Vec<u8>, read_failed: bool) -> (r: Option<String>)
        ensures
            final(self).dir_name() == old(self).dir_name(),
            final(self).pending() == old(self).pending(),
            final(self).current() == old(self).current(),
            final(self).line_count() == if (read_failed || bytes@.len() > 0) && old(
                self,
            ).line_count() < usize::MAX {
                old(self).line_count() + 1
            } else {
                old(self).line_count()
            },
            old(self).wf() ==> final(self).wf(),
            r is Some <==> (read_failed || bytes@.len() > 0),
            match r {
                Some(line) => line@ == lossy_of(bytes@) && (bytes@.len() > 0 ==> line@.len() > 0)
                    && (bytes@.len() > 0 ==> (line@.last() == '\n' <==> bytes@.last() == 10)),
                None => !read_failed && bytes@.len() == 0,
            },
    {
        let yields_line = read_failed || bytes.len() > 0;
        if yields_line && self.line_id < usize::MAX {
            self.line_id = self.line_id + 1;
        }
        proof {
            assert(final(self).pending() =~= old(self).pending());
            assert(final(self).visit_order() =~= old(self).visit_order());
        }
        if yields_line {
            Some(lossy_string(&bytes))
        } else {
            None
        }
    }

    /// At end of the current file: take the next path to visit off the
    /// queue. `None` means the queue is empty and the whole stream is
    /// exhausted — and since nothing is ever put back, every later call
    /// answers `None` as well.
    pub fn next_pending(&mut self) -> (r: Option<String>)
        ensures
            final(self).dir_name() == old(self).dir_name(),
            final(self).current() == old(self).current(),
            final(self).line_count() == old(self).line_count(),
            old(self).pending().len() == 0 ==> r is None && final(self).pending() == old(
                self,
            ).pending(),
            old(self).pending().len() > 0 ==> match r {
                Some(p) => p@ == old(self).pending()[0] && final(self).pending() == old(
                    self,
                ).pending().drop_first(),
                None => false,
            },
            old(self).wf() ==> final(self).wf(),
            old(self).wf() ==> match r {
                Some(p) => forall|i: int|
                    0 <= i < final(self).pending().len() ==> natural_le(
                        p@,
                        final(self).pending()[i],
                    ),
                None => true,
            },
    {
        let r = self.files.pop();
        proof {
            if old(self).pending().len() == 0 {
                assert(final(self).pending() =~= old(self).pending());
                assert(final(self).visit_order() =~= old(self).visit_order());
            } else {
                assert(final(self).pending() =~= old(self).pending().drop_first());
                if old(self).wf() {
                    let ov = old(self).visit_order();
                    let nv = final(self).visit_order();
                    assert forall|i: int, j: int| 0 <= i < j < nv.len() implies natural_le(
                        nv[i],
                        nv[j],
                    ) by {
                        if i == 0 {
                            assert(natural_le(ov[0], ov[j + 1]));
                        } else {
                            assert(natural_le(ov[i + 1], ov[j + 1]));
                        }
                    }
                    assert forall|i: int| 0 <= i < final(self).pending().len() implies natural_le(
                        old(self).pending()[0],
                        final(self).pending()[i],
                    ) by {
                        assert(natural_le(ov[1], ov[i + 2]));
                    }
                }
            }
        }
        r
    }

    /// Record that the path just taken off the queue was opened: it becomes
    /// the current file. A path that failed to open is simply not recorded;
    /// the caller goes on popping, so unopenable files are skipped one at a
    /// time without disturbing the rest of the stream.
    pub fn note_opened(&mut self, path: String)
        ensures
            final(self).dir_name() == old(self).dir_name(),
            final(self).pending() == old(self).pending(),
            final(self).line_count() == old(self).line_count(),
            final(self).current() == path@,
            (old(self).wf() && (forall|i: int|
                0 <= i < old(self).pending().len() ==> natural_le(
                    path@,
                    old(self).pending()[i],
                ))) ==> final(self).wf(),
    {
        self.opened_file_path = path;
        proof {
            assert(final(self).pending() =~= old(self).pending());
            if old(self).wf() && (forall|i: int|
                0 <= i < old(self).pending().len() ==> natural_le(
                    path@,
                    old(self).pending()[i],
                )) {
                let ov = old(self).visit_order();
                let nv = final(self).visit_order();
                assert forall|i: int, j: int| 0 <= i < j < nv.len() implies natural_le(
                    nv[i],
                    nv[j],
                ) by {
                    if i == 0 {
                        assert(natural_le(path@, old(self).pending()[j - 1]));
                    } else {
                        assert(natural_le(ov[i], ov[j]));
                    }
                }
            }
        }
    }
}

} // verus!
