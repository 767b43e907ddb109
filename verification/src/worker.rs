//! The part worker's bookkeeping: where in the destination each chunk of a
//! range goes, and when the range counts as done.
//!
//! A worker streams one range `[lo, hi]`. The chunks of its stream are
//! written one after the other, starting at offset `lo`. Fetching and writing
//! are the caller's part; what is decided here is the offset of each write,
//! that no write leaves the range, and that only a range received in full
//! reaches the journal.

use crate::errors::DomainError;
use crate::journal::ProgressFile;
use crate::planner::{is_range_plan, lemma_range_count_bounds, part_hi, part_lo, range_count};
use crate::progress::ProgressTracker;
use vstd::prelude::*;

verus! {

/// Offset in the destination of the byte that a worker on a range starting
/// at `lo` writes after `written` bytes.
pub open spec fn write_offset(lo: int, written: int) -> int {
    lo + written
}

/// One write: where to seek, and the count to report afterwards.
#[derive(Clone, Copy, Debug, PartialEq, Eq, Structural)]
pub struct WriteStep {
    /// Offset in the destination at which the chunk starts.
    pub offset: u64,
    /// Bytes of this part written once the chunk is on disk.
    pub written: usize,
}

/// What a part writer holds.
pub struct PartView {
    pub part_id: usize,
    pub lo: int,
    pub hi: int,
    pub written: int,
}

/// The write cursor of one part.
#[derive(Debug)]
pub struct PartWriter {
    part_id: usize,
    lo: usize,
    hi: usize,
    written: usize,
}

impl View for PartWriter {
    type V = PartView;

    closed spec fn view(&self) -> PartView {
        PartView {
            part_id: self.part_id,
            lo: self.lo as int,
            hi: self.hi as int,
            written: self.written as int,
        }
    }
}

impl PartWriter {
    /// The cursor's invariant: the range is not empty, its size is
    /// representable, and no more than the range has been written.
    pub open spec fn wf(&self) -> bool {
        &&& 0 <= self@.lo <= self@.hi < usize::MAX
        &&& 0 <= self@.written <= self.size()
    }

    /// Bytes in the range.
    pub open spec fn size(&self) -> int {
        self@.hi - self@.lo + 1
    }

    /// A cursor at the start of `range`. A range whose ends are out of order,
    /// or whose size is not representable, is refused.
    pub fn new(part_id: usize, range: [usize; 2]) -> (r: Result<PartWriter, DomainError>)
        ensures
            match r {
                Ok(w) => {
                    &&& range[0] <= range[1] < usize::MAX
                    &&& w.wf()
                    &&& w@.part_id == part_id
                    &&& w@.lo == range[0]
                    &&& w@.hi == range[1]
                    &&& w@.written == 0
                },
                Err(e) => e is ValidateError && !(range[0] <= range[1] < usize::MAX),
            },
    {
        if range[0] > range[1] || range[1] == usize::MAX {
            return Err(DomainError::ValidateError("not a byte range".to_owned()));
        }
        Ok(PartWriter { part_id, lo: range[0], hi: range[1], written: 0 })
    }

    /// The part's number.
    pub fn part_id(&self) -> (id: usize)
        ensures
            id == self@.part_id,
    {
        self.part_id
    }

    /// The range, as `[lo, hi]`.
    pub fn range(&self) -> (range: [usize; 2])
        ensures
            range[0] == self@.lo,
            range[1] == self@.hi,
    {
        [self.lo, self.hi]
    }

    /// Bytes in the range.
    pub fn part_size(&self) -> (n: usize)
        requires
            self.wf(),
        ensures
            n == self.size(),
    {
        self.hi - self.lo + 1
    }

    /// Bytes written so far.
    pub fn bytes_written(&self) -> (n: usize)
        ensures
            n == self@.written,
    {
        self.written
    }

    /// Accounts for a chunk of `chunk_len` bytes that arrived on the stream.
    /// A chunk that fits is to be written at the returned offset. A chunk
    /// that would reach past the end of the range is a body error: nothing is
    /// to be written, and the cursor stays where it was.
    pub fn on_chunk(&mut self, chunk_len: usize) -> (r: Result<WriteStep, DomainError>)
        requires
            old(self).wf(),
        ensures
            final(self).wf(),
            final(self)@.part_id == old(self)@.part_id,
            final(self)@.lo == old(self)@.lo,
            final(self)@.hi == old(self)@.hi,
            match r {
                Ok(step) => {
                    &&& old(self)@.written + chunk_len <= old(self).size()
                    &&& step.offset == write_offset(old(self)@.lo, old(self)@.written)
                    &&& step.written == old(self)@.written + chunk_len
                    &&& final(self)@.written == old(self)@.written + chunk_len
                },
                Err(e) => {
                    &&& e is NetworkBodyError
                    &&& old(self)@.written + chunk_len > old(self).size()
                    &&& final(self)@ == old(self)@
                },
            },
    {
        let room: usize = (self.hi - self.lo + 1) - self.written;
        if chunk_len > room {
            return Err(DomainError::NetworkBodyError("body longer than the range".to_owned()));
        }
        let offset: usize = self.lo + self.written;
        self.written = self.written + chunk_len;
        Ok(WriteStep { offset: offset as u64, written: self.written })
    }

    /// Closes the part when its stream has ended.
    ///
    /// A range received in full is recorded in the journal and reported to
    /// the tracker as complete, and its size is returned. A stream that ended
    /// early is a body error, and a range that reaches past the journal's
    /// total is refused; in both cases the journal is left as it was and the
    /// tracker is told of the failure.
    pub fn commit<T: ProgressTracker>(&self, journal: &mut ProgressFile, tracker: &mut T) -> (r:
        Result<usize, DomainError>)
        requires
            self.wf(),
            old(journal).wf(),
            old(tracker).valid(),
        ensures
            final(journal).wf(),
            final(tracker).valid(),
            final(journal)@.download_name == old(journal)@.download_name,
            final(journal)@.total_size == old(journal)@.total_size,
            final(journal)@.started_on == old(journal)@.started_on,
            r is Ok <==> (self@.written == self.size() && self@.hi < old(journal)@.total_size),
            match r {
                Ok(n) => {
                    &&& self@.written == self.size()
                    &&& self@.hi < old(journal)@.total_size
                    &&& n == self.size()
                    &&& final(journal).completed(self@.lo, self@.hi)
                    &&& final(tracker).holds_complete(self@.part_id)
                    &&& forall|k: int|
                        final(journal).has_byte(k) <==> (old(journal).has_byte(k) || self@.lo <= k
                            <= self@.hi)
                },
                Err(e) => {
                    &&& final(journal)@ == old(journal)@
                    &&& forall|p: usize|
                        final(tracker).holds_complete(p) == old(tracker).holds_complete(p)
                    &&& if self@.written < self.size() {
                        e is NetworkBodyError
                    } else {
                        e is ValidateError && self@.hi >= old(journal)@.total_size
                    }
                },
            },
    {
        let size = self.part_size();
        if self.written < size {
            tracker.fail_part(self.part_id, "body shorter than the range".to_owned());
            return Err(DomainError::NetworkBodyError("body shorter than the range".to_owned()));
        }
        match journal.add_chunk((self.lo, self.hi)) {
            Ok(()) => {
                tracker.complete_part(self.part_id, size);
                Ok(size)
            },
            Err(e) => {
                tracker.fail_part(self.part_id, "range outside the download".to_owned());
                Err(e)
            },
        }
    }
}

/// The byte count of a download of unknown size, which is written front to
/// back without seeking.
#[derive(Debug)]
pub struct StreamWriter {
    written: usize,
}

impl View for StreamWriter {
    type V = int;

    closed spec fn view(&self) -> int {
        self.written as int
    }
}

impl StreamWriter {
    /// A count of zero bytes.
    pub fn new() -> (w: StreamWriter)
        ensures
            w@ == 0,
    {
        StreamWriter { written: 0 }
    }

    /// Accounts for a chunk of `chunk_len` bytes, to be appended to the
    /// destination, and returns the count to report. A count that no longer
    /// fits the machine is a storage error.
    pub fn on_chunk(&mut self, chunk_len: usize) -> (r: Result<usize, DomainError>)
        ensures
            match r {
                Ok(total) => total == old(self)@ + chunk_len && final(self)@ == total,
                Err(e) => e is StorageError && old(self)@ + chunk_len > usize::MAX && final(self)@
                    == old(self)@,
            },
    {
        match self.written.checked_add(chunk_len) {
            Some(total) => {
                self.written = total;
                Ok(total)
            },
            None => Err(DomainError::StorageError("download too large".to_owned())),
        }
    }

    /// Bytes written so far.
    pub fn bytes_written(&self) -> (n: usize)
        ensures
            n == self@,
    {
        self.written
    }
}

proof fn lemma_part_lo_monotone(total: int, n: int, i: int, j: int)
    requires
        n >= 1,
        total >= n,
        0 <= i <= j <= n,
    ensures
        part_lo(total, n, i) <= part_lo(total, n, j),
        i < j ==> part_hi(total, n, i) < part_lo(total, n, j),
{
    let c = total / n;
    assert(i * c <= j * c && c >= 1) by (nonlinear_arith)
        requires
            0 <= i <= j,
            c == total / n,
            n >= 1,
            total >= n,
    ;
    if i < j {
        assert((i + 1) * c <= j * c && (i + 1) * c == i * c + c) by (nonlinear_arith)
            requires
                0 <= i < j,
                c >= 1,
        ;
    }
}

proof fn lemma_part_of_byte(total: int, n: int, k: int, m: int)
    requires
        n >= 1,
        total >= n,
        1 <= m <= n,
        0 <= k < part_lo(total, n, m),
    ensures
        exists|i: int| 0 <= i < m && part_lo(total, n, i) <= k <= #[trigger] part_hi(total, n, i),
    decreases m,
{
    let c = total / n;
    assert((m - 1) * c + c == m * c) by (nonlinear_arith);
    if k >= part_lo(total, n, m - 1) {
        assert(part_lo(total, n, m - 1) <= k <= part_hi(total, n, m - 1));
    } else {
        assert(m - 1 >= 1) by {
            if m == 1 {
                assert(part_lo(total, n, 0) == 0) by (nonlinear_arith)
                    requires
                        part_lo(total, n, 0) == 0 * (total / n) + if 0 < total % n {
                            0
                        } else {
                            total % n
                        },
                        n >= 1,
                        total >= n,
                ;
            }
        }
        lemma_part_of_byte(total, n, k, m - 1);
    }
}

/// Every byte of a download is written by one worker, at its own offset.
///
/// For each offset `k` of a planned download there is exactly one range of
/// the plan that holds `k`, and the worker of that range, once it has
/// written the `k - lo` bytes before it, writes its next byte at offset `k`.
pub proof fn lemma_offset_correctness(
    plan: Seq<[usize; 2]>,
    total: int,
    max_parts: int,
    min_bytes: int,
    k: int,
)
    requires
        max_parts >= 0,
        min_bytes >= 0,
        is_range_plan(plan, total, max_parts, min_bytes),
        0 <= k < total,
    ensures
        exists|i: int|
            {
                &&& 0 <= i < plan.len()
                &&& (#[trigger] plan[i])[0] <= k <= plan[i][1]
                &&& write_offset(plan[i][0] as int, k - plan[i][0]) == k
                &&& forall|j: int|
                    0 <= j < plan.len() && (#[trigger] plan[j])[0] <= k <= plan[j][1] ==> j == i
            },
{
    let n = range_count(total, max_parts, min_bytes);
    lemma_range_count_bounds(total, max_parts, min_bytes);
    assert(1 <= n <= total);
    assert(part_lo(total, n, n) == total) by (nonlinear_arith)
        requires
            n >= 1,
            total >= n,
            part_lo(total, n, n) == n * (total / n) + total % n,
    ;
    lemma_part_of_byte(total, n, k, n);
    let i = choose|i: int|
        0 <= i < n && part_lo(total, n, i) <= k <= #[trigger] part_hi(total, n, i);
    assert(plan[i][0] <= k <= plan[i][1]);
    assert forall|j: int|
        0 <= j < plan.len() && (#[trigger] plan[j])[0] <= k <= plan[j][1] implies j == i by {
        if j < i {
            lemma_part_lo_monotone(total, n, j, i);
        } else if i < j {
            lemma_part_lo_monotone(total, n, i, j);
        }
    }
}

} // verus!
