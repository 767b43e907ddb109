//! Progress accounting: how many bytes and parts of a download are done.
//!
//! Updates carry the cumulative byte count of one part. A tracker keeps the
//! largest count it has seen for each part, so the order in which updates
//! arrive does not matter and the total never goes down.

use std::collections::HashMap;
use vstd::prelude::*;

verus! {

/// An instantaneous reading of a tracker.
#[derive(Clone, Copy, Debug, PartialEq, Eq, Structural)]
pub struct ProgressInfo {
    pub total_bytes: usize,
    pub downloaded_bytes: usize,
    pub completed_parts: usize,
    pub total_parts: usize,
}

/// A sink for progress events. Any display can implement it.
pub trait ProgressTracker {
    /// What holds of the tracker between calls. A tracker without an
    /// invariant of its own need not say anything.
    open spec fn valid(&self) -> bool {
        true
    }

    /// Whether the tracker holds part `part_id` as complete. A tracker that
    /// keeps no record of parts holds every part so.
    open spec fn holds_complete(&self, part_id: usize) -> bool {
        true
    }

    /// Part `part_id` has written `bytes_written` bytes so far.
    fn update(&mut self, part_id: usize, bytes_written: usize)
        requires
            old(self).valid(),
        ensures
            final(self).valid(),
    ;

    /// Part `part_id` is complete, at `total_bytes` bytes.
    fn complete_part(&mut self, part_id: usize, total_bytes: usize)
        requires
            old(self).valid(),
        ensures
            final(self).valid(),
            final(self).holds_complete(part_id),
    ;

    /// Part `part_id` failed. No part comes to be held as complete, and none
    /// ceases to be.
    fn fail_part(&mut self, part_id: usize, error: String)
        requires
            old(self).valid(),
        ensures
            final(self).valid(),
            forall|p: usize| final(self).holds_complete(p) == old(self).holds_complete(p),
    ;

    /// Progress over all parts.
    fn total_progress(&self) -> ProgressInfo
        requires
            self.valid(),
    ;

    /// The whole download is over.
    fn finish(&mut self)
        requires
            old(self).valid(),
        ensures
            final(self).valid(),
    ;
}

/// A tracker that records nothing.
#[derive(Clone, Copy, Debug)]
pub struct NoOpProgressTracker;

impl ProgressTracker for NoOpProgressTracker {
    fn update(&mut self, _part_id: usize, _bytes_written: usize) {
    }

    fn complete_part(&mut self, _part_id: usize, _total_bytes: usize) {
    }

    fn fail_part(&mut self, _part_id: usize, _error: String) {
    }

    fn total_progress(&self) -> (info: ProgressInfo)
        ensures
            info == (ProgressInfo {
                total_bytes: 0,
                downloaded_bytes: 0,
                completed_parts: 0,
                total_parts: 0,
            }),
    {
        ProgressInfo { total_bytes: 0, downloaded_bytes: 0, completed_parts: 0, total_parts: 0 }
    }

    fn finish(&mut self) {
    }
}

/// What a tracker knows of one part.
#[derive(Clone, Copy, Debug)]
pub struct PartProgress {
    pub bytes: usize,
    pub done: bool,
}

/// Bytes over all parts of `m`.
pub open spec fn sum_bytes(m: Map<usize, PartProgress>) -> int
    decreases m.dom().len(),
    when m.dom().finite()
{
    if m.dom().len() == 0 {
        0
    } else {
        let part = m.dom().choose();
        m[part].bytes + sum_bytes(m.remove(part))
    }
}

/// Number of completed parts of `m`.
pub open spec fn count_done(m: Map<usize, PartProgress>) -> int
    decreases m.dom().len(),
    when m.dom().finite()
{
    if m.dom().len() == 0 {
        0
    } else {
        let part = m.dom().choose();
        (if m[part].done { 1int } else { 0int }) + count_done(m.remove(part))
    }
}

/// Bytes recorded for `part_id`: zero for a part never heard of.
pub open spec fn bytes_of(m: Map<usize, PartProgress>, part_id: usize) -> int {
    if m.dom().contains(part_id) {
        m[part_id].bytes as int
    } else {
        0
    }
}

/// Whether `part_id` is recorded as complete.
pub open spec fn done_of(m: Map<usize, PartProgress>, part_id: usize) -> bool {
    m.dom().contains(part_id) && m[part_id].done
}

/// The totals can be taken one part at a time, starting with any part.
pub proof fn lemma_totals_take(m: Map<usize, PartProgress>, part_id: usize)
    requires
        m.dom().finite(),
        m.dom().contains(part_id),
    ensures
        sum_bytes(m) == m[part_id].bytes + sum_bytes(m.remove(part_id)),
        count_done(m) == (if m[part_id].done { 1int } else { 0int }) + count_done(
            m.remove(part_id),
        ),
    decreases m.dom().len(),
{
    let first = m.dom().choose();
    if first != part_id {
        lemma_totals_take(m.remove(first), part_id);
        lemma_totals_take(m.remove(part_id), first);
        assert(m.remove(first).remove(part_id) =~= m.remove(part_id).remove(first));
    }
}

/// What a new record for one part does to the totals.
pub proof fn lemma_totals_insert(m: Map<usize, PartProgress>, part_id: usize, entry: PartProgress)
    requires
        m.dom().finite(),
    ensures
        sum_bytes(m.insert(part_id, entry)) == sum_bytes(m) - bytes_of(m, part_id) + entry.bytes,
        count_done(m.insert(part_id, entry)) == count_done(m) - (if done_of(m, part_id) {
            1int
        } else {
            0int
        }) + (if entry.done { 1int } else { 0int }),
{
    let after = m.insert(part_id, entry);
    lemma_totals_take(after, part_id);
    assert(after.remove(part_id) =~= m.remove(part_id));
    if m.dom().contains(part_id) {
        lemma_totals_take(m, part_id);
    } else {
        assert(m.remove(part_id) =~= m);
    }
}

/// The totals are bounded by the number of parts.
pub proof fn lemma_totals_bounds(m: Map<usize, PartProgress>)
    requires
        m.dom().finite(),
    ensures
        0 <= count_done(m) <= m.dom().len(),
        0 <= sum_bytes(m) <= m.dom().len() * usize::MAX,
    decreases m.dom().len(),
{
    if m.dom().len() > 0 {
        let part = m.dom().choose();
        lemma_totals_bounds(m.remove(part));
        assert((m.dom().len() - 1) * usize::MAX + usize::MAX == m.dom().len() * usize::MAX)
            by (nonlinear_arith);
    } else {
        assert(m.dom().len() * usize::MAX == 0) by (nonlinear_arith)
            requires
                m.dom().len() == 0,
        ;
    }
}

/// What a tracker holds: the size of the download, what is known of each
/// part, and the running totals over the parts.
pub struct TrackerView {
    pub total_bytes: int,
    pub total_parts: int,
    pub parts: Map<usize, PartProgress>,
    pub sum: int,
    pub done: int,
}

/// Tracks each part on its own and keeps the totals up to date.
#[derive(Debug)]
pub struct DefaultProgressTracker {
    parts: HashMap<usize, PartProgress>,
    sum: u128,
    done: u128,
    total_bytes: usize,
    total_parts: usize,
}

impl View for DefaultProgressTracker {
    type V = TrackerView;

    closed spec fn view(&self) -> TrackerView {
        TrackerView {
            total_bytes: self.total_bytes as int,
            total_parts: self.total_parts as int,
            parts: self.parts@,
            sum: self.sum as int,
            done: self.done as int,
        }
    }
}

impl DefaultProgressTracker {
    /// The tracker's invariant: the totals it keeps are those of its parts.
    pub open spec fn wf(&self) -> bool {
        &&& self@.parts.dom().finite()
        &&& self@.sum == sum_bytes(self@.parts)
        &&& self@.done == count_done(self@.parts)
    }

    /// Bytes downloaded over all parts, as a reading reports them: the sum,
    /// held at the largest representable count.
    pub open spec fn downloaded(&self) -> int {
        if sum_bytes(self@.parts) <= usize::MAX {
            sum_bytes(self@.parts)
        } else {
            usize::MAX as int
        }
    }

    /// Number of parts completed.
    pub open spec fn completed(&self) -> int {
        count_done(self@.parts)
    }

    /// Bytes recorded for one part.
    pub open spec fn part_bytes(&self, part_id: usize) -> int {
        bytes_of(self@.parts, part_id)
    }

    /// Whether one part is recorded as complete.
    pub open spec fn part_done(&self, part_id: usize) -> bool {
        done_of(self@.parts, part_id)
    }

    /// A tracker for a download of `total_bytes` bytes in `total_parts`
    /// parts, with nothing downloaded yet.
    pub fn new(total_bytes: usize, total_parts: usize) -> (tracker: DefaultProgressTracker)
        ensures
            tracker.wf(),
            tracker@.total_bytes == total_bytes,
            tracker@.total_parts == total_parts,
            tracker@.parts == Map::<usize, PartProgress>::empty(),
            tracker.downloaded() == 0,
            tracker.completed() == 0,
    {
        let parts: HashMap<usize, PartProgress> = HashMap::new();
        assert(parts@ =~= Map::<usize, PartProgress>::empty());
        DefaultProgressTracker { parts, sum: 0, done: 0, total_bytes, total_parts }
    }

    /// Merges one observation of a part into the state: the byte count
    /// becomes the larger of the old and the new one, and a part once
    /// complete stays complete.
    fn record(&mut self, part_id: usize, bytes: usize, done: bool)
        requires
            old(self).wf(),
        ensures
            final(self).wf(),
            final(self)@.total_bytes == old(self)@.total_bytes,
            final(self)@.total_parts == old(self)@.total_parts,
            final(self).part_bytes(part_id) == if bytes > old(self).part_bytes(part_id) {
                bytes as int
            } else {
                old(self).part_bytes(part_id)
            },
            final(self).part_done(part_id) == (done || old(self).part_done(part_id)),
            forall|p: usize|
                p != part_id ==> final(self).part_bytes(p) == old(self).part_bytes(p)
                    && final(self).part_done(p) == old(self).part_done(p),
            sum_bytes(final(self)@.parts) == sum_bytes(old(self)@.parts) + final(self).part_bytes(
                part_id,
            ) - old(self).part_bytes(part_id),
            final(self).completed() == old(self).completed() + if done && !old(self).part_done(
                part_id,
            ) {
                1int
            } else {
                0int
            },
    {
        let ghost before = self.parts@;
        let count = self.parts.len();
        let seen = match self.parts.get(&part_id) {
            Some(entry) => *entry,
            None => PartProgress { bytes: 0, done: false },
        };
        let entry = PartProgress {
            bytes: if bytes > seen.bytes {
                bytes
            } else {
                seen.bytes
            },
            done: done || seen.done,
        };
        proof {
            lemma_totals_insert(before, part_id, entry);
            lemma_totals_bounds(before);
            if before.dom().contains(part_id) {
                lemma_totals_take(before, part_id);
                lemma_totals_bounds(before.remove(part_id));
            }
            assert(count * usize::MAX + usize::MAX < 0x1_0000_0000_0000_0000_0000_0000_0000_0000)
                by (nonlinear_arith)
                requires
                    0 <= count <= usize::MAX,
                    usize::MAX <= 0xffff_ffff_ffff_ffff,
            ;
        }
        self.sum = self.sum - (seen.bytes as u128) + (entry.bytes as u128);
        if entry.done && !seen.done {
            self.done = self.done + 1;
        }
        self.parts.insert(part_id, entry);
    }
}

impl ProgressTracker for DefaultProgressTracker {
    open spec fn valid(&self) -> bool {
        self.wf()
    }

    open spec fn holds_complete(&self, part_id: usize) -> bool {
        self.part_done(part_id)
    }

    /// Takes note that part `part_id` has written `bytes_written` bytes. An
    /// update that reports fewer bytes than one seen before changes nothing.
    fn update(&mut self, part_id: usize, bytes_written: usize)
        ensures
            final(self)@.total_bytes == old(self)@.total_bytes,
            final(self)@.total_parts == old(self)@.total_parts,
            final(self).part_bytes(part_id) == if bytes_written > old(self).part_bytes(part_id) {
                bytes_written as int
            } else {
                old(self).part_bytes(part_id)
            },
            forall|p: usize|
                p != part_id ==> final(self).part_bytes(p) == old(self).part_bytes(p),
            forall|p: usize| final(self).part_done(p) == old(self).part_done(p),
            final(self).completed() == old(self).completed(),
            sum_bytes(final(self)@.parts) == sum_bytes(old(self)@.parts) + final(self).part_bytes(
                part_id,
            ) - old(self).part_bytes(part_id),
            final(self).downloaded() >= old(self).downloaded(),
    {
        self.record(part_id, bytes_written, false);
    }

    /// Takes note that part `part_id` is complete at `total_bytes` bytes.
    /// Completing a part twice counts it once.
    fn complete_part(&mut self, part_id: usize, total_bytes: usize)
        ensures
            final(self)@.total_bytes == old(self)@.total_bytes,
            final(self)@.total_parts == old(self)@.total_parts,
            final(self).part_bytes(part_id) == if total_bytes > old(self).part_bytes(part_id) {
                total_bytes as int
            } else {
                old(self).part_bytes(part_id)
            },
            final(self).part_done(part_id),
            forall|p: usize|
                p != part_id ==> final(self).part_bytes(p) == old(self).part_bytes(p)
                    && final(self).part_done(p) == old(self).part_done(p),
            final(self).completed() == old(self).completed() + if old(self).part_done(part_id) {
                0int
            } else {
                1int
            },
            sum_bytes(final(self)@.parts) == sum_bytes(old(self)@.parts) + final(self).part_bytes(
                part_id,
            ) - old(self).part_bytes(part_id),
            final(self).downloaded() >= old(self).downloaded(),
    {
        self.record(part_id, total_bytes, true);
    }

    /// A failed part keeps the bytes it had: nothing changes.
    fn fail_part(&mut self, _part_id: usize, _error: String)
        ensures
            final(self)@ == old(self)@,
    {
    }

    /// Reads the totals.
    fn total_progress(&self) -> (info: ProgressInfo)
        ensures
            info.total_bytes == self@.total_bytes,
            info.total_parts == self@.total_parts,
            info.downloaded_bytes == self.downloaded(),
            info.completed_parts == self.completed(),
    {
        let count = self.parts.len();
        proof {
            lemma_totals_bounds(self.parts@);
        }
        let downloaded: usize = if self.sum <= usize::MAX as u128 {
            self.sum as usize
        } else {
            usize::MAX
        };
        ProgressInfo {
            total_bytes: self.total_bytes,
            downloaded_bytes: downloaded,
            completed_parts: self.done as usize,
            total_parts: self.total_parts,
        }
    }

    /// Ends the download: nothing changes.
    fn finish(&mut self)
        ensures
            final(self)@ == old(self)@,
    {
    }
}

} // verus!
