//! The resume journal: which byte intervals of a destination file have been
//! written in full.
//!
//! The completed intervals are kept sorted and coalesced, so that the journal
//! of a given set of completed bytes has exactly one representation.

use crate::errors::DomainError;
use crate::trusted::local_now_text;
use vstd::prelude::*;
use vstd::string::StringExecFns;

verus! {

/// Byte `k` lies in one of the intervals of `s`.
pub open spec fn covers(s: Seq<(usize, usize)>, k: int) -> bool {
    exists|i: int| 0 <= i < s.len() && (#[trigger] s[i]).0 <= k <= s[i].1
}

/// One interval of `s` holds all of `[a, b]`.
pub open spec fn contains_range(s: Seq<(usize, usize)>, a: int, b: int) -> bool {
    exists|i: int| 0 <= i < s.len() && (#[trigger] s[i]).0 <= a && b <= s[i].1
}

/// The intervals of `s` lie inside `[0, total)`, are non-empty, ascend, and
/// no two of them overlap or touch.
pub open spec fn canonical(s: Seq<(usize, usize)>, total: int) -> bool {
    &&& forall|i: int| 0 <= i < s.len() ==> (#[trigger] s[i]).0 <= s[i].1 < total
    &&& forall|i: int, j: int| 0 <= i < j < s.len() ==> (#[trigger] s[i]).1 + 1 < (#[trigger] s[j]).0
}

/// What a journal holds.
pub struct JournalView {
    pub download_name: Seq<char>,
    pub total_size: int,
    pub intervals: Seq<(usize, usize)>,
    pub started_on: Seq<char>,
}

/// Resume state of one destination file.
#[derive(Debug)]
pub struct ProgressFile {
    download_name: String,
    total_size: usize,
    completed_chunks: Vec<(usize, usize)>,
    started_on: String,
}

impl View for ProgressFile {
    type V = JournalView;

    closed spec fn view(&self) -> JournalView {
        JournalView {
            download_name: self.download_name@,
            total_size: self.total_size as int,
            intervals: self.completed_chunks@,
            started_on: self.started_on@,
        }
    }
}

/// The list built from the intervals left of `[lo, hi]`, the merged block
/// `[mlo, mhi]` and the intervals right of it is canonical and covers what
/// the old list covered, and `[lo, hi]`.
proof fn lemma_coalesce(
    s: Seq<(usize, usize)>,
    o: Seq<(usize, usize)>,
    l: int,
    r: int,
    lo: usize,
    hi: usize,
    mlo: usize,
    mhi: usize,
    total: int,
)
    requires
        canonical(s, total),
        0 <= l <= r <= s.len(),
        lo <= hi < total,
        mlo <= lo,
        hi <= mhi < total,
        o == s.subrange(0, l).push((mlo, mhi)) + s.subrange(r, s.len() as int),
        forall|j: int| 0 <= j < l ==> (#[trigger] s[j]).1 + 1 < lo,
        l < s.len() ==> s[l].1 + 1 >= lo,
        r < s.len() ==> s[r].0 > hi + 1,
        mlo == lo || (l < r && mlo == s[l].0),
        mhi == hi || (l < r && mhi == s[r - 1].1),
        forall|j: int|
            l <= j < r ==> mlo <= (#[trigger] s[j]).0 && s[j].1 <= mhi && s[j].0 <= hi + 1,
    ensures
        canonical(o, total),
        forall|k: int| covers(o, k) <==> (covers(s, k) || lo <= k <= hi),
        contains_range(o, lo as int, hi as int),
{
    assert(o.len() == l + 1 + (s.len() - r));
    assert(o[l] == (mlo, mhi));
    assert(o[l].0 <= lo && hi <= o[l].1);
    assert forall|j: int| 0 <= j < o.len() implies (#[trigger] o[j]) == (if j < l {
        s[j]
    } else if j == l {
        (mlo, mhi)
    } else {
        s[j - l - 1 + r]
    }) by {}
    assert forall|a: int, b: int| 0 <= a < b < o.len() implies (#[trigger] o[a]).1 + 1 < (
    #[trigger] o[b]).0 by {
        if b < l {
            assert(o[a] == s[a] && o[b] == s[b]);
        } else if b == l {
            assert(o[a] == s[a]);
            assert(s[a].1 + 1 < lo);
            if mlo != lo {
                assert(s[a].1 + 1 < s[l].0);
            }
        } else {
            let bb = b - l - 1 + r;
            assert(o[b] == s[bb]);
            if a < l {
                assert(o[a] == s[a]);
                assert(s[a].1 + 1 < s[bb].0);
            } else if a == l {
                if bb > r {
                    assert(s[r].1 + 1 < s[bb].0);
                }
                assert(s[bb].0 > hi + 1);
                if mhi != hi {
                    assert(s[r - 1].1 + 1 < s[bb].0);
                }
            } else {
                let aa = a - l - 1 + r;
                assert(o[a] == s[aa]);
                assert(s[aa].1 + 1 < s[bb].0);
            }
        }
    }
    assert forall|k: int| covers(o, k) implies (covers(s, k) || lo <= k <= hi) by {
        let j = choose|j: int| 0 <= j < o.len() && (#[trigger] o[j]).0 <= k <= o[j].1;
        if j < l {
            assert(s[j].0 <= k <= s[j].1);
        } else if j > l {
            assert(s[j - l - 1 + r].0 <= k <= s[j - l - 1 + r].1);
        } else if k < lo {
            assert(s[l].0 <= k <= s[l].1);
        } else if k > hi {
            assert(s[r - 1].0 <= k <= s[r - 1].1);
        }
    }
    assert forall|k: int| (covers(s, k) || lo <= k <= hi) implies covers(o, k) by {
        if lo <= k <= hi {
            assert(o[l].0 <= k <= o[l].1);
        } else {
            let j = choose|j: int| 0 <= j < s.len() && (#[trigger] s[j]).0 <= k <= s[j].1;
            if j < l {
                assert(o[j].0 <= k <= o[j].1);
            } else if j < r {
                assert(o[l].0 <= k <= o[l].1);
            } else {
                assert(o[j - r + l + 1].0 <= k <= o[j - r + l + 1].1);
            }
        }
    }
}

/// Inserts `[lo, hi]` into a canonical interval list, merging it with every
/// interval it overlaps or touches.
fn coalesce(v: &Vec<(usize, usize)>, lo: usize, hi: usize, Ghost(total): Ghost<int>) -> (out: Vec<
    (usize, usize),
>)
    requires
        canonical(v@, total),
        lo <= hi < total <= usize::MAX,
    ensures
        canonical(out@, total),
        forall|k: int| covers(out@, k) <==> (covers(v@, k) || lo <= k <= hi),
        contains_range(out@, lo as int, hi as int),
{
    let n = v.len();
    let mut out: Vec<(usize, usize)> = Vec::new();
    let mut i: usize = 0;
    while i < n && v[i].1 + 1 < lo
        invariant
            0 <= i <= n,
            n == v@.len(),
            canonical(v@, total),
            total <= usize::MAX,
            out@ == v@.subrange(0, i as int),
            forall|j: int| 0 <= j < i ==> (#[trigger] v@[j]).1 + 1 < lo,
        decreases n - i,
    {
        out.push(v[i]);
        i = i + 1;
        assert(out@ =~= v@.subrange(0, i as int));
    }
    let left = i;
    let mut mlo = lo;
    let mut mhi = hi;
    while i < n && v[i].0 <= hi + 1
        invariant
            left <= i <= n,
            n == v@.len(),
            canonical(v@, total),
            lo <= hi < total <= usize::MAX,
            mlo <= lo,
            hi <= mhi < total,
            left < n ==> v@[left as int].1 + 1 >= lo,
            mlo == lo || (left < i && mlo == v@[left as int].0),
            mhi == hi || (left < i && mhi == v@[i - 1].1),
            forall|j: int|
                left <= j < i ==> mlo <= (#[trigger] v@[j]).0 && v@[j].1 <= mhi && v@[j].0 <= hi
                    + 1,
        decreases n - i,
    {
        let cur = v[i];
        if cur.0 < mlo {
            mlo = cur.0;
        }
        if cur.1 > mhi {
            mhi = cur.1;
        }
        i = i + 1;
    }
    let right = i;
    out.push((mlo, mhi));
    assert(v@.subrange(right as int, i as int) =~= Seq::empty());
    while i < n
        invariant
            right <= i <= n,
            n == v@.len(),
            out@ == v@.subrange(0, left as int).push((mlo, mhi)) + v@.subrange(
                right as int,
                i as int,
            ),
        decreases n - i,
    {
        out.push(v[i]);
        i = i + 1;
        assert(out@ =~= v@.subrange(0, left as int).push((mlo, mhi)) + v@.subrange(
            right as int,
            i as int,
        ));
    }
    proof {
        assert(v@.subrange(right as int, i as int) =~= v@.subrange(right as int, v@.len() as int));
        lemma_coalesce(v@, out@, left as int, right as int, lo, hi, mlo, mhi, total);
    }
    out
}

/// Every interval of `s` is non-empty and lies inside `[0, total)`.
pub open spec fn all_inside(s: Seq<(usize, usize)>, total: int) -> bool {
    forall|i: int| 0 <= i < s.len() ==> (#[trigger] s[i]).0 <= s[i].1 < total
}

/// `a` and `b` cover the same bytes.
pub open spec fn same_cover(a: Seq<(usize, usize)>, b: Seq<(usize, usize)>) -> bool {
    forall|k: int| covers(a, k) <==> covers(b, k)
}

proof fn lemma_block_found(a: Seq<(usize, usize)>, b: Seq<(usize, usize)>, total: int, i: int)
    requires
        canonical(a, total),
        canonical(b, total),
        same_cover(a, b),
        0 <= i < a.len(),
    ensures
        exists|j: int| 0 <= j < b.len() && #[trigger] b[j] == a[i],
{
    let x = a[i];
    assert(covers(a, x.0 as int));
    assert(covers(b, x.0 as int));
    let j = choose|j: int| 0 <= j < b.len() && (#[trigger] b[j]).0 <= x.0 <= b[j].1;
    let y = b[j];
    if y.0 < x.0 {
        let k = x.0 - 1;
        assert(y.0 <= k <= y.1);
        assert(covers(b, k));
        assert(covers(a, k));
        let m = choose|m: int| 0 <= m < a.len() && (#[trigger] a[m]).0 <= k <= a[m].1;
        if m < i {
            assert(a[m].1 + 1 < a[i].0);
        } else if m > i {
            assert(a[i].1 + 1 < a[m].0);
        }
        assert(false);
    }
    if y.1 < x.1 {
        let k = y.1 + 1;
        assert(x.0 <= k <= x.1);
        assert(covers(a, k));
        assert(covers(b, k));
        let m = choose|m: int| 0 <= m < b.len() && (#[trigger] b[m]).0 <= k <= b[m].1;
        if m < j {
            assert(b[m].1 + 1 < b[j].0);
        } else if m > j {
            assert(b[j].1 + 1 < b[m].0);
        }
        assert(false);
    }
    if y.1 > x.1 {
        let k = x.1 + 1;
        assert(y.0 <= k <= y.1);
        assert(covers(b, k));
        assert(covers(a, k));
        let m = choose|m: int| 0 <= m < a.len() && (#[trigger] a[m]).0 <= k <= a[m].1;
        if m < i {
            assert(a[m].1 + 1 < a[i].0);
        } else if m > i {
            assert(a[i].1 + 1 < a[m].0);
        }
        assert(false);
    }
    assert(b[j] == a[i]);
}

proof fn lemma_block_not_before(a: Seq<(usize, usize)>, b: Seq<(usize, usize)>, total: int, i: int)
    requires
        canonical(a, total),
        canonical(b, total),
        same_cover(a, b),
        0 <= i < a.len(),
    ensures
        exists|j: int| i <= j < b.len() && #[trigger] b[j] == a[i],
    decreases i,
{
    lemma_block_found(a, b, total, i);
    let j = choose|j: int| 0 <= j < b.len() && #[trigger] b[j] == a[i];
    if i > 0 {
        lemma_block_not_before(a, b, total, i - 1);
        let p = choose|p: int| i - 1 <= p < b.len() && #[trigger] b[p] == a[i - 1];
        assert(a[i - 1].1 + 1 < a[i].0);
        if j < p {
            assert(b[j].1 + 1 < b[p].0);
        }
        assert(p < j);
    }
    assert(i <= j && b[j] == a[i]);
}

/// A set of completed bytes has one canonical interval list: two canonical
/// lists that cover the same bytes are equal.
pub proof fn lemma_canonical_unique(a: Seq<(usize, usize)>, b: Seq<(usize, usize)>, total: int)
    requires
        canonical(a, total),
        canonical(b, total),
        same_cover(a, b),
    ensures
        a == b,
{
    if a.len() > 0 {
        lemma_block_not_before(a, b, total, a.len() - 1);
    }
    if b.len() > 0 {
        lemma_block_not_before(b, a, total, b.len() - 1);
    }
    assert(a.len() == b.len());
    assert forall|i: int| 0 <= i < a.len() implies a[i] == b[i] by {
        lemma_block_not_before(a, b, total, i);
        let j = choose|j: int| i <= j < b.len() && #[trigger] b[j] == a[i];
        lemma_block_not_before(b, a, total, j);
        let q = choose|q: int| j <= q < a.len() && #[trigger] a[q] == b[j];
        if i < q {
            assert(a[i].1 + 1 < a[q].0);
        }
        assert(q == i);
    }
    assert(a =~= b);
}

impl ProgressFile {
    /// The journal's invariant: the total fits the machine and the completed
    /// intervals are canonical.
    pub open spec fn wf(&self) -> bool {
        &&& 0 <= self@.total_size <= usize::MAX
        &&& canonical(self@.intervals, self@.total_size)
    }

    /// Byte `k` of the destination is recorded as written.
    pub open spec fn has_byte(&self, k: int) -> bool {
        covers(self@.intervals, k)
    }

    /// The range `[a, b]` counts as completed: one recorded interval holds
    /// all of it.
    pub open spec fn completed(&self, a: int, b: int) -> bool {
        contains_range(self@.intervals, a, b)
    }

    /// An empty journal for a download of `total_size` bytes that starts now.
    pub fn new(total_size: usize, download_name: String) -> (journal: ProgressFile)
        ensures
            journal.wf(),
            journal@.download_name == download_name@,
            journal@.total_size == total_size,
            journal@.intervals.len() == 0,
    {
        ProgressFile::started_at(total_size, download_name, local_now_text())
    }

    /// An empty journal for a download of `total_size` bytes that started at
    /// `started_on`.
    pub fn started_at(total_size: usize, download_name: String, started_on: String) -> (journal:
        ProgressFile)
        ensures
            journal.wf(),
            journal@.download_name == download_name@,
            journal@.total_size == total_size,
            journal@.intervals.len() == 0,
            journal@.started_on == started_on@,
    {
        ProgressFile { download_name, total_size, completed_chunks: Vec::new(), started_on }
    }

    /// Rebuilds a journal from a stored record. The intervals may come in any
    /// order and may overlap; they are sorted and merged. A record with an
    /// empty interval, or one that reaches past `total_size`, is malformed.
    pub fn from_parts(
        download_name: String,
        total_size: usize,
        completed_chunks: Vec<(usize, usize)>,
        started_on: String,
    ) -> (r: Result<ProgressFile, DomainError>)
        ensures
            match r {
                Ok(journal) => {
                    &&& all_inside(completed_chunks@, total_size as int)
                    &&& journal.wf()
                    &&& journal@.download_name == download_name@
                    &&& journal@.total_size == total_size
                    &&& journal@.started_on == started_on@
                    &&& same_cover(journal@.intervals, completed_chunks@)
                },
                Err(e) => e is ParseError && !all_inside(completed_chunks@, total_size as int),
            },
    {
        let n = completed_chunks.len();
        let mut merged: Vec<(usize, usize)> = Vec::new();
        let mut i: usize = 0;
        while i < n
            invariant
                0 <= i <= n,
                n == completed_chunks@.len(),
                canonical(merged@, total_size as int),
                all_inside(completed_chunks@.take(i as int), total_size as int),
                same_cover(merged@, completed_chunks@.take(i as int)),
            decreases n - i,
        {
            let (lo, hi) = completed_chunks[i];
            if lo > hi || hi >= total_size {
                return Err(DomainError::ParseError("journal interval out of bounds".to_owned()));
            }
            let next = coalesce(&merged, lo, hi, Ghost(total_size as int));
            proof {
                let before = completed_chunks@.take(i as int);
                let after = completed_chunks@.take(i + 1);
                assert forall|k: int| covers(next@, k) <==> covers(after, k) by {
                    if covers(before, k) {
                        let j = choose|j: int|
                            0 <= j < before.len() && (#[trigger] before[j]).0 <= k <= before[j].1;
                        assert(after[j].0 <= k <= after[j].1);
                    }
                    if lo <= k <= hi {
                        assert(after[i as int].0 <= k <= after[i as int].1);
                    }
                    if covers(after, k) {
                        let j = choose|j: int|
                            0 <= j < after.len() && (#[trigger] after[j]).0 <= k <= after[j].1;
                        if j < i {
                            assert(before[j].0 <= k <= before[j].1);
                        }
                    }
                }
                assert forall|j: int| 0 <= j < after.len() implies (#[trigger] after[j]).0
                    <= after[j].1 < total_size by {
                    if j < i {
                        assert(before[j].0 <= before[j].1 < total_size);
                    }
                }
            }
            merged = next;
            i = i + 1;
        }
        assert(completed_chunks@.take(n as int) =~= completed_chunks@);
        Ok(ProgressFile { download_name, total_size, completed_chunks: merged, started_on })
    }

    /// Name of the download.
    pub fn download_name(&self) -> (name: &String)
        ensures
            name@ == self@.download_name,
    {
        &self.download_name
    }

    /// Total size of the download in bytes.
    pub fn total_size(&self) -> (size: usize)
        ensures
            size == self@.total_size,
    {
        self.total_size
    }

    /// The completed intervals, ascending.
    pub fn load_chunk(&self) -> (chunks: &Vec<(usize, usize)>)
        ensures
            chunks@ == self@.intervals,
    {
        &self.completed_chunks
    }

    /// When the download first started.
    pub fn started_on(&self) -> (text: &String)
        ensures
            text@ == self@.started_on,
    {
        &self.started_on
    }

    /// Records `[lo, hi]` as written, merging it with the intervals it
    /// overlaps or touches. An empty range, or one that reaches past the
    /// total size, is refused and leaves the journal as it was.
    pub fn add_chunk(&mut self, chunk_range: (usize, usize)) -> (r: Result<(), DomainError>)
        requires
            old(self).wf(),
        ensures
            final(self).wf(),
            final(self)@.download_name == old(self)@.download_name,
            final(self)@.total_size == old(self)@.total_size,
            final(self)@.started_on == old(self)@.started_on,
            match r {
                Ok(()) => {
                    &&& chunk_range.0 <= chunk_range.1 < old(self)@.total_size
                    &&& final(self).completed(chunk_range.0 as int, chunk_range.1 as int)
                    &&& forall|k: int|
                        final(self).has_byte(k) <==> (old(self).has_byte(k) || chunk_range.0 <= k
                            <= chunk_range.1)
                },
                Err(e) => {
                    &&& e is ValidateError
                    &&& !(chunk_range.0 <= chunk_range.1 < old(self)@.total_size)
                    &&& final(self)@ == old(self)@
                },
            },
    {
        let (lo, hi) = chunk_range;
        if lo > hi || hi >= self.total_size {
            return Err(DomainError::ValidateError("range outside the download".to_owned()));
        }
        let merged = coalesce(&self.completed_chunks, lo, hi, Ghost(self.total_size as int));
        self.completed_chunks = merged;
        Ok(())
    }

    /// Whether the range `[range[0], range[1]]` is completed. A range that is
    /// only partly written is not.
    pub fn is_completed(&self, range: &[usize; 2]) -> (done: bool)
        ensures
            done == self.completed(range[0] as int, range[1] as int),
    {
        let n = self.completed_chunks.len();
        let mut i: usize = 0;
        while i < n
            invariant
                0 <= i <= n,
                n == self.completed_chunks@.len(),
                forall|j: int|
                    0 <= j < i ==> !((#[trigger] self.completed_chunks@[j]).0 <= range[0]
                        && range[1] <= self.completed_chunks@[j].1),
            decreases n - i,
        {
            let (lo, hi) = self.completed_chunks[i];
            if lo <= range[0] && range[1] <= hi {
                return true;
            }
            i = i + 1;
        }
        false
    }

    /// Whether every byte of the download is recorded as written.
    pub fn is_finished(&self) -> (done: bool)
        requires
            self.wf(),
        ensures
            done == (forall|k: int| 0 <= k < self@.total_size ==> self.has_byte(k)),
    {
        if self.total_size == 0 {
            return true;
        }
        if self.completed_chunks.len() == 0 {
            assert(!self.has_byte(0));
            return false;
        }
        let (lo, hi) = self.completed_chunks[0];
        let done = lo == 0 && hi == self.total_size - 1;
        proof {
            let s = self@.intervals;
            if done {
                assert forall|k: int| 0 <= k < self@.total_size implies covers(s, k) by {
                    assert(s[0].0 <= k <= s[0].1);
                }
            } else if lo > 0 {
                if covers(s, 0) {
                    let j = choose|j: int| 0 <= j < s.len() && (#[trigger] s[j]).0 <= 0 <= s[j].1;
                    if j > 0 {
                        assert(s[0].1 + 1 < s[j].0);
                    }
                }
                assert(!self.has_byte(0));
            } else {
                let k = hi + 1;
                if covers(s, k) {
                    let j = choose|j: int| 0 <= j < s.len() && (#[trigger] s[j]).0 <= k <= s[j].1;
                    if j > 0 {
                        assert(s[0].1 + 1 < s[j].0);
                    }
                }
                assert(!self.has_byte(k));
            }
        }
        done
    }
}

impl ProgressFile {
    /// The ranges of `plan` that still have to be fetched: those that are not
    /// completed, in plan order.
    pub fn remaining(&self, plan: &Vec<[usize; 2]>) -> (todo: Vec<[usize; 2]>)
        ensures
            todo@ == plan@.filter(|r: [usize; 2]| !self.completed(r[0] as int, r[1] as int)),
    {
        let ghost keep = |r: [usize; 2]| !self.completed(r[0] as int, r[1] as int);
        let mut todo: Vec<[usize; 2]> = Vec::new();
        let n = plan.len();
        let mut i: usize = 0;
        assert(plan@.take(0).filter(keep) =~= Seq::empty());
        while i < n
            invariant
                0 <= i <= n,
                n == plan@.len(),
                keep == |r: [usize; 2]| !self.completed(r[0] as int, r[1] as int),
                todo@ == plan@.take(i as int).filter(keep),
            decreases n - i,
        {
            let range = plan[i];
            proof {
                plan@.take(i as int).lemma_filter_push(range, keep);
                assert(plan@.take(i as int).push(range) =~= plan@.take(i + 1));
            }
            if !self.is_completed(&range) {
                todo.push(range);
            }
            i = i + 1;
        }
        assert(plan@.take(n as int) =~= plan@);
        todo
    }
}

/// A journal that is stored and rebuilt is the journal that was stored: one
/// with the same name, size and start that covers the same bytes holds the
/// same intervals.
pub proof fn lemma_journal_round_trip(stored: ProgressFile, loaded: ProgressFile)
    requires
        stored.wf(),
        loaded.wf(),
        loaded@.download_name == stored@.download_name,
        loaded@.total_size == stored@.total_size,
        loaded@.started_on == stored@.started_on,
        same_cover(loaded@.intervals, stored@.intervals),
    ensures
        loaded@ == stored@,
{
    lemma_canonical_unique(loaded@.intervals, stored@.intervals, stored@.total_size);
}

/// No two intervals of a journal overlap or touch: if `[a, b]` and `[c, d]`
/// are recorded with `c <= b + 1` and `a <= d + 1`, they are one and the same
/// entry.
pub proof fn lemma_journal_coalesced(journal: ProgressFile, i: int, j: int)
    requires
        journal.wf(),
        0 <= i < journal@.intervals.len(),
        0 <= j < journal@.intervals.len(),
        journal@.intervals[j].0 <= journal@.intervals[i].1 + 1,
        journal@.intervals[i].0 <= journal@.intervals[j].1 + 1,
    ensures
        i == j,
{
    let s = journal@.intervals;
    if i < j {
        assert(s[i].1 + 1 < s[j].0);
    } else if j < i {
        assert(s[j].1 + 1 < s[i].0);
    }
}

/// The place of the journal of a destination: the destination's path with
/// `.progress` added.
pub open spec fn journal_place(destination: Seq<char>) -> Seq<char> {
    destination + ".progress"@
}

/// Where the journal of `destination` is kept.
pub fn journal_path(destination: &str) -> (path: String)
    ensures
        path@ == journal_place(destination@),
{
    let mut path = destination.to_owned();
    path.append(".progress");
    path
}

} // verus!
