//! Range planning: how the byte space `[0, total)` of one download is cut
//! into closed intervals `[lo, hi]`, one per worker.

use crate::errors::DomainError;
use vstd::prelude::*;

verus! {

/// Bytes in one mebibyte, the unit of the minimum part size.
pub const BYTES_PER_MB: usize = 1_048_576;

/// Number of ranges in the plan for `total` bytes, for a minimum part size
/// of `min_bytes` bytes.
///
/// An empty download has no range. A download no larger than the minimum part
/// size, or one planned with a zero minimum or zero concurrency, is a single
/// range. Otherwise there are as many ranges as minimum-sized parts fit,
/// capped by `max_parts`.
pub open spec fn range_count(total: int, max_parts: int, min_bytes: int) -> int {
    if total <= 0 {
        0
    } else if total <= min_bytes || min_bytes == 0 || max_parts == 0 {
        1
    } else if total / min_bytes < max_parts {
        total / min_bytes
    } else {
        max_parts
    }
}

/// Number of ranges in the plan for `total` bytes, for a minimum part size
/// of `min_mb` mebibytes.
pub open spec fn part_count(total: int, max_parts: int, min_mb: int) -> int {
    range_count(total, max_parts, min_mb * 1_048_576)
}

/// Length of range `i` when `total` bytes are cut into `n` ranges: the base
/// chunk, plus one of the remainder bytes for each of the first `total % n`
/// ranges.
pub open spec fn part_len(total: int, n: int, i: int) -> int {
    total / n + if i < total % n { 1int } else { 0int }
}

/// First byte of range `i`: the lengths of all ranges before it.
pub open spec fn part_lo(total: int, n: int, i: int) -> int {
    i * (total / n) + if i < total % n { i } else { total % n }
}

/// Last byte of range `i`.
pub open spec fn part_hi(total: int, n: int, i: int) -> int {
    part_lo(total, n, i) + part_len(total, n, i) - 1
}

/// `parts` is the plan for `total` bytes, for at most `max_parts` ranges of
/// at least `min_bytes` bytes.
pub open spec fn is_range_plan(
    parts: Seq<[usize; 2]>,
    total: int,
    max_parts: int,
    min_bytes: int,
) -> bool {
    let n = range_count(total, max_parts, min_bytes);
    &&& parts.len() == n
    &&& forall|i: int|
        0 <= i < n ==> {
            &&& (#[trigger] parts[i])[0] == part_lo(total, n, i)
            &&& parts[i][1] == part_hi(total, n, i)
        }
}

/// `parts` is the plan for `total` bytes, for at most `max_parts` ranges of
/// at least `min_mb` mebibytes.
pub open spec fn is_plan(parts: Seq<[usize; 2]>, total: int, max_parts: int, min_mb: int) -> bool {
    is_range_plan(parts, total, max_parts, min_mb * 1_048_576)
}

pub proof fn lemma_range_count_bounds(total: int, max_parts: int, min_bytes: int)
    requires
        total >= 1,
        max_parts >= 0,
        min_bytes >= 0,
    ensures
        1 <= range_count(total, max_parts, min_bytes) <= total,
        max_parts >= 1 ==> range_count(total, max_parts, min_bytes) <= max_parts,
{
    if !(total <= min_bytes || min_bytes == 0 || max_parts == 0) {
        assert(1 <= total / min_bytes <= total) by (nonlinear_arith)
            requires
                1 <= min_bytes < total,
        ;
    }
}

pub proof fn lemma_part_step(total: int, n: int, i: int)
    requires
        n >= 1,
        total >= n,
        0 <= i < n,
    ensures
        part_lo(total, n, i + 1) == part_hi(total, n, i) + 1,
        part_lo(total, n, i) <= part_hi(total, n, i),
        0 <= part_lo(total, n, i),
        part_hi(total, n, i) < total,
{
    let c = total / n;
    let r = total % n;
    assert(total == n * c + r && 0 <= r < n && c >= 1) by (nonlinear_arith)
        requires
            n >= 1,
            total >= n,
            c == total / n,
            r == total % n,
    ;
    assert((i + 1) * c == i * c + c) by (nonlinear_arith);
    assert(0 <= i * c && (i + 1) * c <= n * c) by (nonlinear_arith)
        requires
            0 <= i < n,
            c >= 1,
    ;
}

/// Every plan for a non-empty download tiles `[0, total - 1]`: it starts at
/// byte 0, ends at the last byte, each range is non-empty, each range begins
/// right after the one before it and ends inside the download, and there are
/// at most `max_parts` ranges.
/// This holds for every minimum part size, given in bytes here; a minimum of
/// `m` mebibytes is one of `m * 1_048_576` bytes.
pub proof fn lemma_plan_covers_exactly(
    parts: Seq<[usize; 2]>,
    total: int,
    max_parts: int,
    min_bytes: int,
)
    requires
        total >= 1,
        max_parts >= 1,
        min_bytes >= 0,
        is_range_plan(parts, total, max_parts, min_bytes),
    ensures
        1 <= parts.len() <= max_parts,
        parts[0][0] == 0,
        parts[parts.len() - 1][1] == total - 1,
        forall|i: int|
            0 <= i < parts.len() ==> (#[trigger] parts[i])[0] <= parts[i][1] < total,
        forall|i: int|
            0 <= i < parts.len() - 1 ==> (#[trigger] parts[i + 1])[0] == parts[i][1] + 1,
{
    let n = range_count(total, max_parts, min_bytes);
    lemma_range_count_bounds(total, max_parts, min_bytes);
    assert forall|i: int| 0 <= i < n implies (#[trigger] parts[i])[0] <= parts[i][1] < total by {
        lemma_part_step(total, n, i);
    }
    assert forall|i: int| 0 <= i < n - 1 implies (#[trigger] parts[i + 1])[0] == parts[i][1]
        + 1 by {
        lemma_part_step(total, n, i);
    }
    lemma_part_step(total, n, n - 1);
    assert(part_lo(total, n, n) == total) by (nonlinear_arith)
        requires
            n >= 1,
            total >= n,
            part_lo(total, n, n) == n * (total / n) + total % n,
    ;
}

/// Planning is a function of its inputs: two plans for the same inputs hold
/// the same ranges in the same order.
pub proof fn lemma_plan_deterministic(
    a: Seq<[usize; 2]>,
    b: Seq<[usize; 2]>,
    total: int,
    max_parts: int,
    min_bytes: int,
)
    requires
        is_range_plan(a, total, max_parts, min_bytes),
        is_range_plan(b, total, max_parts, min_bytes),
    ensures
        a == b,
{
    broadcast use vstd::array::group_array_axioms;

    assert forall|i: int| 0 <= i < a.len() implies a[i] == b[i] by {
        assert(a[i][0] == b[i][0]);
        assert(a[i][1] == b[i][1]);
        assert(a[i]@ =~= b[i]@);
    }
    assert(a =~= b);
}

/// Cuts `file_size_bytes` into at most `max_concurrent_part` ranges of at
/// least `min_part_bytes` bytes each.
pub fn split_ranges(file_size_bytes: usize, max_concurrent_part: usize, min_part_bytes: usize) -> (parts:
    Vec<[usize; 2]>)
    ensures
        is_range_plan(
            parts@,
            file_size_bytes as int,
            max_concurrent_part as int,
            min_part_bytes as int,
        ),
{
    let ghost total = file_size_bytes as int;
    let ghost count = range_count(total, max_concurrent_part as int, min_part_bytes as int);
    let mut parts: Vec<[usize; 2]> = Vec::new();
    if file_size_bytes == 0 {
        return parts;
    }
    if file_size_bytes <= min_part_bytes || min_part_bytes == 0 || max_concurrent_part == 0 {
        parts.push([0, file_size_bytes - 1]);
        assert(part_lo(total, 1, 0) == 0 && part_hi(total, 1, 0) == total - 1);
        return parts;
    }
    let ideal: usize = file_size_bytes / min_part_bytes;
    let num_parts: usize = if ideal < max_concurrent_part {
        ideal
    } else {
        max_concurrent_part
    };
    proof {
        lemma_range_count_bounds(total, max_concurrent_part as int, min_part_bytes as int);
        assert(num_parts == count);
    }
    let chunk: usize = file_size_bytes / num_parts;
    let rem: usize = file_size_bytes % num_parts;
    let mut lo: usize = 0;
    let mut i: usize = 0;
    while i < num_parts
        invariant
            0 <= i <= num_parts,
            1 <= num_parts <= file_size_bytes,
            num_parts as int == count,
            total == file_size_bytes as int,
            chunk as int == total / count,
            rem as int == total % count,
            parts@.len() == i,
            i < num_parts ==> lo as int == part_lo(total, count, i as int),
            forall|k: int|
                0 <= k < i ==> {
                    &&& (#[trigger] parts@[k])[0] == part_lo(total, count, k)
                    &&& parts@[k][1] == part_hi(total, count, k)
                },
        decreases num_parts - i,
    {
        proof {
            lemma_part_step(total, count, i as int);
        }
        let len: usize = if i < rem {
            chunk + 1
        } else {
            chunk
        };
        let hi: usize = lo + (len - 1);
        parts.push([lo, hi]);
        i = i + 1;
        if i < num_parts {
            lo = hi + 1;
        }
    }
    parts
}

/// Cuts `file_size_bytes` into at most `max_concurrent_part` ranges of at
/// least `min_split_part_mb` mebibytes each.
pub fn split_parts(
    file_size_bytes: usize,
    max_concurrent_part: usize,
    min_split_part_mb: usize,
) -> (parts: Vec<[usize; 2]>)
    ensures
        is_plan(
            parts@,
            file_size_bytes as int,
            max_concurrent_part as int,
            min_split_part_mb as int,
        ),
{
    match min_split_part_mb.checked_mul(BYTES_PER_MB) {
        Some(min_bytes) => split_ranges(file_size_bytes, max_concurrent_part, min_bytes),
        None => {
            let mut parts: Vec<[usize; 2]> = Vec::new();
            if file_size_bytes > 0 {
                parts.push([0, file_size_bytes - 1]);
                assert(part_lo(file_size_bytes as int, 1, 0) == 0 && part_hi(
                    file_size_bytes as int,
                    1,
                    0,
                ) == file_size_bytes - 1);
            }
            parts
        },
    }
}

/// Number of fixed-size chunks needed for `size` bytes: `size / chunk`,
/// rounded up.
pub open spec fn chunk_count(size: int, chunk: int) -> int {
    if size <= 0 {
        0
    } else {
        (size + chunk - 1) / chunk
    }
}

/// `parts` cuts `size` bytes into chunks of `chunk` bytes; only the last one
/// may be shorter.
pub open spec fn is_chunking(parts: Seq<[usize; 2]>, size: int, chunk: int) -> bool {
    &&& parts.len() == chunk_count(size, chunk)
    &&& forall|i: int|
        0 <= i < parts.len() ==> {
            &&& (#[trigger] parts[i])[0] == i * chunk
            &&& parts[i][1] == if (i + 1) * chunk <= size {
                (i + 1) * chunk - 1
            } else {
                size - 1
            }
        }
}

proof fn lemma_chunk_count(size: int, chunk: int, i: int)
    requires
        size >= 1,
        chunk >= 1,
        i >= 0,
    ensures
        (i * chunk < size) == (i < chunk_count(size, chunk)),
{
    let q = (size + chunk - 1) / chunk;
    let r = (size + chunk - 1) % chunk;
    assert(size + chunk - 1 == q * chunk + r && 0 <= r < chunk) by (nonlinear_arith)
        requires
            chunk >= 1,
            q == (size + chunk - 1) / chunk,
            r == (size + chunk - 1) % chunk,
    ;
    if i < q {
        assert(i * chunk <= (q - 1) * chunk) by (nonlinear_arith)
            requires
                i <= q - 1,
                chunk >= 1,
        ;
        assert((q - 1) * chunk == q * chunk - chunk) by (nonlinear_arith);
    } else {
        assert(i * chunk >= q * chunk) by (nonlinear_arith)
            requires
                i >= q,
                chunk >= 1,
        ;
    }
}

/// Cuts `download_size` bytes into chunks of `chunk_size` bytes, or into one
/// range over the whole download when no chunk size is given.
pub fn generate_chunk(download_size: usize, chunk_size: Option<usize>) -> (parts: Vec<[usize; 2]>)
    requires
        chunk_size != Some(0usize),
        chunk_size is None ==> download_size >= 1,
    ensures
        match chunk_size {
            Some(chunk) => is_chunking(parts@, download_size as int, chunk as int),
            None => parts@.len() == 1 && parts@[0][0] == 0 && parts@[0][1] == download_size - 1,
        },
{
    let mut parts: Vec<[usize; 2]> = Vec::new();
    let chunk: usize = match chunk_size {
        Some(chunk) => chunk,
        None => {
            parts.push([0, download_size - 1]);
            return parts;
        },
    };
    let ghost size = download_size as int;
    let mut start: usize = 0;
    let mut done: bool = download_size == 0;
    assert(parts@.len() * chunk == 0) by (nonlinear_arith)
        requires
            parts@.len() == 0,
    ;
    while !done
        invariant
            chunk >= 1,
            size == download_size as int,
            !done ==> start as int == parts@.len() * chunk && start < download_size,
            done ==> parts@.len() == chunk_count(size, chunk as int),
            forall|k: int|
                0 <= k < parts@.len() ==> {
                    &&& (#[trigger] parts@[k])[0] == k * chunk
                    &&& parts@[k][1] == if (k + 1) * chunk <= size {
                        (k + 1) * chunk - 1
                    } else {
                        size - 1
                    }
                },
        decreases download_size - start, if done { 0int } else { 1int },
    {
        let ghost i = parts@.len() as int;
        proof {
            lemma_chunk_count(size, chunk as int, i);
            lemma_chunk_count(size, chunk as int, i + 1);
            assert((i + 1) * chunk == i * chunk + chunk) by (nonlinear_arith);
        }
        let room: usize = download_size - 1 - start;
        if chunk - 1 >= room {
            parts.push([start, download_size - 1]);
            done = true;
        } else {
            let end: usize = start + (chunk - 1);
            parts.push([start, end]);
            start = end + 1;
        }
    }
    parts
}

/// Network buffer and part size used where none is configured.
pub const DEFAULT_PART_SIZE: usize = 131_072;

/// Cuts `file_size` bytes into parts of `part_size` bytes, or of
/// `DEFAULT_PART_SIZE` bytes where none is given. A part size of zero is
/// refused.
pub fn fixed_size_parts(file_size: usize, part_size: Option<usize>) -> (r: Result<
    Vec<[usize; 2]>,
    DomainError,
>)
    ensures
        match r {
            Ok(parts) => part_size != Some(0usize) && is_chunking(
                parts@,
                file_size as int,
                match part_size {
                    Some(n) => n as int,
                    None => DEFAULT_PART_SIZE as int,
                },
            ),
            Err(e) => e is ValidateError && part_size == Some(0usize),
        },
{
    let size: usize = match part_size {
        Some(n) => n,
        None => DEFAULT_PART_SIZE,
    };
    if size == 0 {
        return Err(DomainError::ValidateError("part size must not be zero".to_owned()));
    }
    Ok(generate_chunk(file_size, Some(size)))
}

} // verus!
