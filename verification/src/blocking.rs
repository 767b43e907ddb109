//! The decisions of the blocking client, which downloads each range into a
//! part file of its own and joins the part files at the end.

use crate::name::{decimal, decimal_text, tail_after};
use crate::planner::{lemma_part_step, part_count, part_hi, part_lo};
use crate::text::{chars_of, string_of, strip, strip_bounds, CharClass};
use crate::transport::RetryDecision;
use crate::trusted::{plain_regex_capture, plain_regex_group, text_of};
use vstd::prelude::*;
use vstd::string::StringExecFns;

verus! {

/// `parts` is the plan for `total` bytes under the given limits, each range
/// a row `[lo, hi]`.
pub open spec fn is_row_plan(parts: Seq<Vec<u64>>, total: int, max_parts: int, min_mb: int) -> bool {
    let n = part_count(total, max_parts, min_mb);
    &&& parts.len() == n
    &&& forall|i: int|
        0 <= i < n ==> {
            &&& (#[trigger] parts[i])@.len() == 2
            &&& parts[i]@[0] == part_lo(total, n, i)
            &&& parts[i]@[1] == part_hi(total, n, i)
        }
}

/// Cuts `file_size_bytes` into at most `max_concurrent_part` ranges of at
/// least `min_split_part_mb` mebibytes each.
pub fn split_parts(file_size_bytes: u64, max_concurrent_part: u32, min_split_part_mb: u32) -> (parts:
    Vec<Vec<u64>>)
    ensures
        is_row_plan(
            parts@,
            file_size_bytes as int,
            max_concurrent_part as int,
            min_split_part_mb as int,
        ),
{
    let ghost total = file_size_bytes as int;
    let ghost count = part_count(total, max_concurrent_part as int, min_split_part_mb as int);
    let mut parts: Vec<Vec<u64>> = Vec::new();
    if file_size_bytes == 0 {
        return parts;
    }
    let min_bytes: u64 = (min_split_part_mb as u64) * 1_048_576;
    if file_size_bytes <= min_bytes || min_bytes == 0 || max_concurrent_part == 0 {
        let mut row: Vec<u64> = Vec::new();
        row.push(0);
        row.push(file_size_bytes - 1);
        parts.push(row);
        assert(part_lo(total, 1, 0) == 0 && part_hi(total, 1, 0) == total - 1);
        return parts;
    }
    let ideal: u64 = file_size_bytes / min_bytes;
    let num_parts: u64 = if ideal < max_concurrent_part as u64 {
        ideal
    } else {
        max_concurrent_part as u64
    };
    proof {
        assert(1 <= total / (min_bytes as int) <= total) by (nonlinear_arith)
            requires
                1 <= min_bytes < total,
        ;
        assert(num_parts == count);
    }
    let chunk: u64 = file_size_bytes / num_parts;
    let rem: u64 = file_size_bytes % num_parts;
    let mut lo: u64 = 0;
    let mut i: u64 = 0;
    while i < num_parts
        invariant
            0 <= i <= num_parts,
            1 <= num_parts <= file_size_bytes,
            num_parts as int == count,
            total == file_size_bytes as int,
            chunk as int == total / count,
            rem as int == total % count,
            parts@.len() == i,
            i < num_parts ==> lo as int == part_lo(total, count, i as int),
            forall|k: int|
                0 <= k < i ==> {
                    &&& (#[trigger] parts@[k])@.len() == 2
                    &&& parts@[k]@[0] == part_lo(total, count, k)
                    &&& parts@[k]@[1] == part_hi(total, count, k)
                },
        decreases num_parts - i,
    {
        proof {
            lemma_part_step(total, count, i as int);
        }
        let len: u64 = if i < rem {
            chunk + 1
        } else {
            chunk
        };
        let hi: u64 = lo + (len - 1);
        let mut row: Vec<u64> = Vec::new();
        row.push(lo);
        row.push(hi);
        parts.push(row);
        i = i + 1;
        if i < num_parts {
            lo = hi + 1;
        }
    }
    parts
}

/// What is found on disk of one part.
#[derive(Clone, Copy, Debug, PartialEq, Eq, Structural)]
pub enum PartStatus {
    /// Nothing has been written.
    Starting,
    /// The part is being written.
    Started,
    /// The part is there in full, with its size.
    Completed(u64),
    /// The part broke off after this many bytes.
    Broken(u64),
}

/// The status of a part whose last byte is `bytes_end`, given whether its
/// file exists and how large it is.
pub open spec fn status_on_disk(exists: bool, size_on_disk: u64, bytes_end: u64) -> PartStatus {
    if !exists {
        PartStatus::Starting
    } else if bytes_end == size_on_disk {
        PartStatus::Completed(size_on_disk)
    } else if 0 < size_on_disk < bytes_end {
        PartStatus::Broken(size_on_disk)
    } else {
        PartStatus::Starting
    }
}

/// Tells from its file what has become of a part.
pub fn check_part(exists: bool, size_on_disk: u64, bytes_end: u64) -> (status: PartStatus)
    ensures
        status == status_on_disk(exists, size_on_disk, bytes_end),
{
    if !exists {
        PartStatus::Starting
    } else if bytes_end == size_on_disk {
        PartStatus::Completed(size_on_disk)
    } else if 0 < size_on_disk && size_on_disk < bytes_end {
        PartStatus::Broken(size_on_disk)
    } else {
        PartStatus::Starting
    }
}

/// The first byte to ask the server for: the start of the range for a part
/// not begun, the break-off point for a broken one, and nothing for a part
/// that is complete or being written.
pub fn get_part(status: PartStatus, bytes_start: u64) -> (offset: Option<u64>)
    ensures
        offset == match status {
            PartStatus::Starting => Some(bytes_start),
            PartStatus::Broken(at) => Some(at),
            PartStatus::Completed(_) => None,
            PartStatus::Started => None,
        },
{
    match status {
        PartStatus::Starting => Some(bytes_start),
        PartStatus::Broken(at) => Some(at),
        PartStatus::Completed(_) => None,
        PartStatus::Started => None,
    }
}

/// What follows the failure of try number `attempt` of at most
/// `max_retry_no` tries: only connection errors and timeouts are tried
/// again, and only while tries are left.
pub fn retry_request(attempt: u8, max_retry_no: u8, connect_or_timeout: bool) -> (d: RetryDecision)
    ensures
        d == if !connect_or_timeout {
            RetryDecision::Surface
        } else if attempt >= max_retry_no {
            RetryDecision::Exhausted
        } else {
            RetryDecision::Again
        },
{
    if !connect_or_timeout {
        RetryDecision::Surface
    } else if attempt >= max_retry_no {
        RetryDecision::Exhausted
    } else {
        RetryDecision::Again
    }
}

/// The file name of part number `part_num`.
pub fn part_file_name(part_num: u32) -> (name: String)
    ensures
        name@ == "part_"@ + decimal(part_num as nat) + ".part"@,
{
    let mut name = "part_".to_owned();
    let digits = decimal_text(part_num as u64);
    name.append(digits.as_str());
    name.append(".part");
    name
}

/// The extension that a `Content-Type` value stands for: what follows its
/// last `/`, without surrounding double quotes.
pub open spec fn content_type_extension(content_type: Seq<char>) -> Seq<char> {
    strip(tail_after(content_type, '/'), CharClass::Quote)
}

/// Reads an extension out of a `Content-Type` value.
pub fn extension_from_content_type(content_type: &str) -> (extension: String)
    ensures
        extension@ == content_type_extension(content_type@),
{
    let v = chars_of(content_type);
    let mut k: usize = v.len();
    while k > 0 && v[k - 1] != '/'
        invariant
            0 <= k <= v@.len(),
            forall|j: int| k <= j < v@.len() ==> v@[j] != '/',
        decreases k,
    {
        k = k - 1;
    }
    proof {
        crate::name::lemma_tail_after(v@, '/', k as int);
        assert(v@.subrange(k as int, v@.len() as int) =~= v@.skip(k as int));
    }
    let (a, b) = strip_bounds(&v, k, v.len(), CharClass::Quote);
    string_of(&v, a, b)
}

/// The pattern that the blocking client looks for in a
/// `Content-Disposition` header: `filename=`, an optional quote, and a run
/// of characters that are neither quote nor white space.
pub open spec fn quoted_filename_pattern() -> Seq<char> {
    "filename=\"?([^\"\\s]+)\"?"@
}

/// The file name of a download: the one in the `Content-Disposition`
/// header, or else a number and an extension. The extension is the one that
/// the body's kind stands for, or else the one in the `Content-Type`.
pub open spec fn blocking_name(
    disposition: Option<Seq<char>>,
    sniffed: Option<Seq<char>>,
    content_type: Seq<char>,
    token: u32,
) -> Seq<char> {
    let extension = match sniffed {
        Some(ext) => ext,
        None => content_type_extension(content_type),
    };
    let made = decimal(token as nat) + seq!['.'] + extension;
    match disposition {
        Some(header) => match plain_regex_capture(quoted_filename_pattern(), header, 1) {
            Some(name) => name,
            None => made,
        },
        None => made,
    }
}

/// Chooses the file name of a download.
pub fn check_name(
    disposition: Option<String>,
    sniffed: Option<String>,
    content_type: &str,
    token: u32,
) -> (name: String)
    ensures
        name@ == blocking_name(text_of(disposition), text_of(sniffed), content_type@, token),
{
    let found = match disposition {
        Some(header) => plain_regex_group("filename=\"?([^\"\\s]+)\"?", header.as_str(), 1),
        None => None,
    };
    match found {
        Some(name) => name,
        None => {
            let extension = match sniffed {
                Some(ext) => ext,
                None => extension_from_content_type(content_type),
            };
            let mut name = decimal_text(token as u64);
            name.push('.');
            name.append(extension.as_str());
            assert(name@ =~= decimal(token as nat) + seq!['.'] + extension@);
            name
        },
    }
}

/// The bytes joined so far after a part of `part_bytes` bytes is added to
/// `completed_bytes`, or `None` where the count no longer fits.
pub fn add_part_bytes(completed_bytes: usize, part_bytes: usize) -> (sum: Option<usize>)
    ensures
        match sum {
            Some(n) => n == completed_bytes + part_bytes,
            None => completed_bytes + part_bytes > usize::MAX,
        },
{
    completed_bytes.checked_add(part_bytes)
}

} // verus!
