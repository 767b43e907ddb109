//! Reading response headers and configuration strings.

use crate::name::{decimal, decimal_text};
use crate::text::{chars_of, has_prefix, starts_with, string_of, strip, strip_bounds, CharClass};
use crate::trusted::{percent_decode_lossy, percent_decoded, regex_capture, regex_group, text_of};
use vstd::prelude::*;
use vstd::string::StringExecFns;

verus! {

/// Whether `c` is one of `0` to `9`.
pub open spec fn is_digit(c: char) -> bool {
    48 <= c as u32 <= 57
}

/// Every character of `s` is a digit.
pub open spec fn all_digits(s: Seq<char>) -> bool {
    forall|i: int| 0 <= i < s.len() ==> is_digit(#[trigger] s[i])
}

/// The number that the decimal digits `s` write.
pub open spec fn digits_value(s: Seq<char>) -> int
    decreases s.len(),
{
    if s.len() == 0 {
        0
    } else {
        digits_value(s.drop_last()) * 10 + (s.last() as u32 - 48)
    }
}

/// The number that `s` writes: one or more decimal digits, with an optional
/// `+` in front.
pub open spec fn unsigned_of(s: Seq<char>) -> Option<int> {
    let digits = if s.len() > 0 && s[0] == '+' {
        s.skip(1)
    } else {
        s
    };
    if digits.len() > 0 && all_digits(digits) {
        Some(digits_value(digits))
    } else {
        None
    }
}

/// The size that a `Content-Length` value gives: the number it writes once
/// surrounding white space is dropped, if it writes one that fits the
/// machine. Anything else counts as no size.
pub open spec fn content_length_of(value: Seq<char>) -> Option<usize> {
    match unsigned_of(strip(value, CharClass::Space)) {
        Some(n) => if n <= usize::MAX {
            Some(n as usize)
        } else {
            None
        },
        None => None,
    }
}

proof fn lemma_digits_grow(s: Seq<char>, k: int)
    requires
        all_digits(s),
        0 <= k <= s.len(),
    ensures
        0 <= digits_value(s.take(k)) <= digits_value(s),
    decreases s.len() - k,
{
    if k == s.len() {
        assert(s.take(k) =~= s);
        lemma_digits_nonneg(s);
    } else {
        lemma_digits_grow(s, k + 1);
        let t = s.take(k + 1);
        assert(t.drop_last() =~= s.take(k));
        assert(is_digit(t.last())) by {
            assert(t.last() == s[k]);
        }
        assert(all_digits(s.take(k))) by {
            assert forall|i: int| 0 <= i < s.take(k).len() implies is_digit(
                #[trigger] s.take(k)[i],
            ) by {
                assert(s.take(k)[i] == s[i]);
            }
        }
        lemma_digits_nonneg(s.take(k));
    }
}

proof fn lemma_digits_nonneg(s: Seq<char>)
    requires
        all_digits(s),
    ensures
        0 <= digits_value(s),
    decreases s.len(),
{
    if s.len() > 0 {
        assert(all_digits(s.drop_last())) by {
            assert forall|i: int| 0 <= i < s.drop_last().len() implies is_digit(
                #[trigger] s.drop_last()[i],
            ) by {
                assert(s.drop_last()[i] == s[i]);
            }
        }
        lemma_digits_nonneg(s.drop_last());
        assert(is_digit(s.last()));
    }
}

/// Reads the value of a `Content-Length` header.
pub fn parse_content_length(value: &str) -> (size: Option<usize>)
    ensures
        size == content_length_of(value@),
{
    let v = chars_of(value);
    let (from, to) = strip_bounds(&v, 0, v.len(), CharClass::Space);
    let ghost t = strip(value@, CharClass::Space);
    assert(v@.subrange(0, v@.len() as int) =~= v@);
    assert(t == v@.subrange(from as int, to as int));
    let start: usize = if from < to && v[from] == '+' {
        from + 1
    } else {
        from
    };
    let ghost d = v@.subrange(start as int, to as int);
    proof {
        if from < to {
            assert(t[0] == v@[from as int]);
        }
        if start == from + 1 {
            assert(t.skip(1) =~= d);
        }
    }
    assert(unsigned_of(t) == if d.len() > 0 && all_digits(d) {
        Some(digits_value(d))
    } else {
        None
    });
    if start == to {
        return None;
    }
    let mut acc: usize = 0;
    let mut i: usize = start;
    assert(d.take(0) =~= Seq::empty());
    while i < to
        invariant
            start <= i <= to <= v@.len(),
            d == v@.subrange(start as int, to as int),
            content_length_of(value@) == if all_digits(d) && digits_value(d) <= usize::MAX {
                Some(digits_value(d) as usize)
            } else {
                None
            },
            all_digits(d.take(i - start)),
            acc == digits_value(d.take(i - start)),
        decreases to - i,
    {
        let c = v[i];
        let code: u32 = c as u32;
        let ghost prefix = d.take(i - start);
        let ghost next = d.take(i - start + 1);
        proof {
            assert(next.drop_last() =~= prefix);
            assert(next.last() == c);
        }
        if code < 48 || code > 57 {
            assert(!all_digits(d)) by {
                assert(d[i - start] == c);
            }
            return None;
        }
        assert(all_digits(next)) by {
            assert forall|j: int| 0 <= j < next.len() implies is_digit(#[trigger] next[j]) by {
                if j < prefix.len() {
                    assert(next[j] == prefix[j]);
                }
            }
        }
        let digit: usize = (code - 48) as usize;
        let grown = match acc.checked_mul(10) {
            Some(tens) => tens.checked_add(digit),
            None => None,
        };
        match grown {
            Some(n) => {
                acc = n;
            },
            None => {
                proof {
                    assert(digits_value(next) > usize::MAX);
                    if all_digits(d) {
                        lemma_digits_grow(d, i - start + 1);
                    }
                }
                return None;
            },
        }
        i = i + 1;
    }
    assert(d.take(to - start) =~= d);
    Some(acc)
}

/// The pattern that finds the `filename` parameter of a
/// `Content-Disposition` header: the parameter name, whatever stands before
/// the `=`, and then either a quoted text or everything up to the next `;`.
pub open spec fn filename_pattern() -> Seq<char> {
    "filename[^;=\\n]*=((['\"]).*?\\2|[^;\\n]*)"@
}

/// The marker in front of a percent-encoded UTF-8 file name.
pub open spec fn utf8_marker() -> Seq<char> {
    "UTF-8''"@
}

/// The file name that a captured `filename` parameter stands for: the text
/// without its surrounding double quotes and, where it starts with the UTF-8
/// marker, percent-decoded after the marker.
pub open spec fn name_from_capture(captured: Seq<char>) -> Seq<char> {
    let bare = strip(captured, CharClass::Quote);
    if has_prefix(bare, utf8_marker()) {
        percent_decoded(bare.skip(utf8_marker().len() as int))
    } else {
        bare
    }
}

/// The file name that a `Content-Disposition` header gives, if it has a
/// `filename` parameter.
pub open spec fn disposition_name(header: Seq<char>) -> Option<Seq<char>> {
    match regex_capture(filename_pattern(), header, 1) {
        Some(captured) => Some(name_from_capture(captured)),
        None => None,
    }
}

/// Turns the captured value of a `filename` parameter into a file name.
pub fn filename_from_capture(captured: &str) -> (name: String)
    ensures
        name@ == name_from_capture(captured@),
{
    let v = chars_of(captured);
    let (from, to) = strip_bounds(&v, 0, v.len(), CharClass::Quote);
    assert(v@.subrange(0, v@.len() as int) =~= v@);
    let marker = chars_of("UTF-8''");
    proof {
        reveal_strlit("UTF-8''");
    }
    if starts_with(&v, from, to, &marker) {
        let rest = string_of(&v, from + marker.len(), to);
        assert(v@.subrange(from as int, to as int).skip(7) =~= v@.subrange(from + 7, to as int));
        percent_decode_lossy(rest.as_str())
    } else {
        string_of(&v, from, to)
    }
}

/// Reads the file name out of a `Content-Disposition` header.
pub fn parse_content_disposition(header: &str) -> (name: Option<String>)
    ensures
        text_of(name) == disposition_name(header@),
{
    match regex_group("filename[^;=\\n]*=((['\"]).*?\\2|[^;\\n]*)", header, 1) {
        Some(captured) => Some(filename_from_capture(captured.as_str())),
        None => None,
    }
}

/// The value of the `Range` header that asks for the bytes `lo` to `hi`.
pub open spec fn range_value(lo: nat, hi: nat) -> Seq<char> {
    "bytes="@ + decimal(lo) + seq!['-'] + decimal(hi)
}

/// The value of the `Range` header for one range of a plan.
pub fn range_header(range: [usize; 2]) -> (value: String)
    ensures
        value@ == range_value(range[0] as nat, range[1] as nat),
{
    let mut value = "bytes=".to_owned();
    let lo = decimal_text(range[0] as u64);
    let hi = decimal_text(range[1] as u64);
    value.append(lo.as_str());
    value.push('-');
    value.append(hi.as_str());
    assert(value@ =~= range_value(range[0] as nat, range[1] as nat));
    value
}

} // verus!
