//! Choosing the file name of a download.
//!
//! The name comes, in this order, from the `Content-Disposition` header, from
//! the last segment of the URL's path if it carries an extension, or from the
//! kind of content found at the start of the body. Whatever is chosen is
//! sanitized, and an empty result gives way to a fixed name.

use crate::text::{chars_of, first_index, lemma_first_index, same_text, string_of};
use crate::trusted::{
    le32, parse_url_parts, percent_decode_lossy, percent_decoded, random_u32, sanitize_name,
    sanitized, skippable_frame, sniff_extension, sniffable, sniffed_extension, text_of,
    unsafe_char, url_parts,
};
use vstd::prelude::*;
use vstd::string::StringExecFns;

verus! {

/// Number of leading bytes of a body that are looked at to find its kind.
pub const SNIFF_LEN: usize = 2048;

/// What follows the last `sep` in `s`; all of `s` if there is none.
pub open spec fn tail_after(s: Seq<char>, sep: char) -> Seq<char>
    decreases s.len(),
{
    let i = first_index(s, sep);
    if 0 <= i < s.len() {
        tail_after(s.skip(i + 1), sep)
    } else {
        s
    }
}

/// The last segment of a URL path: what follows its last `/`. A path that
/// does not start with `/` has no segments.
pub open spec fn last_segment(path: Seq<char>) -> Option<Seq<char>> {
    if path.len() > 0 && path[0] == '/' {
        Some(tail_after(path, '/'))
    } else {
        None
    }
}

/// The decoded last path segment of `url`, if the URL parses and the segment
/// is not empty.
pub open spec fn url_segment(url: Seq<char>) -> Option<Seq<char>> {
    match url_parts(url) {
        Some(parts) => match last_segment(parts.1) {
            Some(segment) => if percent_decoded(segment).len() > 0 {
                Some(percent_decoded(segment))
            } else {
                None
            },
            None => None,
        },
        None => None,
    }
}

/// Length of `name` without what a path ignores at its end: separators,
/// and components that are a single `.`.
pub open spec fn trimmed_len(name: Seq<char>) -> int
    decreases name.len(),
{
    if name.len() >= 1 && name.last() == '/' {
        trimmed_len(name.drop_last())
    } else if name.len() >= 2 && name.last() == '.' && name[name.len() - 2] == '/' {
        trimmed_len(name.take(name.len() - 2))
    } else {
        name.len() as int
    }
}

/// The last component of a name read as a path with `/` as separator: what
/// follows the last separator, once trailing separators and trailing `.`
/// components are dropped.
pub open spec fn last_component(name: Seq<char>) -> Seq<char> {
    tail_after(name.take(trimmed_len(name)), '/')
}

/// Whether a name carries an extension: its last component holds a `.` that
/// is not its first character, and is not the name `..` of the parent
/// directory.
pub open spec fn has_extension(name: Seq<char>) -> bool {
    let file = last_component(name);
    &&& file != seq!['.', '.']
    &&& exists|i: int| 0 < i < file.len() && file[i] == '.'
}

/// The decimal digit for `d`.
pub open spec fn digit_char(d: int) -> char {
    if d == 0 {
        '0'
    } else if d == 1 {
        '1'
    } else if d == 2 {
        '2'
    } else if d == 3 {
        '3'
    } else if d == 4 {
        '4'
    } else if d == 5 {
        '5'
    } else if d == 6 {
        '6'
    } else if d == 7 {
        '7'
    } else if d == 8 {
        '8'
    } else {
        '9'
    }
}

/// `n` written in decimal, without leading zeros.
pub open spec fn decimal(n: nat) -> Seq<char>
    decreases n,
{
    if n < 10 {
        seq![digit_char(n as int)]
    } else {
        decimal(n / 10).push(digit_char((n % 10) as int))
    }
}

/// The name used when nothing better is known.
pub open spec fn fallback_name() -> Seq<char> {
    "download"@
}

/// The name chosen without looking at the body: the name that the server
/// gave, or else the URL's last segment if it has an extension.
pub open spec fn name_without_body(given: Option<Seq<char>>, url: Seq<char>) -> Option<Seq<char>> {
    match given {
        Some(name) => Some(name),
        None => match url_segment(url) {
            Some(segment) => if has_extension(segment) {
                Some(segment)
            } else {
                None
            },
            None => None,
        },
    }
}

/// The name chosen from the kind of the body: the URL's last segment, or a
/// number where there is none, with the extension of that kind; the
/// fallback name where the kind is unknown.
pub open spec fn name_from_body(url: Seq<char>, extension: Option<Seq<char>>, token: u32) -> Seq<
    char,
> {
    match extension {
        Some(ext) => match url_segment(url) {
            Some(segment) => segment + seq!['.'] + ext,
            None => decimal(token as nat) + seq!['.'] + ext,
        },
        None => fallback_name(),
    }
}

/// `name` after one pass of the sanitizer: without path separators, control
/// characters and reserved device names, and cut to length.
pub open spec fn clean(name: Seq<char>) -> Seq<char> {
    sanitized(name, true, true, Seq::empty())
}

/// `chosen` made safe for a file system: sanitized, if that gives a name
/// that is not empty and that a second sanitizing leaves as it is; the
/// fallback name otherwise.
pub open spec fn safe_name(chosen: Seq<char>) -> Seq<char> {
    let once = clean(chosen);
    if once.len() == 0 || clean(once) != once {
        fallback_name()
    } else {
        once
    }
}

/// What holds of every name that is chosen: it is not empty, holds no path
/// separator and no control character, and is the fallback name or a name
/// that sanitizing leaves as it is.
pub open spec fn is_safe(name: Seq<char>) -> bool {
    &&& name.len() > 0
    &&& forall|i: int| 0 <= i < name.len() ==> !unsafe_char(name[i])
    &&& name == fallback_name() || clean(name) == name
}

/// The extension that the start of a body stands for: what the sniffer
/// finds, and nothing for a buffer that cannot be handed to it.
pub open spec fn body_extension(buf: Seq<u8>) -> Option<Seq<char>> {
    if sniffable(buf) {
        sniffed_extension(buf)
    } else {
        None
    }
}

/// The name of a download once its body has been looked at.
pub open spec fn resolved_name(
    given: Option<Seq<char>>,
    url: Seq<char>,
    extension: Option<Seq<char>>,
    token: u32,
) -> Seq<char> {
    match name_without_body(given, url) {
        Some(name) => safe_name(name),
        None => safe_name(name_from_body(url, extension, token)),
    }
}

pub proof fn lemma_tail_after(s: Seq<char>, sep: char, k: int)
    requires
        0 <= k <= s.len(),
        k > 0 ==> s[k - 1] == sep,
        forall|j: int| k <= j < s.len() ==> s[j] != sep,
    ensures
        tail_after(s, sep) == s.skip(k),
    decreases s.len(),
{
    lemma_first_index(s, sep);
    let i = first_index(s, sep);
    if i < s.len() {
        assert(i < k);
        let rest = s.skip(i + 1);
        assert forall|j: int| k - (i + 1) <= j < rest.len() implies rest[j] != sep by {
            assert(rest[j] == s[j + i + 1]);
        }
        if k - (i + 1) > 0 {
            assert(rest[k - (i + 1) - 1] == s[k - 1]);
        }
        lemma_tail_after(rest, sep, k - (i + 1));
        assert(rest.skip(k - (i + 1)) =~= s.skip(k));
    } else {
        if k > 0 {
            assert(s[k - 1] != sep);
        }
        assert(s.skip(0) =~= s);
    }
}

/// Whether a name carries an extension.
pub fn carries_extension(name: &str) -> (b: bool)
    ensures
        b == has_extension(name@),
{
    let v = chars_of(name);
    let mut n: usize = v.len();
    assert(v@.take(n as int) =~= v@);
    loop
        invariant
            0 <= n <= v@.len(),
            v@ == name@,
            trimmed_len(v@) == trimmed_len(v@.take(n as int)),
        ensures
            0 <= n <= v@.len(),
            v@ == name@,
            trimmed_len(v@) == n,
        decreases n,
    {
        let ghost here = v@.take(n as int);
        if n >= 1 && v[n - 1] == '/' {
            assert(here.drop_last() =~= v@.take(n - 1));
            n = n - 1;
        } else if n >= 2 && v[n - 1] == '.' && v[n - 2] == '/' {
            assert(here.take(here.len() - 2) =~= v@.take(n - 2));
            n = n - 2;
        } else {
            break ;
        }
    }
    let ghost path = v@.take(n as int);
    let mut k: usize = n;
    while k > 0 && v[k - 1] != '/'
        invariant
            0 <= k <= n <= v@.len(),
            path == v@.take(n as int),
            forall|j: int| k <= j < n ==> path[j] != '/',
        decreases k,
    {
        k = k - 1;
    }
    let ghost file = path.skip(k as int);
    proof {
        lemma_tail_after(path, '/', k as int);
        assert(file == last_component(name@));
    }
    if k == n {
        return false;
    }
    if n - k == 2 && v[k] == '.' && v[k + 1] == '.' {
        assert(file =~= seq!['.', '.']);
        return false;
    }
    proof {
        if file == seq!['.', '.'] {
            assert(file.len() == 2);
            assert(file[0] == v@[k as int] && file[1] == v@[k + 1]);
        }
    }
    let mut i: usize = k + 1;
    while i < n
        invariant
            k < i <= n <= v@.len(),
            file == v@.take(n as int).skip(k as int),
            file == last_component(name@),
            file != seq!['.', '.'],
            forall|j: int| 0 < j < i - k ==> file[j] != '.',
        decreases n - i,
    {
        if v[i] == '.' {
            assert(file[i - k] == '.');
            return true;
        }
        i = i + 1;
    }
    false
}

/// The last segment of a URL path.
pub fn path_last_segment(path: &str) -> (segment: Option<String>)
    ensures
        text_of(segment) == last_segment(path@),
{
    let v = chars_of(path);
    if v.len() == 0 || v[0] != '/' {
        return None;
    }
    let mut k: usize = v.len();
    while k > 0 && v[k - 1] != '/'
        invariant
            0 <= k <= v@.len(),
            forall|j: int| k <= j < v@.len() ==> v@[j] != '/',
        decreases k,
    {
        k = k - 1;
    }
    proof {
        lemma_tail_after(v@, '/', k as int);
        assert(v@.subrange(k as int, v@.len() as int) =~= v@.skip(k as int));
    }
    Some(string_of(&v, k, v.len()))
}

/// The decoded last path segment of `url`, if there is one and it is not
/// empty.
pub fn segment_of_url(url: &str) -> (segment: Option<String>)
    ensures
        text_of(segment) == url_segment(url@),
{
    match parse_url_parts(url) {
        Some(parts) => match path_last_segment(parts.1.as_str()) {
            Some(raw) => {
                let decoded = percent_decode_lossy(raw.as_str());
                if decoded.as_str().unicode_len() > 0 {
                    Some(decoded)
                } else {
                    None
                }
            },
            None => None,
        },
        None => None,
    }
}

fn digit_of(d: u64) -> (c: char)
    requires
        d < 10,
    ensures
        c == digit_char(d as int),
{
    if d == 0 {
        '0'
    } else if d == 1 {
        '1'
    } else if d == 2 {
        '2'
    } else if d == 3 {
        '3'
    } else if d == 4 {
        '4'
    } else if d == 5 {
        '5'
    } else if d == 6 {
        '6'
    } else if d == 7 {
        '7'
    } else if d == 8 {
        '8'
    } else {
        '9'
    }
}

/// `n` written in decimal.
pub fn decimal_text(n: u64) -> (text: String)
    ensures
        text@ == decimal(n as nat),
    decreases n,
{
    if n < 10 {
        let mut text = String::new();
        text.push(digit_of(n));
        assert(text@ =~= seq![digit_char(n as int)]);
        text
    } else {
        let mut text = decimal_text(n / 10);
        text.push(digit_of(n % 10));
        text
    }
}

/// Makes `chosen` safe for a file system. The result is never empty, holds
/// no path separator and no control character, and is either the fallback
/// name or a name that sanitizing leaves as it is.
pub fn make_safe(chosen: &str) -> (name: String)
    ensures
        name@ == safe_name(chosen@),
        is_safe(name@),
{
    let empty = String::new();
    let once = sanitize_name(chosen, true, true, empty.as_str());
    let stable = if once.as_str().unicode_len() == 0 {
        false
    } else {
        let twice = sanitize_name(once.as_str(), true, true, empty.as_str());
        same_text(twice.as_str(), once.as_str())
    };
    if stable {
        once
    } else {
        proof {
            reveal_strlit("download");
        }
        "download".to_owned()
    }
}

/// What is known of a download's name before its body is looked at.
#[derive(Debug)]
pub struct DownloadName {
    given: Option<String>,
    url: String,
}

/// What a `DownloadName` holds.
pub struct DownloadNameView {
    pub given: Option<Seq<char>>,
    pub url: Seq<char>,
}

impl View for DownloadName {
    type V = DownloadNameView;

    closed spec fn view(&self) -> DownloadNameView {
        DownloadNameView { given: text_of(self.given), url: self.url@ }
    }
}

impl DownloadName {
    /// Starts from the name that the server gave, if any, and the URL.
    pub fn new(given: Option<String>, url: String) -> (n: DownloadName)
        ensures
            n@.given == text_of(given),
            n@.url == url@,
    {
        DownloadName { given, url }
    }

    /// The name, if it can be told without the body. `None` means that the
    /// first `SNIFF_LEN` bytes of the body have to be fetched.
    pub fn known(&self) -> (name: Option<String>)
        ensures
            text_of(name) == match name_without_body(self@.given, self@.url) {
                Some(chosen) => Some(safe_name(chosen)),
                None => None,
            },
            match name {
                Some(n) => is_safe(n@),
                None => true,
            },
    {
        match &self.given {
            Some(name) => Some(make_safe(name.as_str())),
            None => match segment_of_url(self.url.as_str()) {
                Some(segment) => if carries_extension(segment.as_str()) {
                    Some(make_safe(segment.as_str()))
                } else {
                    None
                },
                None => None,
            },
        }
    }

    /// The name, given the extension that the body's kind stands for and a
    /// number to use where the URL has no segment to offer.
    pub fn resolve(&self, extension: Option<String>, token: u32) -> (name: String)
        ensures
            name@ == resolved_name(self@.given, self@.url, text_of(extension), token),
            is_safe(name@),
    {
        match self.known() {
            Some(name) => name,
            None => {
                let chosen = match extension {
                    Some(ext) => {
                        let stem = match segment_of_url(self.url.as_str()) {
                            Some(segment) => segment,
                            None => decimal_text(token as u64),
                        };
                        let ghost stem_text = stem@;
                        let mut chosen = stem;
                        chosen.push('.');
                        chosen.append(ext.as_str());
                        assert(chosen@ =~= stem_text + seq!['.'] + ext@);
                        assert(chosen@ == name_from_body(self@.url, text_of(extension), token));
                        chosen
                    },
                    None => "download".to_owned(),
                };
                make_safe(chosen.as_str())
            },
        }
    }

    /// The name, given the first bytes of the body. Where the name hangs on
    /// a number, the number is drawn at random.
    pub fn get_or_parse(&self, head: &Vec<u8>) -> (name: String)
        ensures
            exists|token: u32|
                name@ == resolved_name(self@.given, self@.url, body_extension(head@), token),
            is_safe(name@),
    {
        let extension = get_extension(head);
        let token = random_u32();
        let name = self.resolve(extension, token);
        assert(name@ == resolved_name(self@.given, self@.url, body_extension(head@), token));
        name
    }
}

/// The file extension that the start of a body stands for, if its kind is
/// known. A buffer that starts like a zip archive or like a skippable frame
/// and claims a length too large for the machine is not looked at.
pub fn get_extension(buf: &Vec<u8>) -> (extension: Option<String>)
    ensures
        text_of(extension) == body_extension(buf@),
{
    if buf.len() >= 22 && buf[0] == 0x50 && buf[1] == 0x4b && buf[2] == 0x03 && buf[3] == 0x04 {
        let claimed: u64 = buf[18] as u64 + (buf[19] as u64) * 0x100 + (buf[20] as u64) * 0x1_0000
            + (buf[21] as u64) * 0x100_0000;
        assert(claimed == le32(buf@, 18));
        if claimed + 25_000 > usize::MAX as u64 {
            return None;
        }
    }
    if buf.len() >= 8 && buf[0] / 16 == 5 && buf[1] == 0x2a && buf[2] == 0x4d && buf[3] == 0x18 {
        assert(skippable_frame(buf@));
        if (usize::MAX as u64) < 0x1_0000_0007 {
            return None;
        }
    }
    sniff_extension(buf)
}

/// The byte range to fetch for a look at the start of a body.
pub fn sniff_range() -> (range: [usize; 2])
    ensures
        range[0] == 0,
        range[1] == SNIFF_LEN - 1,
{
    [0, SNIFF_LEN - 1]
}

/// Adds to `head` as much of `chunk` as is still wanted for a look at the
/// start of a body, and says whether `head` is full.
pub fn collect_head(head: &mut Vec<u8>, chunk: &Vec<u8>) -> (full: bool)
    requires
        old(head)@.len() <= SNIFF_LEN,
    ensures
        final(head)@ == old(head)@ + chunk@.take(
            if chunk@.len() <= SNIFF_LEN - old(head)@.len() {
                chunk@.len() as int
            } else {
                SNIFF_LEN - old(head)@.len()
            },
        ),
        full == (final(head)@.len() >= SNIFF_LEN),
{
    let room: usize = SNIFF_LEN - head.len();
    let take: usize = if chunk.len() <= room {
        chunk.len()
    } else {
        room
    };
    let ghost before = head@;
    let mut i: usize = 0;
    while i < take
        invariant
            0 <= i <= take <= chunk@.len(),
            head@ == before + chunk@.take(i as int),
        decreases take - i,
    {
        head.push(chunk[i]);
        i = i + 1;
        assert(head@ =~= before + chunk@.take(i as int));
    }
    assert(chunk@.take(0) =~= Seq::empty());
    head.len() >= SNIFF_LEN
}

} // verus!
