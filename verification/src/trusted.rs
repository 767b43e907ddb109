//! The calls this library makes into other crates. Each function here states
//! what is taken on trust about the function it calls.

use std::fmt::Write;
use vstd::prelude::*;

verus! {

/// What `fancy_regex` captures in group `group` of the first match of
/// `pattern` in `text`: `None` where the pattern does not compile, the search
/// fails or finds nothing, or the group took no part in the match.
pub uninterp spec fn regex_capture(pattern: Seq<char>, text: Seq<char>, group: nat) -> Option<
    Seq<char>,
>;

/// What percent-decoding makes of `text`, with bytes that are not UTF-8
/// replaced by U+FFFD.
pub uninterp spec fn percent_decoded(text: Seq<char>) -> Seq<char>;

/// The serialization and the path of the URL that `text` parses to, or `None`
/// where `text` is no absolute URL.
pub uninterp spec fn url_parts(text: Seq<char>) -> Option<(Seq<char>, Seq<char>)>;

/// The file extension that the magic numbers at the start of `buf` stand
/// for, if they are known.
pub uninterp spec fn sniffed_extension(buf: Seq<u8>) -> Option<Seq<char>>;

/// The file name that `sanitize_filename` makes of `name` under the given
/// options.
pub uninterp spec fn sanitized(
    name: Seq<char>,
    windows: bool,
    truncate: bool,
    replacement: Seq<char>,
) -> Seq<char>;

/// The characters of an optional text.
pub open spec fn text_of(s: Option<String>) -> Option<Seq<char>> {
    match s {
        Some(s) => Some(s@),
        None => None,
    }
}

/// Calls `chrono::Local::now` and renders the instant with `to_rfc3339`.
/// Nothing is claimed of the text: it depends on the clock and on the time
/// zone of the machine.
#[verifier::external_body]
pub(crate) fn local_now_text() -> (text: String) {
    chrono::Local::now().to_rfc3339()
}

/// Compiles `pattern` with `fancy_regex::Regex::new`, searches `text` with
/// `Regex::captures` and takes group `group` with `Captures::get`. The
/// result is claimed to depend on the three arguments alone. `Captures::get`
/// doubles the group number before it looks the group up, so only small
/// group numbers are let in.
#[verifier::external_body]
pub(crate) fn regex_group(pattern: &str, text: &str, group: usize) -> (r: Option<String>)
    requires
        group < 0x4000_0000,
    ensures
        text_of(r) == regex_capture(pattern@, text@, group as nat),
{
    match fancy_regex::Regex::new(pattern) {
        Ok(re) => match re.captures(text) {
            Ok(Some(found)) => found.get(group).map(|m| m.as_str().to_string()),
            _ => None,
        },
        Err(_) => None,
    }
}

/// Calls `percent_encoding::percent_decode_str` and `decode_utf8_lossy` on
/// its result. Only `%` followed by two hexadecimal digits is decoded, so a
/// text without `%` comes back as it is.
#[verifier::external_body]
pub(crate) fn percent_decode_lossy(text: &str) -> (r: String)
    ensures
        r@ == percent_decoded(text@),
        !text@.contains('%') ==> r@ == text@,
{
    percent_encoding::percent_decode_str(text).decode_utf8_lossy().into_owned()
}

/// Parses `text` with `url::Url::parse` and hands out what `Url::as_str` and
/// `Url::path` return. The result is claimed to depend on `text` alone.
#[verifier::external_body]
pub(crate) fn parse_url_parts(text: &str) -> (r: Option<(String, String)>)
    ensures
        match r {
            Some(parts) => url_parts(text@) == Some((parts.0@, parts.1@)),
            None => url_parts(text@) is None,
        },
{
    match url::Url::parse(text) {
        Ok(parsed) => Some((parsed.as_str().to_string(), parsed.path().to_string())),
        Err(_) => None,
    }
}

/// The number that the bytes `buf[at..at + 4]` write, lowest byte first.
pub open spec fn le32(buf: Seq<u8>, at: int) -> int {
    buf[at] + buf[at + 1] * 0x100 + buf[at + 2] * 0x1_0000 + buf[at + 3] * 0x100_0000
}

/// Whether a buffer starts like a skippable frame of a compressed stream:
/// one of the sixteen magic numbers `50 2A 4D 18` to `5F 2A 4D 18`, and a
/// length.
pub open spec fn skippable_frame(buf: Seq<u8>) -> bool {
    buf.len() >= 8 && buf[0] / 16 == 5 && buf[1] == 0x2a && buf[2] == 0x4d && buf[3] == 0x18
}

/// Whether `buf` can be handed to the sniffer. The sniffer adds to lengths
/// that it reads from the buffer, and the sums have to fit the machine:
/// - for a buffer that starts like a zip archive, the length in bytes 18 to
///   21 and what is added to it;
/// - for a buffer that starts like a skippable frame, the length in bytes 4
///   to 7 and the eight bytes of the frame's head, which is so on every
///   machine whose `usize` holds more than 32 bits. On other machines such a
///   buffer is not handed over.
pub open spec fn sniffable(buf: Seq<u8>) -> bool {
    &&& (buf.len() >= 22 && buf[0] == 0x50 && buf[1] == 0x4b && buf[2] == 0x03 && buf[3] == 0x04)
        ==> le32(buf, 18) + 25_000 <= usize::MAX
    &&& skippable_frame(buf) ==> usize::MAX >= 0x1_0000_0007
}

/// Calls `infer::get` and takes `Type::extension` of what it finds. The
/// result is claimed to depend on the bytes alone. Buffers on which the
/// Office matcher or the frame matchers of `infer` would add past the
/// largest `usize` are kept out.
#[verifier::external_body]
pub(crate) fn sniff_extension(buf: &Vec<u8>) -> (r: Option<String>)
    requires
        sniffable(buf@),
    ensures
        text_of(r) == sniffed_extension(buf@),
{
    infer::get(buf.as_slice()).map(|kind| kind.extension().to_string())
}

/// Calls `rand::random::<u32>`. Nothing is claimed of the number.
#[verifier::external_body]
pub(crate) fn random_u32() -> (n: u32) {
    rand::random::<u32>()
}

/// A character that `sanitize_filename` never lets through: a path
/// separator, a wildcard, a quote, a colon, or a control character.
pub open spec fn unsafe_char(c: char) -> bool {
    let n = c as u32;
    ||| c == '/'
    ||| c == '?'
    ||| c == '<'
    ||| c == '>'
    ||| c == '\\'
    ||| c == ':'
    ||| c == '*'
    ||| c == '|'
    ||| c == '"'
    ||| n <= 0x1f
    ||| 0x80 <= n <= 0x9f
}

/// Calls `sanitize_filename::sanitize_with_options` with the options given.
/// The result is claimed to depend on the four arguments alone. The function
/// first replaces every unsafe character by `replacement` and after that
/// only deletes, so with an empty replacement none is left.
#[verifier::external_body]
pub(crate) fn sanitize_name(name: &str, windows: bool, truncate: bool, replacement: &str) -> (r:
    String)
    ensures
        r@ == sanitized(name@, windows, truncate, replacement@),
        replacement@.len() == 0 ==> forall|i: int| 0 <= i < r@.len() ==> !unsafe_char(r@[i]),
{
    sanitize_filename::sanitize_with_options(
        name,
        sanitize_filename::Options { windows, truncate, replacement },
    )
}

} // verus!

verus! {

/// The `Cookie` header value that the `cookie` crate makes of a cookie
/// string: `None` where the string does not parse or cannot be written out.
pub uninterp spec fn cookie_value(text: Seq<char>) -> Option<Seq<char>>;

/// Parses `text` with `cookie::Cookie::parse` and writes the cookie out with
/// its `Display` impl. The result is claimed to depend on `text` alone.
#[verifier::external_body]
pub(crate) fn cookie_header(text: &str) -> (r: Option<String>)
    ensures
        text_of(r) == cookie_value(text@),
{
    match cookie::Cookie::parse(text.to_string()) {
        Ok(parsed) => {
            let mut out = String::new();
            match write!(out, "{}", parsed) {
                Ok(()) => Some(out),
                Err(_) => None,
            }
        },
        Err(_) => None,
    }
}

} // verus!

verus! {

/// What the `regex` crate captures in group `group` of the first match of
/// `pattern` in `text`: `None` where the pattern does not compile, nothing
/// matches, or the group took no part in the match.
pub uninterp spec fn plain_regex_capture(pattern: Seq<char>, text: Seq<char>, group: nat) -> Option<
    Seq<char>,
>;

/// Compiles `pattern` with `regex::Regex::new`, searches `text` with
/// `Regex::captures` and takes group `group` with `Captures::get`. The
/// result is claimed to depend on the three arguments alone.
#[verifier::external_body]
pub(crate) fn plain_regex_group(pattern: &str, text: &str, group: usize) -> (r: Option<String>)
    ensures
        text_of(r) == plain_regex_capture(pattern@, text@, group as nat),
{
    match regex::Regex::new(pattern) {
        Ok(re) => match re.captures(text) {
            Some(found) => found.get(group).map(|m| m.as_str().to_string()),
            None => None,
        },
        Err(_) => None,
    }
}

} // verus!
