//! Configuration of the transport, and the reading of its text values.

use crate::errors::DomainError;
use crate::text::{
    chars_of, find_char, first_index, has_prefix, lemma_first_index, split, starts_with, string_of,
    strip, strip_bounds, CharClass,
};
use crate::trusted::{cookie_header, cookie_value, parse_url_parts, text_of, url_parts};
use vstd::prelude::*;
use vstd::string::StringExecFns;

verus! {

/// Settings of the HTTP transport.
#[derive(Debug)]
pub struct HttpConfig {
    pub username: Option<String>,
    pub password: Option<String>,
    pub max_redirects: Option<usize>,
    pub timeout: usize,
    pub proxy_url: Option<String>,
    pub request_headers: Option<String>,
    pub http_cookies: Option<String>,
    pub http_version: Option<String>,
    pub multipart_part_size: Option<usize>,
}

impl Default for HttpConfig {
    /// No credentials, proxy, headers or cookies; a timeout of sixty
    /// seconds; parts of 256 KiB.
    fn default() -> (c: HttpConfig)
        ensures
            c.username is None,
            c.password is None,
            c.max_redirects is None,
            c.timeout == 60,
            c.proxy_url is None,
            c.request_headers is None,
            c.http_cookies is None,
            c.http_version is None,
            c.multipart_part_size == Some(262_144usize),
    {
        HttpConfig {
            username: None,
            password: None,
            max_redirects: None,
            timeout: 60,
            proxy_url: None,
            request_headers: None,
            http_cookies: None,
            http_version: None,
            multipart_part_size: Some(262_144),
        }
    }
}

/// Settings of the blocking HTTP client.
#[derive(Debug)]
pub struct HttpClientConfig {
    pub username: Option<String>,
    pub password: Option<String>,
    pub max_redirects: Option<usize>,
    pub timeout: Option<u64>,
    pub proxy_url: Option<String>,
    pub request_headers: Option<String>,
    pub http_cookies: Option<String>,
    pub http_version: Option<String>,
}

impl HttpClientConfig {
    pub fn new(
        username: Option<String>,
        password: Option<String>,
        max_redirects: Option<usize>,
        timeout: Option<u64>,
        proxy_url: Option<String>,
        request_headers: Option<String>,
        http_cookies: Option<String>,
        http_version: Option<String>,
    ) -> (c: HttpClientConfig)
        ensures
            c.username == username,
            c.password == password,
            c.max_redirects == max_redirects,
            c.timeout == timeout,
            c.proxy_url == proxy_url,
            c.request_headers == request_headers,
            c.http_cookies == http_cookies,
            c.http_version == http_version,
    {
        HttpClientConfig {
            username,
            password,
            max_redirects,
            timeout,
            proxy_url,
            request_headers,
            http_cookies,
            http_version,
        }
    }

    /// The request timeout in seconds: sixty where none is set.
    pub fn timeout_secs(&self) -> (secs: u64)
        ensures
            secs == match self.timeout {
                Some(t) => t,
                None => 60u64,
            },
    {
        match self.timeout {
            Some(t) => t,
            None => 60,
        }
    }
}

/// Retry settings as they come from the command line.
#[derive(Clone, Copy, Debug, PartialEq, Eq, Structural)]
pub struct RetryArgs {
    pub max_no_retries: usize,
    pub retry_delay_secs: usize,
}

impl RetryArgs {
    pub fn new(max_no_retries: usize, retry_delay_secs: usize) -> (a: RetryArgs)
        ensures
            a.max_no_retries == max_no_retries,
            a.retry_delay_secs == retry_delay_secs,
    {
        RetryArgs { max_no_retries, retry_delay_secs }
    }
}

impl Default for RetryArgs {
    /// Ten retries, ten seconds.
    fn default() -> (a: RetryArgs)
        ensures
            a.max_no_retries == 10,
            a.retry_delay_secs == 10,
    {
        RetryArgs { max_no_retries: 10, retry_delay_secs: 10 }
    }
}

/// Where the engine keeps its own files.
#[derive(Debug)]
pub struct CliantDirConfig {
    pub cache_dir: Option<String>,
}

impl CliantDirConfig {
    pub fn new(cache_dir: Option<String>) -> (c: CliantDirConfig)
        ensures
            c.cache_dir == cache_dir,
    {
        CliantDirConfig { cache_dir }
    }
}

/// The transports that can carry a download.
#[derive(Clone, Copy, Debug, PartialEq, Eq, Structural)]
pub enum TransportType {
    Http,
}

/// Collects what a local file writer needs: the root directory and the path
/// of the file below it.
#[derive(Debug)]
pub struct LocalFsBuilder {
    root_path: Option<String>,
    path: Option<String>,
}

/// What a `LocalFsBuilder` holds.
pub struct LocalFsBuilderView {
    pub root_path: Option<Seq<char>>,
    pub path: Option<Seq<char>>,
}

impl View for LocalFsBuilder {
    type V = LocalFsBuilderView;

    closed spec fn view(&self) -> LocalFsBuilderView {
        LocalFsBuilderView {
            root_path: match self.root_path {
                Some(p) => Some(p@),
                None => None,
            },
            path: match self.path {
                Some(p) => Some(p@),
                None => None,
            },
        }
    }
}

impl LocalFsBuilder {
    /// A builder with nothing set.
    pub fn new() -> (b: LocalFsBuilder)
        ensures
            b@.root_path is None,
            b@.path is None,
    {
        LocalFsBuilder { root_path: None, path: None }
    }

    /// Sets the root directory of all writes.
    pub fn root_path(self, value: String) -> (b: LocalFsBuilder)
        ensures
            b@.root_path == Some(value@),
            b@.path == self@.path,
    {
        let mut b = self;
        b.root_path = Some(value);
        b
    }

    /// Sets the path of the file to write.
    pub fn path(self, value: String) -> (b: LocalFsBuilder)
        ensures
            b@.path == Some(value@),
            b@.root_path == self@.root_path,
    {
        let mut b = self;
        b.path = Some(value);
        b
    }

    /// The root directory and the file path, if both are set. A missing
    /// file path is reported before a missing root.
    pub fn resolve(self) -> (r: Result<(String, String), DomainError>)
        ensures
            match r {
                Ok(pair) => self@.root_path == Some(pair.0@) && self@.path == Some(pair.1@),
                Err(e) => e is ParseError && (self@.path is None || self@.root_path is None),
            },
    {
        let path = match self.path {
            Some(p) => p,
            None => {
                return Err(DomainError::ParseError("Path to file must be provided.".to_owned()));
            },
        };
        let root = match self.root_path {
            Some(p) => p,
            None => {
                return Err(
                    DomainError::ParseError("Root directory must be provided.".to_owned()),
                );
            },
        };
        Ok((root, path))
    }
}

/// The header that one piece of a header list stands for: the piece is
/// trimmed and cut at its first `:`, and both sides are trimmed. A piece
/// without `:` stands for nothing.
pub open spec fn header_pair(piece: Seq<char>) -> Option<(Seq<char>, Seq<char>)> {
    let h = strip(piece, CharClass::Space);
    let i = first_index(h, ':');
    if i < h.len() {
        Some((strip(h.take(i), CharClass::Space), strip(h.skip(i + 1), CharClass::Space)))
    } else {
        None
    }
}

/// The headers that a comma-separated list of `name:value` pairs stands for.
pub open spec fn header_pairs(text: Seq<char>) -> Seq<(Seq<char>, Seq<char>)> {
    split(text, ',').filter_map(|piece: Seq<char>| header_pair(piece))
}

/// The characters of a list of text pairs.
pub open spec fn pair_texts(pairs: Seq<(String, String)>) -> Seq<(Seq<char>, Seq<char>)> {
    pairs.map_values(|p: (String, String)| (p.0@, p.1@))
}

proof fn lemma_filter_map_prepend<A, B>(x: A, rest: Seq<A>, f: spec_fn(A) -> Option<B>)
    ensures
        (seq![x] + rest).filter_map(f) =~= (match f(x) {
            Some(b) => seq![b],
            None => Seq::empty(),
        }) + rest.filter_map(f),
    decreases rest.len(),
{
    if rest.len() == 0 {
        assert(seq![x] + rest =~= seq![x]);
        Seq::lemma_filter_map_singleton(x, f);
    } else {
        let all = seq![x] + rest;
        assert(all.drop_last() =~= seq![x] + rest.drop_last());
        assert(all.last() == rest.last());
        lemma_filter_map_prepend(x, rest.drop_last(), f);
    }
}

/// Reads a comma-separated list of `name:value` pairs.
pub fn parse_request_headers(text: &str) -> (pairs: Vec<(String, String)>)
    ensures
        pair_texts(pairs@) == header_pairs(text@),
{
    let v = chars_of(text);
    let n = v.len();
    let ghost f = |piece: Seq<char>| header_pair(piece);
    let mut pairs: Vec<(String, String)> = Vec::new();
    let mut start: usize = 0;
    let mut done: bool = false;
    assert(v@.skip(0) =~= v@);
    assert(pair_texts(pairs@) =~= Seq::empty());
    while !done
        invariant
            0 <= start <= n,
            n == v@.len(),
            text@ == v@,
            f == |piece: Seq<char>| header_pair(piece),
            !done ==> pair_texts(pairs@) + split(v@.skip(start as int), ',').filter_map(f)
                == header_pairs(v@),
            done ==> pair_texts(pairs@) == header_pairs(v@),
        decreases n - start, if done { 0int } else { 1int },
    {
        let ghost s = v@.skip(start as int);
        let ghost before = pair_texts(pairs@);
        let at = find_char(&v, start, n, ',');
        let end: usize = start + at;
        let ghost piece = v@.subrange(start as int, end as int);
        let (a, b) = strip_bounds(&v, start, end, CharClass::Space);
        let colon = find_char(&v, a, b, ':');
        let ghost h = v@.subrange(a as int, b as int);
        proof {
            assert(v@.subrange(start as int, n as int) =~= s);
            lemma_first_index(s, ',');
            assert(s.take(at as int) =~= piece);
            if at as int >= s.len() {
                assert(s.take(at as int) =~= s);
            }
            assert(h == strip(piece, CharClass::Space));
        }
        if colon < b - a {
            let (na, nb) = strip_bounds(&v, a, a + colon, CharClass::Space);
            let (va, vb) = strip_bounds(&v, a + colon + 1, b, CharClass::Space);
            let name = string_of(&v, na, nb);
            let value = string_of(&v, va, vb);
            proof {
                assert(h.take(colon as int) =~= v@.subrange(a as int, a + colon));
                assert(h.skip(colon + 1) =~= v@.subrange(a + colon + 1, b as int));
                assert(header_pair(piece) == Some((name@, value@)));
            }
            pairs.push((name, value));
            assert(pair_texts(pairs@) =~= before + seq![(name@, value@)]);
        } else {
            assert(header_pair(piece) is None);
        }
        proof {
            if end < n {
                let rest = v@.skip(end + 1);
                assert(s.skip(at + 1) =~= rest);
                lemma_filter_map_prepend(piece, split(rest, ','), f);
                assert(split(s, ',') == seq![piece] + split(rest, ','));
            } else {
                assert(split(s, ',') == seq![piece]);
                Seq::lemma_filter_map_singleton(piece, f);
            }
        }
        if end < n {
            start = end + 1;
        } else {
            done = true;
        }
    }
    pairs
}

/// The HTTP version that is spoken, as text: major version one, minor
/// version one.
pub open spec fn spoken_version() -> Seq<char> {
    seq!['1', '.', '1']
}

/// Whether a requested HTTP version is not the one that is spoken. Any other
/// request falls back to the spoken version.
pub fn http_version_unsupported(requested: &Option<String>) -> (warn: bool)
    ensures
        warn == match *requested {
            Some(v) => v@ != spoken_version(),
            None => false,
        },
{
    match requested {
        Some(v) => {
            let c = chars_of(v.as_str());
            let same = c.len() == 3 && c[0] == '1' && c[1] == '.' && c[2] == '1';
            assert(same == (c@ =~= spoken_version()));
            !same
        },
        None => false,
    }
}

/// `url` with `https://` in front, unless it names the scheme `http` or
/// `https` itself.
pub open spec fn with_scheme(url: Seq<char>) -> Seq<char> {
    if has_prefix(url, "https://"@) || has_prefix(url, "http://"@) {
        url
    } else {
        "https://"@ + url
    }
}

/// Reads a URL from the command line: gives it a scheme where it has none
/// and parses it. The result is the URL in its serialized form.
pub fn parse_url(url: &str) -> (r: Result<String, DomainError>)
    ensures
        match r {
            Ok(parsed) => match url_parts(with_scheme(url@)) {
                Some(parts) => parsed@ == parts.0,
                None => false,
            },
            Err(e) => e is ValidateError && url_parts(with_scheme(url@)) is None,
        },
{
    let v = chars_of(url);
    let secure = chars_of("https://");
    let plain = chars_of("http://");
    assert(v@.subrange(0, v@.len() as int) =~= v@);
    let full = if starts_with(&v, 0, v.len(), &secure) || starts_with(&v, 0, v.len(), &plain) {
        string_of(&v, 0, v.len())
    } else {
        let mut full = "https://".to_owned();
        full.append(url);
        full
    };
    match parse_url_parts(full.as_str()) {
        Some(parts) => Ok(parts.0),
        None => Err(DomainError::ValidateError("Invalid Url".to_owned())),
    }
}

/// Reads a cookie string and writes it out as the value of a `Cookie`
/// header. A string that is no cookie gives no header.
pub fn cookie_header_value(cookies: &str) -> (value: Option<String>)
    ensures
        text_of(value) == cookie_value(cookies@),
{
    cookie_header(cookies)
}

} // verus!
