//! The records that the engine hands around: what a server said of a
//! download, what lies on disk, and how a download ended.

use crate::headers::{
    content_length_of, disposition_name, parse_content_disposition, parse_content_length,
};
use crate::name::{decimal, decimal_text};
use crate::trusted::text_of;
use vstd::prelude::*;
use vstd::string::StringExecFns;

verus! {

/// A copy of an optional text.
pub fn clone_text(text: &Option<String>) -> (copy: Option<String>)
    ensures
        text_of(copy) == text_of(*text),
{
    match text {
        Some(t) => Some(t.clone()),
        None => None,
    }
}

/// What a `FileInfo` holds.
pub struct FileInfoView {
    pub path: Seq<char>,
    pub file_size: int,
    pub file_name: Seq<char>,
}

/// A file on a file system: its absolute path, its size in bytes and its
/// name.
#[derive(Debug)]
pub struct FileInfo {
    path: String,
    file_size: usize,
    file_name: String,
}

impl View for FileInfo {
    type V = FileInfoView;

    closed spec fn view(&self) -> FileInfoView {
        FileInfoView {
            path: self.path@,
            file_size: self.file_size as int,
            file_name: self.file_name@,
        }
    }
}

impl FileInfo {
    pub fn new(path: String, size: usize, name: String) -> (info: FileInfo)
        ensures
            info@.path == path@,
            info@.file_size == size,
            info@.file_name == name@,
    {
        FileInfo { path, file_size: size, file_name: name }
    }

    pub fn path(&self) -> (path: &String)
        ensures
            path@ == self@.path,
    {
        &self.path
    }

    pub fn file_size(&self) -> (size: usize)
        ensures
            size == self@.file_size,
    {
        self.file_size
    }

    pub fn file_name(&self) -> (name: &String)
        ensures
            name@ == self@.file_name,
    {
        &self.file_name
    }
}

/// What a `DownloadInfo` holds.
pub struct DownloadInfoView {
    pub url: Seq<char>,
    pub name: Option<Seq<char>>,
    pub size: Option<usize>,
    pub download_date: Seq<char>,
    pub download_type: Option<Seq<char>>,
}

/// What a server reported of a URL. The size, where there is one, is
/// greater than zero.
#[derive(Debug)]
pub struct DownloadInfo {
    url: String,
    name: Option<String>,
    size: Option<usize>,
    download_date: String,
    download_type: Option<String>,
}

impl View for DownloadInfo {
    type V = DownloadInfoView;

    closed spec fn view(&self) -> DownloadInfoView {
        DownloadInfoView {
            url: self.url@,
            name: text_of(self.name),
            size: self.size,
            download_date: self.download_date@,
            download_type: text_of(self.download_type),
        }
    }
}

/// A size as a `DownloadInfo` keeps it: a size of zero counts as unknown.
pub open spec fn known_size(size: Option<usize>) -> Option<usize> {
    match size {
        Some(n) => if n > 0 {
            Some(n)
        } else {
            None
        },
        None => None,
    }
}

impl DownloadInfo {
    /// The record's invariant.
    pub open spec fn wf(&self) -> bool {
        self@.size != Some(0usize)
    }

    pub fn new(
        url: String,
        name: Option<String>,
        size: Option<usize>,
        download_date: String,
        download_type: Option<String>,
    ) -> (info: DownloadInfo)
        ensures
            info.wf(),
            info@.url == url@,
            info@.name == text_of(name),
            info@.size == known_size(size),
            info@.download_date == download_date@,
            info@.download_type == text_of(download_type),
    {
        let size = match size {
            Some(n) => if n > 0 {
                Some(n)
            } else {
                None
            },
            None => None,
        };
        DownloadInfo { url, name, size, download_date, download_type }
    }

    /// Builds the record from the headers of a metadata response: the name
    /// from `Content-Disposition`, the size from `Content-Length`, and the
    /// kind from `Content-Type`. A header that is missing or cannot be read
    /// leaves its field empty.
    pub fn from_headers(
        url: String,
        content_disposition: Option<String>,
        content_length: Option<String>,
        content_type: Option<String>,
        fetched_at: String,
    ) -> (info: DownloadInfo)
        ensures
            info.wf(),
            info@.url == url@,
            info@.name == match content_disposition {
                Some(header) => disposition_name(header@),
                None => None,
            },
            info@.size == match content_length {
                Some(header) => known_size(content_length_of(header@)),
                None => None,
            },
            info@.download_date == fetched_at@,
            info@.download_type == text_of(content_type),
    {
        let name = match content_disposition {
            Some(header) => parse_content_disposition(header.as_str()),
            None => None,
        };
        let size = match content_length {
            Some(header) => parse_content_length(header.as_str()),
            None => None,
        };
        DownloadInfo::new(url, name, size, fetched_at, content_type)
    }

    pub fn url(&self) -> (url: &String)
        ensures
            url@ == self@.url,
    {
        &self.url
    }

    pub fn name(&self) -> (name: &Option<String>)
        ensures
            text_of(*name) == self@.name,
    {
        &self.name
    }

    pub fn size(&self) -> (size: Option<usize>)
        ensures
            size == self@.size,
    {
        self.size
    }

    pub fn download_date(&self) -> (date: &String)
        ensures
            date@ == self@.download_date,
    {
        &self.download_date
    }

    pub fn download_type(&self) -> (kind: &Option<String>)
        ensures
            text_of(*kind) == self@.download_type,
    {
        &self.download_type
    }
}

/// What a `DownloadPart` holds.
pub struct DownloadPartView {
    pub path: Seq<char>,
    pub size: int,
}

/// One part of a download on disk.
#[derive(Debug)]
pub struct DownloadPart {
    path: String,
    size: usize,
}

impl View for DownloadPart {
    type V = DownloadPartView;

    closed spec fn view(&self) -> DownloadPartView {
        DownloadPartView { path: self.path@, size: self.size as int }
    }
}

impl DownloadPart {
    pub fn new(path: String, size: usize) -> (part: DownloadPart)
        ensures
            part@.path == path@,
            part@.size == size,
    {
        DownloadPart { path, size }
    }

    pub fn size(&self) -> (size: usize)
        ensures
            size == self@.size,
    {
        self.size
    }

    pub fn path(&self) -> (path: &String)
        ensures
            path@ == self@.path,
    {
        &self.path
    }
}

/// How a download ended.
#[derive(Debug)]
pub enum DownloadStatus {
    Success,
    Error(String),
}

/// The text that reports a status: `SUCCESS`, or `ERROR:` and the message.
pub open spec fn status_text(status: DownloadStatus) -> Seq<char> {
    match status {
        DownloadStatus::Success => "SUCCESS"@,
        DownloadStatus::Error(msg) => "ERROR"@ + seq![':'] + msg@,
    }
}

/// What a `DownloadResponse` holds.
pub struct DownloadResponseView {
    pub download_info: Option<DownloadInfoView>,
    pub path: Seq<char>,
    pub status: DownloadStatus,
}

/// The outcome of one download.
#[derive(Debug)]
pub struct DownloadResponse {
    download_info: Option<DownloadInfo>,
    path: String,
    status: DownloadStatus,
}

impl View for DownloadResponse {
    type V = DownloadResponseView;

    closed spec fn view(&self) -> DownloadResponseView {
        DownloadResponseView {
            download_info: match self.download_info {
                Some(info) => Some(info@),
                None => None,
            },
            path: self.path@,
            status: self.status,
        }
    }
}

impl DownloadResponse {
    pub fn new(download_info: Option<DownloadInfo>, path: String, status: DownloadStatus) -> (r:
        DownloadResponse)
        ensures
            r@.download_info == match download_info {
                Some(info) => Some(info@),
                None => None,
            },
            r@.path == path@,
            r@.status == status,
    {
        DownloadResponse { download_info, path, status }
    }

    /// Where the download was written.
    pub fn path(&self) -> (path: &String)
        ensures
            path@ == self@.path,
    {
        &self.path
    }

    /// The size in decimal, or the empty text where it is not known.
    pub fn size(&self) -> (text: String)
        ensures
            text@ == match self@.download_info {
                Some(info) => match info.size {
                    Some(n) => decimal(n as nat),
                    None => Seq::empty(),
                },
                None => Seq::empty(),
            },
    {
        match &self.download_info {
            Some(info) => match info.size() {
                Some(n) => decimal_text(n as u64),
                None => String::new(),
            },
            None => String::new(),
        }
    }

    /// The name that the server gave, if any.
    pub fn name(&self) -> (name: Option<String>)
        ensures
            text_of(name) == match self@.download_info {
                Some(info) => info.name,
                None => None,
            },
    {
        match &self.download_info {
            Some(info) => clone_text(info.name()),
            None => None,
        }
    }

    /// The URL, if the server was reached.
    pub fn url(&self) -> (url: Option<&String>)
        ensures
            match url {
                Some(u) => self@.download_info is Some && u@ == self@.download_info->0.url,
                None => self@.download_info is None,
            },
    {
        match &self.download_info {
            Some(info) => Some(info.url()),
            None => None,
        }
    }

    /// When the server was asked, if it was reached.
    pub fn download_date(&self) -> (date: Option<String>)
        ensures
            text_of(date) == match self@.download_info {
                Some(info) => Some(info.download_date),
                None => None,
            },
    {
        match &self.download_info {
            Some(info) => Some(info.download_date().clone()),
            None => None,
        }
    }

    /// The status as text.
    pub fn status(&self) -> (text: String)
        ensures
            text@ == status_text(self@.status),
    {
        match &self.status {
            DownloadStatus::Success => "SUCCESS".to_owned(),
            DownloadStatus::Error(msg) => {
                let mut text = "ERROR".to_owned();
                text.push(':');
                text.append(msg.as_str());
                assert(text@ =~= "ERROR"@ + seq![':'] + msg@);
                text
            },
        }
    }
}

} // verus!
