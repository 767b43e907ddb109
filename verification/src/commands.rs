//! Commands and the records that answer them.

use crate::trusted::local_now_text;
use vstd::prelude::*;

verus! {

/// What a `MultiPartCommand` holds.
pub struct MultiPartCommandView {
    pub url: Seq<char>,
    pub path: Seq<char>,
    pub max_no_frames: usize,
    pub min_frame_size_mb: usize,
    pub timestamp: Seq<char>,
}

/// The order to download a URL in parts to a path.
#[derive(Debug)]
pub struct MultiPartCommand {
    url: String,
    path: String,
    max_no_frames: usize,
    min_frame_size_mb: usize,
    timestamp: String,
}

impl View for MultiPartCommand {
    type V = MultiPartCommandView;

    closed spec fn view(&self) -> MultiPartCommandView {
        MultiPartCommandView {
            url: self.url@,
            path: self.path@,
            max_no_frames: self.max_no_frames,
            min_frame_size_mb: self.min_frame_size_mb,
            timestamp: self.timestamp@,
        }
    }
}

impl MultiPartCommand {
    /// A command issued now.
    pub fn new(url: String, path: String, max_no_frames: usize, min_frame_size_mb: usize) -> (c:
        MultiPartCommand)
        ensures
            c@.url == url@,
            c@.path == path@,
            c@.max_no_frames == max_no_frames,
            c@.min_frame_size_mb == min_frame_size_mb,
    {
        MultiPartCommand::issued_at(url, path, max_no_frames, min_frame_size_mb, local_now_text())
    }

    /// A command issued at `timestamp`.
    pub fn issued_at(
        url: String,
        path: String,
        max_no_frames: usize,
        min_frame_size_mb: usize,
        timestamp: String,
    ) -> (c: MultiPartCommand)
        ensures
            c@.url == url@,
            c@.path == path@,
            c@.max_no_frames == max_no_frames,
            c@.min_frame_size_mb == min_frame_size_mb,
            c@.timestamp == timestamp@,
    {
        MultiPartCommand { url, path, max_no_frames, min_frame_size_mb, timestamp }
    }

    pub fn url(&self) -> (url: &String)
        ensures
            url@ == self@.url,
    {
        &self.url
    }

    pub fn frames_no(&self) -> (n: usize)
        ensures
            n == self@.max_no_frames,
    {
        self.max_no_frames
    }

    pub fn frame_size(&self) -> (n: usize)
        ensures
            n == self@.min_frame_size_mb,
    {
        self.min_frame_size_mb
    }

    pub fn path(&self) -> (path: &String)
        ensures
            path@ == self@.path,
    {
        &self.path
    }

    pub fn command_timestamp(&self) -> (timestamp: &String)
        ensures
            timestamp@ == self@.timestamp,
    {
        &self.timestamp
    }
}

/// What a `DeleteFile` holds.
pub struct DeleteFileView {
    pub file_path: Seq<char>,
    pub timestamp: Seq<char>,
}

/// The order to delete a file.
#[derive(Debug)]
pub struct DeleteFile {
    file_path: String,
    timestamp: String,
}

impl View for DeleteFile {
    type V = DeleteFileView;

    closed spec fn view(&self) -> DeleteFileView {
        DeleteFileView { file_path: self.file_path@, timestamp: self.timestamp@ }
    }
}

impl DeleteFile {
    /// A command issued now.
    pub fn new(path: String) -> (c: DeleteFile)
        ensures
            c@.file_path == path@,
    {
        DeleteFile { file_path: path, timestamp: local_now_text() }
    }

    pub fn file_path(&self) -> (path: &String)
        ensures
            path@ == self@.file_path,
    {
        &self.file_path
    }

    pub fn timestamp(&self) -> (timestamp: &String)
        ensures
            timestamp@ == self@.timestamp,
    {
        &self.timestamp
    }
}

/// What a `MoveFile` holds.
pub struct MoveFileView {
    pub src: Seq<char>,
    pub dst: Seq<char>,
    pub timestamp: Seq<char>,
}

/// The order to move a file.
#[derive(Debug)]
pub struct MoveFile {
    src: String,
    dst: String,
    timestamp: String,
}

impl View for MoveFile {
    type V = MoveFileView;

    closed spec fn view(&self) -> MoveFileView {
        MoveFileView { src: self.src@, dst: self.dst@, timestamp: self.timestamp@ }
    }
}

impl MoveFile {
    /// A command issued now.
    pub fn new(src: String, dst: String) -> (c: MoveFile)
        ensures
            c@.src == src@,
            c@.dst == dst@,
    {
        MoveFile { src, dst, timestamp: local_now_text() }
    }

    pub fn src_path(&self) -> (path: &String)
        ensures
            path@ == self@.src,
    {
        &self.src
    }

    pub fn dst_path(&self) -> (path: &String)
        ensures
            path@ == self@.dst,
    {
        &self.dst
    }

    pub fn timestamp(&self) -> (timestamp: &String)
        ensures
            timestamp@ == self@.timestamp,
    {
        &self.timestamp
    }
}

/// The answer to a `MoveFile`.
#[derive(Debug)]
pub struct FileMoveResponse {
    pub src: String,
    pub dst: String,
    pub file_size: usize,
    pub file_name: String,
    pub timestamp: String,
}

impl FileMoveResponse {
    pub fn new(src: String, dst: String, file_size: usize, file_name: String, timestamp: String) -> (r:
        FileMoveResponse)
        ensures
            r.src == src,
            r.dst == dst,
            r.file_size == file_size,
            r.file_name == file_name,
            r.timestamp == timestamp,
    {
        FileMoveResponse { src, dst, file_size, file_name, timestamp }
    }
}

/// The answer to a `DeleteFile`.
#[derive(Debug)]
pub struct FileDeleteResponse {
    pub file_path: String,
    pub file_size: usize,
    pub file_name: String,
    pub timestamp: String,
}

impl FileDeleteResponse {
    pub fn new(file_path: String, file_size: usize, file_name: String, timestamp: String) -> (r:
        FileDeleteResponse)
        ensures
            r.file_path == file_path,
            r.file_size == file_size,
            r.file_name == file_name,
            r.timestamp == timestamp,
    {
        FileDeleteResponse { file_path, file_size, file_name, timestamp }
    }
}

} // verus!
