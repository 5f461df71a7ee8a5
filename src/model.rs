use vstd::prelude::*;

use crate::path::{
    file_in, file_path_in, parent_of, parent_segs, parent_segments, rooted_at, from_first, join,
    segments, lemma_full_path_keeps_path,
};
use crate::locator::{file_name_of, url_file_name};

verus! {

/// Everything that can go wrong while cloning a subdirectory.
#[derive(Debug, Clone, Copy, PartialEq, Eq, Structural)]
pub enum CloneError {
    InvalidUrl,
    MissingPathSegment,
    ApiRequestFailed,
    ResponsePayloadInvalid,
    InvalidApiResponse,
    UnknownEntryType,
    DownloadFailed,
    FileSystemFailed,
}

/// Where the files found under the cloned directory are placed locally.
#[derive(Debug, Clone, Copy, PartialEq, Eq, Structural)]
pub enum Mode {
    /// Keep each file's repository-relative directory.
    FullPath,
    /// Root the local tree at the first segment named like the cloned directory.
    CurrentDirOnly,
}

/// One element of a directory listing, with its fields as the API gave them.
#[derive(Debug, Clone)]
pub struct RawEntry {
    pub entry_type: Option<String>,
    pub name: Option<String>,
    pub path: Option<String>,
    pub url: Option<String>,
    pub download_url: Option<String>,
}

/// The single-object answer that the API gives for a path naming one file.
#[derive(Debug, Clone)]
pub struct InlineFilePayload {
    pub entry_type: Option<String>,
    pub name: Option<String>,
    pub encoding: Option<String>,
    pub content: Option<String>,
}

/// A listing answer, by shape.
#[derive(Debug, Clone)]
pub enum Payload {
    Entries(Vec<RawEntry>),
    Single(InlineFilePayload),
    Other,
}

/// A listing element once its kind is known.
#[derive(Debug, Clone)]
pub enum ContentEntry {
    Directory { dir_path: Option<String>, listing_url: String },
    File { path: String, download_url: String },
}

/// Where the bytes of a file come from.
#[derive(Debug, Clone)]
pub enum Source {
    Url(String),
    InlineBytes(Vec<u8>),
}

/// A file to write: its local directory, its name there and its bytes' source.
#[derive(Debug, Clone)]
pub struct DownloadTarget {
    pub local_directory: String,
    pub file_name: String,
    pub source: Source,
}

/// The view of an optional string.
pub open spec fn opt_view(o: Option<String>) -> Option<Seq<char>> {
    match o {
        Some(s) => Some(s@),
        None => None,
    }
}

/// Whether an optional field holds exactly the text `t`.
pub open spec fn holds_text(o: Option<String>, t: Seq<char>) -> bool {
    o is Some && o->Some_0@ == t
}

/// What a listing element is, or why it is refused.
pub open spec fn classified(e: RawEntry) -> Result<ContentEntry, CloneError> {
    if holds_text(e.entry_type, "dir"@) {
        match e.url {
            Some(u) => Ok(ContentEntry::Directory { dir_path: e.path, listing_url: u }),
            None => Err(CloneError::ResponsePayloadInvalid),
        }
    } else if holds_text(e.entry_type, "file"@) {
        match (e.path, e.download_url) {
            (Some(p), Some(d)) => Ok(ContentEntry::File { path: p, download_url: d }),
            _ => Err(CloneError::ResponsePayloadInvalid),
        }
    } else {
        Err(CloneError::UnknownEntryType)
    }
}

/// Whether two texts are the same.
pub fn same_text(a: &str, b: &str) -> (r: bool)
    ensures
        r == (a@ == b@),
{
    let x = a.to_owned();
    let y = b.to_owned();
    x == y
}

/// Whether an optional field holds exactly the text `t`.
pub fn field_is(o: &Option<String>, t: &str) -> (r: bool)
    ensures
        r == holds_text(*o, t@),
{
    match o {
        Some(s) => same_text(s.as_str(), t),
        None => false,
    }
}

/// Tells a listing element's kind from its `type` field and checks that the fields that
/// kind needs are there.
pub fn classify(e: RawEntry) -> (r: Result<ContentEntry, CloneError>)
    ensures
        r == classified(e),
{
    proof {
        reveal_strlit("dir");
        reveal_strlit("file");
    }
    if field_is(&e.entry_type, "dir") {
        match e.url {
            Some(u) => Ok(ContentEntry::Directory { dir_path: e.path, listing_url: u }),
            None => Err(CloneError::ResponsePayloadInvalid),
        }
    } else if field_is(&e.entry_type, "file") {
        match (e.path, e.download_url) {
            (Some(p), Some(d)) => Ok(ContentEntry::File { path: p, download_url: d }),
            _ => Err(CloneError::ResponsePayloadInvalid),
        }
    } else {
        Err(CloneError::UnknownEntryType)
    }
}

/// The local directory of a file found at `file_path`.
pub open spec fn resolved_dir(file_path: Seq<char>, target: Seq<char>, mode: Mode) -> Seq<char> {
    match mode {
        Mode::FullPath => parent_of(file_path),
        Mode::CurrentDirOnly => join(from_first(parent_segs(file_path), target)),
    }
}

/// Computes the local directory of a file found at `file_path`: its own directory in
/// full-path mode; in current-directory mode that directory re-rooted at its first segment
/// equal to `target` (kept whole when there is none).
pub fn resolve(file_path: &str, target: &str, mode: Mode) -> (r: String)
    ensures
        r@ == resolved_dir(file_path@, target@, mode),
{
    let segs = parent_segments(file_path);
    match mode {
        Mode::FullPath => {
            assert(crate::path::views(segs@).skip(0) == crate::path::views(segs@));
            crate::path::join_from(&segs, 0)
        },
        Mode::CurrentDirOnly => rooted_at(&segs, target),
    }
}

impl DownloadTarget {
    /// The path at which the file is written.
    pub open spec fn local_path(&self) -> Seq<char> {
        file_in(self.local_directory@, self.file_name@)
    }

    /// The path at which the file is written: its name inside its local directory.
    pub fn local_file_path(&self) -> (r: String)
        ensures
            r@ == self.local_path(),
    {
        file_path_in(self.local_directory.as_str(), self.file_name.as_str())
    }
}

/// The target of a file listed at `path` and fetched from `download_url`.
pub open spec fn file_target_spec(
    path: Seq<char>,
    download_url: Seq<char>,
    target: Seq<char>,
    mode: Mode,
    t: DownloadTarget,
) -> bool {
    &&& t.local_directory@ == resolved_dir(path, target, mode)
    &&& t.file_name@ == file_name_of(download_url)
    &&& t.source is Url
    &&& t.source->Url_0@ == download_url
}

/// Builds the target of a file listed at `path` and fetched from `download_url`: the
/// resolved directory, and the last path segment of the download URL as its name.
pub fn file_target(path: &str, download_url: String, target: &str, mode: Mode) -> (r:
    DownloadTarget)
    ensures
        file_target_spec(path@, download_url@, target@, mode, r),
{
    let local_directory = resolve(path, target, mode);
    let file_name = url_file_name(download_url.as_str());
    DownloadTarget { local_directory, file_name, source: Source::Url(download_url) }
}

} // verus!

verus! {

/// In full-path mode, a file listed at `path` and fetched from a URL whose last path segment
/// is the file's own name is written at that same path, its segments joined with `/`.
pub proof fn lemma_file_lands_at_its_path(
    path: Seq<char>,
    download_url: Seq<char>,
    target: Seq<char>,
    t: DownloadTarget,
)
    requires
        file_target_spec(path, download_url, target, Mode::FullPath, t),
        segments(path).len() > 0,
        file_name_of(download_url) == segments(path).last(),
    ensures
        t.local_path() == join(segments(path)),
{
    lemma_full_path_keeps_path(path);
}

} // verus!
