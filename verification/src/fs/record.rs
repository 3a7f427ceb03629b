//! What is known of a file or a directory, and of its content in the cache.

use crate::text::{chars_of, decimal, decimal_text, joined, wide_decimal_text};
use vstd::prelude::*;

verus! {

/// Where the content of a file is.
#[derive(Clone, Copy, PartialEq, Eq, Structural, Debug)]
pub enum FileState {
    OnlineOnly,
    Hydrating,
    Cached,
    Pinned,
    Writing,
    Dirty,
    Uploading,
    Conflict,
    Error,
}

/// What the cloud says of an item.
#[derive(Debug)]
pub struct MetadataEntry {
    pub remote_id: String,
    pub path: String,
    pub parent_path: String,
    pub name: String,
    pub is_dir: bool,
    pub size: u64,
    pub etag: String,
    pub modified_unix: i64,
}

/// What is known of an item. Its own identifier, under `metadata`, stays the
/// same when the cloud gives it another one.
#[derive(Debug)]
pub struct FileRecord {
    pub metadata: MetadataEntry,
    pub state: FileState,
    pub cache_path: Option<String>,
    pub cloud_remote_id: Option<String>,
    pub local_mode: Option<u16>,
    pub effective_pinned: bool,
}

/// A copy of an optional text.
pub(crate) fn copy_option(s: &Option<String>) -> (r: Option<String>)
    ensures
        r == *s,
{
    match s {
        Some(s) => Some(s.clone()),
        None => None,
    }
}

impl Clone for MetadataEntry {
    fn clone(&self) -> (r: Self)
        ensures
            r == *self,
    {
        MetadataEntry {
            remote_id: self.remote_id.clone(),
            path: self.path.clone(),
            parent_path: self.parent_path.clone(),
            name: self.name.clone(),
            is_dir: self.is_dir,
            size: self.size,
            etag: self.etag.clone(),
            modified_unix: self.modified_unix,
        }
    }
}

impl Clone for FileRecord {
    fn clone(&self) -> (r: Self)
        ensures
            r == *self,
    {
        FileRecord {
            metadata: self.metadata.clone(),
            state: self.state,
            cache_path: copy_option(&self.cache_path),
            cloud_remote_id: copy_option(&self.cloud_remote_id),
            local_mode: self.local_mode,
            effective_pinned: self.effective_pinned,
        }
    }
}

/// A state in which the content is in the cache.
pub open spec fn keeps_cache(state: FileState) -> bool {
    match state {
        FileState::Cached => true,
        FileState::Pinned => true,
        FileState::Writing => true,
        FileState::Dirty => true,
        FileState::Uploading => true,
        _ => false,
    }
}

/// The content is in the cache: the state says so and the file is there.
pub open spec fn cached(record: FileRecord, exists: bool) -> bool {
    keeps_cache(record.state) && record.cache_path is Some && exists
}

/// Whether the content of a record is in the cache; `exists` says whether the
/// file at its cache path does.
pub fn has_existing_cache(record: &FileRecord, exists: bool) -> (r: bool)
    ensures
        r == cached(*record, exists),
{
    let state = match record.state {
        FileState::Cached => true,
        FileState::Pinned => true,
        FileState::Writing => true,
        FileState::Dirty => true,
        FileState::Uploading => true,
        _ => false,
    };
    state && record.cache_path.is_some() && exists
}

/// A state in which there is local content that the cloud lacks.
pub open spec fn awaits_upload(state: FileState) -> bool {
    state == FileState::Dirty || state == FileState::Uploading || state == FileState::Conflict
}

/// Whether a record has local content that the cloud lacks.
pub fn is_awaiting_upload(record: &FileRecord) -> (r: bool)
    ensures
        r == awaits_upload(record.state),
{
    record.state == FileState::Dirty || record.state == FileState::Uploading || record.state
        == FileState::Conflict
}

/// A pinned file whose content is not in the cache.
pub open spec fn lacks_pinned_content(record: FileRecord, exists: bool) -> bool {
    &&& !record.metadata.is_dir
    &&& record.effective_pinned
    &&& !(record.cache_path is Some && exists)
}

/// Whether a record is of a pinned file whose content is not in the cache.
pub fn is_lacking_pinned_content(record: &FileRecord, exists: bool) -> (r: bool)
    ensures
        r == lacks_pinned_content(*record, exists),
{
    !record.metadata.is_dir && record.effective_pinned && !(record.cache_path.is_some() && exists)
}

/// A character that stands for itself in the name of a cache file.
pub open spec fn is_cache_char(c: char) -> bool {
    '0' <= c <= '9' || 'a' <= c <= 'z' || 'A' <= c <= 'Z' || c == '-' || c == '_'
}

/// The name of the cache file for an identifier.
pub open spec fn cache_name(id: Seq<char>) -> Seq<char> {
    id.map_values(
        |c: char|
            if is_cache_char(c) {
                c
            } else {
                '_'
            },
    )
}

/// The name of the cache file for an identifier: letters, digits, hyphens and
/// underscores of ASCII stay, everything else becomes an underscore.
pub fn sanitize_cache_name(remote_id: &str) -> (r: String)
    ensures
        r@ == cache_name(remote_id@),
{
    let c = chars_of(remote_id);
    let mut r: String = String::new();
    let mut i: usize = 0;
    while i < c.len()
        invariant
            i <= c@.len(),
            c@ == remote_id@,
            r@ == cache_name(c@.take(i as int)),
        decreases c@.len() - i,
    {
        let x = c[i];
        if ('0' <= x && x <= '9') || ('a' <= x && x <= 'z') || ('A' <= x && x <= 'Z') || x == '-'
            || x == '_' {
            r.push(x);
        } else {
            r.push('_');
        }
        assert(r@ =~= cache_name(c@.take(i + 1)));
        i += 1;
    }
    assert(c@.take(c@.len() as int) =~= c@);
    r
}

/// The name of a cache file cannot leave its directory: it holds no separator
/// and no dot.
pub proof fn lemma_cache_name_is_plain(id: Seq<char>)
    ensures
        cache_name(id).len() == id.len(),
        forall|i: int| 0 <= i < cache_name(id).len() ==> is_cache_char(#[trigger] cache_name(id)[i]),
{
}

/// What makes an identifier unique: a time in nanoseconds and a process.
pub fn unique_suffix(nanos: u128, pid: u32) -> (r: String)
    ensures
        r@ == decimal(nanos as nat) + "-"@ + decimal(pid as nat),
{
    let n = wide_decimal_text(nanos);
    let p = decimal_text(pid as u64);
    let head = joined(n.as_str(), "-");
    joined(head.as_str(), p.as_str())
}

/// The identifier of an item that the cloud does not know yet.
pub fn local_upload_id(suffix: &str) -> (r: String)
    ensures
        r@ == "local-upload-"@ + suffix@,
{
    joined("local-upload-", suffix)
}

} // verus!
