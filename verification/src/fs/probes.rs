//! Readers that only want to know what a file is: they must not cause a
//! download.

use crate::text::{chars_of, contains_text, joined, occurs, same_text};
use vstd::prelude::*;

verus! {

/// The bits of the open flags that hold the access mode.
pub const O_ACCMODE: i32 = 3;

/// The access mode for reading only.
pub const O_RDONLY: i32 = 0;

/// The open flag that asks not to touch the access time.
pub const O_NOATIME: i32 = 262144;

/// The open flag that asks to empty the file.
pub const O_TRUNC: i32 = 512;

/// The open flag that asks that the file be new.
pub const O_EXCL: i32 = 128;

/// The text in lower case.
pub uninterp spec fn lowercase_of(s: Seq<char>) -> Seq<char>;

/// Calls `str::to_lowercase`. The result is a function of the text alone.
#[verifier::external_body]
pub(crate) fn to_lowercase(s: &str) -> (r: String)
    ensures
        r@ == lowercase_of(s@),
{
    s.to_lowercase()
}

/// Opening to find out the type of a file: reading only, without touching the
/// access time, by one of the desktop's own programs. Other programs may read
/// so in earnest.
pub open spec fn gio_probe(flags: i32, executable: Option<Seq<char>>) -> bool {
    &&& flags & O_ACCMODE == O_RDONLY
    &&& flags & O_NOATIME != 0
    &&& executable == Some("gio"@) || executable == Some("nautilus"@)
}

/// Whether a program, given by its file name where that is text, opens a file
/// only to find out its type.
pub fn is_gio_probe_open(flags: i32, executable: &Option<String>) -> (r: bool)
    ensures
        r == gio_probe(flags, crate::text::option_text(*executable)),
{
    let known = match executable {
        Some(e) => same_text(e.as_str(), "gio") || same_text(e.as_str(), "nautilus"),
        None => false,
    };
    flags & O_ACCMODE == O_RDONLY && flags & O_NOATIME != 0 && known
}

/// A process, by its text in lower case, makes thumbnails or indexes files.
pub open spec fn thumbnails_or_indexes(process: Seq<char>) -> bool {
    ||| occurs(process, "thumbnail"@)
    ||| occurs(process, "thumbnailer"@)
    ||| occurs(process, "tracker-extract"@)
    ||| occurs(process, "tracker-miner"@)
    ||| occurs(process, "tracker3"@)
    ||| occurs(process, "localsearch"@)
    ||| occurs(process, "evince-thumbnailer"@)
    ||| occurs(process, "ffmpegthumbnailer"@)
    ||| occurs(process, "totem-video-thumbnailer"@)
    ||| occurs(process, "gdk-pixbuf-thumbnailer"@)
    ||| occurs(process, "gnome-epub-thumbnailer"@)
    ||| (occurs(process, "soffice"@) || occurs(process, "libreoffice"@)) && (occurs(
        process,
        "--headless"@,
    ) || occurs(process, "--convert-to"@) || occurs(process, "thumbnail"@))
}

/// Whether a process, by its text in lower case, makes thumbnails or indexes
/// files.
pub fn is_thumbnail_or_indexer(process: &str) -> (r: bool)
    ensures
        r == thumbnails_or_indexes(process@),
{
    contains_text(process, "thumbnail") || contains_text(process, "thumbnailer") || contains_text(
        process,
        "tracker-extract",
    ) || contains_text(process, "tracker-miner") || contains_text(process, "tracker3")
        || contains_text(process, "localsearch") || contains_text(process, "evince-thumbnailer")
        || contains_text(process, "ffmpegthumbnailer") || contains_text(
        process,
        "totem-video-thumbnailer",
    ) || contains_text(process, "gdk-pixbuf-thumbnailer") || contains_text(
        process,
        "gnome-epub-thumbnailer",
    ) || ((contains_text(process, "soffice") || contains_text(process, "libreoffice")) && (
    contains_text(process, "--headless") || contains_text(process, "--convert-to")
        || contains_text(process, "thumbnail")))
}

/// A text with blanks in the place of zero characters.
pub open spec fn blanked(s: Seq<char>) -> Seq<char> {
    s.map_values(
        |c: char|
            if c == '\0' {
                ' '
            } else {
                c
            },
    )
}

fn blank(s: &str) -> (r: String)
    ensures
        r@ == blanked(s@),
{
    let c = chars_of(s);
    let mut r: String = String::new();
    let mut i: usize = 0;
    while i < c.len()
        invariant
            i <= c@.len(),
            c@ == s@,
            r@ == blanked(c@.take(i as int)),
        decreases c@.len() - i,
    {
        if c[i] == '\0' {
            r.push(' ');
        } else {
            r.push(c[i]);
        }
        assert(r@ =~= blanked(c@.take(i + 1)));
        i += 1;
    }
    assert(c@.take(c@.len() as int) =~= c@);
    r
}

/// The text of a process: its executable, its name and its command line, whose
/// arguments are separated by zero characters.
pub fn request_process_text(executable: &str, name: &str, command_line: &str) -> (r: String)
    ensures
        r@ == executable@ + " "@ + name@ + " "@ + blanked(command_line@),
{
    let line = blank(command_line);
    let r = joined(executable, " ");
    let r = joined(r.as_str(), name);
    let r = joined(r.as_str(), " ");
    joined(r.as_str(), line.as_str())
}

/// Whether the process with a text makes thumbnails or indexes files.
pub fn is_thumbnail_or_indexer_request(process: &str) -> (r: bool)
    ensures
        r == thumbnails_or_indexes(lowercase_of(process@)),
{
    let process = to_lowercase(process);
    is_thumbnail_or_indexer(process.as_str())
}

} // verus!
