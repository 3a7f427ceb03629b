//! Local changes that the cloud's changes contradict: they are kept as a copy
//! under a name of its own.

use super::record::{copy_option, FileRecord, MetadataEntry};
use crate::peer::primitives::{hex_of, hex_text};
use crate::text::{chars_of, decimal, decimal_text, joined, same_text, text_of};
use vstd::prelude::*;
use vstd::utf8::{encode_utf8, is_ascii_chars, is_ascii_chars_encode_utf8};

verus! {

/// The version that an upload replaces: that of the cloud's item, if there is
/// one.
pub fn record_upload_etag(record: &FileRecord) -> (r: Option<String>)
    ensures
        r == upload_etag(*record),
{
    proof {
        reveal_strlit("");
        assert(record.metadata.etag@.len() == 0 ==> record.metadata.etag@ =~= ""@);
    }
    if record.cloud_remote_id.is_none() || same_text(record.metadata.etag.as_str(), "") {
        None
    } else {
        Some(record.metadata.etag.clone())
    }
}

/// The version that an upload replaces.
pub open spec fn upload_etag(record: FileRecord) -> Option<String> {
    if record.cloud_remote_id is None || record.metadata.etag@.len() == 0 {
        None
    } else {
        Some(record.metadata.etag)
    }
}

/// The cloud's item that an upload replaces.
pub fn record_upload_remote_id(record: &FileRecord) -> (r: Option<String>)
    ensures
        r == record.cloud_remote_id,
{
    copy_option(&record.cloud_remote_id)
}

/// The longest beginning of a text that has at most so many bytes.
pub open spec fn fitting(s: Seq<char>, max: nat) -> Seq<char>
    decreases s.len(),
{
    if s.len() == 0 || encode_utf8(s).len() <= max {
        s
    } else {
        fitting(s.drop_last(), max)
    }
}

/// The longest beginning of a text, by whole characters, that has at most so
/// many bytes.
pub fn truncate_utf8(value: &str, max_bytes: usize) -> (r: String)
    ensures
        r@ == fitting(value@, max_bytes as nat),
{
    let c = chars_of(value);
    let mut n: usize = c.len();
    proof {
        assert(c@.subrange(0, c@.len() as int) =~= c@);
    }
    while n > 0
        invariant
            n <= c@.len(),
            c@ == value@,
            fitting(value@, max_bytes as nat) == fitting(
                c@.subrange(0, n as int),
                max_bytes as nat,
            ),
        decreases n,
    {
        let t = text_of(c.as_slice(), 0, n);
        if t.as_str().as_bytes().len() <= max_bytes {
            return t;
        }
        assert(c@.subrange(0, n as int).drop_last() =~= c@.subrange(0, n - 1));
        n -= 1;
    }
    let r: String = String::new();
    assert(c@.subrange(0, 0) =~= r@);
    r
}

/// A number that stands for a text: the hash of Fowler, Noll and Vo.
pub open spec fn fingerprint_of(bytes: Seq<u8>) -> u32
    decreases bytes.len(),
{
    if bytes.len() == 0 {
        0x811c9dc5
    } else {
        ((fingerprint_of(bytes.drop_last()) ^ (bytes.last() as u32)) * 0x01000193 % 0x1_0000_0000)
            as u32
    }
}

/// A number that stands for a text, the same in every process.
pub fn stable_path_fingerprint(value: &str) -> (r: u32)
    ensures
        r == fingerprint_of(encode_utf8(value@)),
{
    let bytes = value.as_bytes();
    let mut hash: u32 = 0x811c9dc5;
    let mut i: usize = 0;
    assert(bytes@.take(0) =~= Seq::<u8>::empty());
    while i < bytes.len()
        invariant
            i <= bytes@.len(),
            hash == fingerprint_of(bytes@.take(i as int)),
        decreases bytes@.len() - i,
    {
        let mixed: u32 = hash ^ (bytes[i] as u32);
        let product: u64 = (mixed as u64) * 0x01000193;
        proof {
            let upto = bytes@.take(i + 1);
            assert(upto.drop_last() =~= bytes@.take(i as int));
            assert(upto.last() == bytes@[i as int]);
        }
        hash = (product % 0x1_0000_0000) as u32;
        i += 1;
    }
    assert(bytes@.take(bytes@.len() as int) =~= bytes@);
    hash
}

/// The eight hexadecimal digits of a number.
pub open spec fn eight_digits(n: u32) -> Seq<char> {
    hex_of(
        seq![
            (n / 16777216) as u8,
            (n / 65536 % 256) as u8,
            (n / 256 % 256) as u8,
            (n % 256) as u8,
        ],
    )
}

fn eight_digit_text(n: u32) -> (r: String)
    ensures
        r@ == eight_digits(n),
{
    let bytes: [u8; 4] = [
        (n / 16777216) as u8,
        (n / 65536 % 256) as u8,
        (n / 256 % 256) as u8,
        (n % 256) as u8,
    ];
    assert(bytes@ =~= seq![
        (n / 16777216) as u8,
        (n / 65536 % 256) as u8,
        (n / 256 % 256) as u8,
        (n % 256) as u8,
    ]);
    hex_text(bytes.as_slice())
}

/// The last dot of a name, unless the name begins with it.
pub open spec fn extension_at(name: Seq<char>) -> int
    decreases name.len(),
{
    if name.len() <= 1 {
        -1
    } else if name.last() == '.' {
        name.len() - 1
    } else {
        extension_at(name.drop_last())
    }
}

/// What marks a copy.
pub open spec fn conflict_mark(modified: nat, id: Seq<char>) -> Seq<char> {
    " (TwoDrive conflict "@ + decimal(modified) + "-"@ + eight_digits(
        fingerprint_of(encode_utf8(id)),
    ) + ")"@
}

/// The difference, or zero.
pub open spec fn less(a: int, b: int) -> int {
    if a < b {
        0
    } else {
        a - b
    }
}

/// The name of the copy: the stem, what marks it, and the extension. The
/// extension has at most thirty-two bytes, and the stem is cut where the whole
/// would have more than two hundred and forty.
pub open spec fn conflict_name(name: Seq<char>, modified: nat, id: Seq<char>) -> Seq<char> {
    let at = extension_at(name);
    let stem = if at < 0 {
        name
    } else {
        name.take(at)
    };
    let extension = if at < 0 {
        Seq::empty()
    } else {
        name.skip(at)
    };
    let mark = conflict_mark(modified, id);
    let short = fitting(extension, 32);
    let room = less(less(240, encode_utf8(mark).len() as int), encode_utf8(short).len() as int);
    fitting(stem, room as nat) + mark + short
}

/// When the local content was changed, in seconds: as the file says, or else
/// as the record does.
pub open spec fn modified_of(record: FileRecord, modified: Option<u64>) -> nat {
    match modified {
        Some(m) => m as nat,
        None => if record.metadata.modified_unix < 0 {
            0
        } else {
            record.metadata.modified_unix as nat
        },
    }
}

/// The name under which the local content of a record is kept as a copy, in
/// the same directory. `modified` is when the content was changed, where that
/// is known.
pub fn conflict_copy_name(record: &FileRecord, modified: Option<u64>) -> (r: String)
    ensures
        r@ == conflict_name(
            record.metadata.name@,
            modified_of(*record, modified),
            record.metadata.remote_id@,
        ),
{
    let seconds: u64 = match modified {
        Some(m) => m,
        None => if record.metadata.modified_unix < 0 {
            0
        } else {
            record.metadata.modified_unix as u64
        },
    };
    let digits = eight_digit_text(stable_path_fingerprint(record.metadata.remote_id.as_str()));
    let number = decimal_text(seconds);
    let mark = joined(" (TwoDrive conflict ", number.as_str());
    let mark = joined(mark.as_str(), "-");
    let mark = joined(mark.as_str(), digits.as_str());
    let mark = joined(mark.as_str(), ")");
    let name = chars_of(record.metadata.name.as_str());
    let mut at: usize = name.len();
    assert(name@.take(name@.len() as int) =~= name@);
    while at > 1 && name[at - 1] != '.'
        invariant
            at <= name@.len(),
            extension_at(name@) == extension_at(name@.take(at as int)),
        decreases at,
    {
        assert(name@.take(at as int).drop_last() =~= name@.take(at - 1));
        at -= 1;
    }
    let found = at > 1;
    let split: usize = if found {
        at - 1
    } else {
        name.len()
    };
    proof {
        if found {
            assert(extension_at(name@) == at - 1);
        } else {
            assert(extension_at(name@) == -1);
        }
    }
    let stem = text_of(name.as_slice(), 0, split);
    let extension = text_of(name.as_slice(), split, name.len());
    proof {
        let at = extension_at(name@);
        if at < 0 {
            assert(stem@ =~= name@);
            assert(extension@ =~= Seq::<char>::empty());
        } else {
            assert(stem@ =~= name@.take(at));
            assert(extension@ =~= name@.skip(at));
        }
    }
    let short = truncate_utf8(extension.as_str(), 32);
    let a: usize = mark.as_str().as_bytes().len();
    let b: usize = short.as_str().as_bytes().len();
    let left: usize = if a > 240 {
        0
    } else {
        240 - a
    };
    let room: usize = if b > left {
        0
    } else {
        left - b
    };
    let cut = truncate_utf8(stem.as_str(), room);
    let r = joined(cut.as_str(), mark.as_str());
    joined(r.as_str(), short.as_str())
}

proof fn lemma_encoded_apart(a: Seq<char>, b: Seq<char>)
    ensures
        encode_utf8(a + b) == encode_utf8(a) + encode_utf8(b),
    decreases a.len(),
{
    if a.len() == 0 {
        assert(a + b =~= b);
        assert(encode_utf8(a) + encode_utf8(b) =~= encode_utf8(b));
    } else {
        assert((a + b).drop_first() =~= a.drop_first() + b);
        lemma_encoded_apart(a.drop_first(), b);
        assert(encode_utf8(a + b) =~= encode_utf8(a) + encode_utf8(b));
    }
}

proof fn lemma_fitting_fits(s: Seq<char>, max: nat)
    ensures
        encode_utf8(fitting(s, max)).len() <= max,
    decreases s.len(),
{
    if s.len() == 0 || encode_utf8(s).len() <= max {
    } else {
        lemma_fitting_fits(s.drop_last(), max);
    }
}

spec fn power_of_ten(k: nat) -> nat
    decreases k,
{
    if k == 0 {
        1
    } else {
        10 * power_of_ten((k - 1) as nat)
    }
}

proof fn lemma_decimal_is_short(n: nat, k: nat)
    requires
        1 <= k,
        n < power_of_ten(k),
    ensures
        decimal(n).len() <= k,
        is_ascii_chars(decimal(n)),
    decreases k,
{
    if n >= 10 {
        reveal_with_fuel(power_of_ten, 2);
        lemma_decimal_is_short(n / 10, (k - 1) as nat);
    }
}

/// The name of a copy has at most two hundred and forty bytes, whatever the
/// name of the item is.
pub proof fn lemma_conflict_name_fits(name: Seq<char>, modified: nat, id: Seq<char>)
    requires
        modified <= u64::MAX,
    ensures
        encode_utf8(conflict_name(name, modified, id)).len() <= 240,
{
    let at = extension_at(name);
    let stem = if at < 0 {
        name
    } else {
        name.take(at)
    };
    let extension = if at < 0 {
        Seq::empty()
    } else {
        name.skip(at)
    };
    let digits = eight_digits(fingerprint_of(encode_utf8(id)));
    let mark = conflict_mark(modified, id);
    let short = fitting(extension, 32);
    assert(encode_utf8(mark).len() <= 50) by {
        reveal_with_fuel(power_of_ten, 21);
        lemma_decimal_is_short(modified, 20);
        reveal_strlit(" (TwoDrive conflict ");
        reveal_strlit("-");
        reveal_strlit(")");
        assert(is_ascii_chars(digits));
        assert(is_ascii_chars(mark));
        is_ascii_chars_encode_utf8(mark);
    }
    lemma_fitting_fits(extension, 32);
    let room = less(less(240, encode_utf8(mark).len() as int), encode_utf8(short).len() as int);
    lemma_fitting_fits(stem, room as nat);
    lemma_encoded_apart(fitting(stem, room as nat) + mark, short);
    lemma_encoded_apart(fitting(stem, room as nat), mark);
}

/// What is being done to keep a copy.
pub enum Preserving {
    /// The time at which the local content was changed is being found out.
    Dating,
    /// The local content is being uploaded under the copy's name.
    Uploading,
    /// What the cloud now says of the original is being asked.
    Asking { copy: MetadataEntry },
    /// What is known is being recorded.
    Recording { copy: MetadataEntry },
    Ended,
}

/// What happened.
pub enum PreserveEvent {
    /// When the local content was changed, in seconds, where that is known.
    Dated(Option<u64>),
    Uploaded(MetadataEntry),
    Latest(Option<MetadataEntry>),
    Recorded,
}

/// What is to be done.
pub enum PreserveOrder {
    /// Upload a cache file to a name in a directory: as a new item where neither
    /// an identifier nor a version is given.
    Upload {
        parent: String,
        name: String,
        cache_path: String,
        remote_id: Option<String>,
        etag: Option<String>,
    },
    /// Ask the cloud for an item.
    Ask(String),
    /// Record the copy with the content of a cache file, the original as the
    /// cloud has it, and that the content of the record is online only.
    Record { copy: MetadataEntry, cache_path: String, latest: MetadataEntry, id: String },
    /// The copy is kept.
    Kept(MetadataEntry),
    /// An item that the cloud does not know cannot be in conflict.
    LocalOnly,
    /// The original has disappeared.
    Disappeared,
    /// Nothing: what happened does not belong here.
    Nothing,
}

impl Preserving {
    /// What follows for a record whose local content is in a cache file.
    pub open spec fn follows(
        self,
        original: FileRecord,
        cache_path: Seq<char>,
        event: PreserveEvent,
        r: (Preserving, PreserveOrder),
    ) -> bool {
        match (self, event) {
            (Preserving::Dating, PreserveEvent::Dated(modified)) => {
                &&& r.0 is Uploading
                &&& r.1 matches PreserveOrder::Upload {
                    parent,
                    name,
                    cache_path: file,
                    remote_id,
                    etag,
                }
                &&& parent == original.metadata.parent_path
                &&& name@ == conflict_name(
                    original.metadata.name@,
                    modified_of(original, modified),
                    original.metadata.remote_id@,
                )
                &&& file@ == cache_path
                &&& remote_id is None
                &&& etag is None
            },
            (Preserving::Uploading, PreserveEvent::Uploaded(copy)) => match original.cloud_remote_id {
                None => r == (Preserving::Ended, PreserveOrder::LocalOnly),
                Some(id) => r == (Preserving::Asking { copy }, PreserveOrder::Ask(id)),
            },
            (Preserving::Asking { copy }, PreserveEvent::Latest(latest)) => match latest {
                None => r == (Preserving::Ended, PreserveOrder::Disappeared),
                Some(latest) => {
                    &&& r.0 == (Preserving::Recording { copy })
                    &&& r.1 matches PreserveOrder::Record {
                        copy: kept,
                        cache_path: file,
                        latest: now,
                        id,
                    }
                    &&& kept == copy
                    &&& file@ == cache_path
                    &&& now == latest
                    &&& id == original.metadata.remote_id
                },
            },
            (Preserving::Recording { copy }, PreserveEvent::Recorded) => r == (
                Preserving::Ended,
                PreserveOrder::Kept(copy),
            ),
            (s, _) => r == (s, PreserveOrder::Nothing),
        }
    }
}

/// The next step of keeping the local content of a record, which is in a cache
/// file, as a copy. It begins by finding out when the content was changed; then
/// the file goes up under the copy's name, as a new item. The original is given
/// up only once the copy is in the cloud.
pub fn preserve_conflict_copy(
    state: Preserving,
    original: &FileRecord,
    cache_path: &str,
    event: PreserveEvent,
) -> (r: (Preserving, PreserveOrder))
    ensures
        state.follows(*original, cache_path@, event, r),
{
    match (state, event) {
        (Preserving::Dating, PreserveEvent::Dated(modified)) => (
            Preserving::Uploading,
            PreserveOrder::Upload {
                parent: original.metadata.parent_path.clone(),
                name: conflict_copy_name(original, modified),
                cache_path: cache_path.to_owned(),
                remote_id: None,
                etag: None,
            },
        ),
        (Preserving::Uploading, PreserveEvent::Uploaded(copy)) => match &original.cloud_remote_id {
            None => (Preserving::Ended, PreserveOrder::LocalOnly),
            Some(id) => (Preserving::Asking { copy }, PreserveOrder::Ask(id.clone())),
        },
        (Preserving::Asking { copy }, PreserveEvent::Latest(latest)) => match latest {
            None => (Preserving::Ended, PreserveOrder::Disappeared),
            Some(latest) => {
                let kept = copy.clone();
                (
                    Preserving::Recording { copy: kept },
                    PreserveOrder::Record {
                        copy,
                        cache_path: cache_path.to_owned(),
                        latest,
                        id: original.metadata.remote_id.clone(),
                    },
                )
            },
        },
        (Preserving::Recording { copy }, PreserveEvent::Recorded) => (
            Preserving::Ended,
            PreserveOrder::Kept(copy),
        ),
        (s, _) => (s, PreserveOrder::Nothing),
    }
}

} // verus!
