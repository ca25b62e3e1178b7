//! The content index: a record whose first 256 bytes are an opaque header and
//! whose remainder is a JSON document encrypted under the master key,
//! `{"content": [{"path": "...", "key": "..." | null}, ...]}`.
use vstd::prelude::*;
use vstd::slice::slice_subrange;
use vstd::utf8::encode_utf8;

use crate::cipher::{decrypt_with, decrypted, key_usable};
use crate::json::{json_parse_of, parse_json, Json};
use crate::DecryptError;

verus! {

/// Bytes of the unencrypted header in front of the index payload.
pub const HEADER_LEN: usize = 256;

/// One file listed by the index: its path under the archive root, and the
/// key string it is encrypted under, if it is encrypted.
#[derive(Debug)]
pub struct ContentEntry {
    pub path: String,
    pub key: Option<String>,
}

/// The model of a [`ContentEntry`].
pub struct EntryView {
    pub path: Seq<char>,
    pub key: Option<Seq<char>>,
}

impl View for ContentEntry {
    type V = EntryView;

    open spec fn view(&self) -> EntryView {
        EntryView {
            path: self.path@,
            key: match self.key {
                Some(k) => Some(k@),
                None => None,
            },
        }
    }
}

/// The models of a list of entries.
pub open spec fn entry_views(v: Seq<ContentEntry>) -> Seq<EntryView> {
    v.map_values(|e: ContentEntry| e@)
}

pub open spec fn content_name() -> Seq<u8> {
    seq![0x63u8, 0x6fu8, 0x6eu8, 0x74u8, 0x65u8, 0x6eu8, 0x74u8]
}

pub open spec fn path_name() -> Seq<u8> {
    seq![0x70u8, 0x61u8, 0x74u8, 0x68u8]
}

pub open spec fn key_name() -> Seq<u8> {
    seq![0x6bu8, 0x65u8, 0x79u8]
}

/// The value of the first member at or after position `i` of an object
/// whose name is `name` (as UTF-8 bytes).
pub open spec fn member_from(o: Seq<(String, Json)>, name: Seq<u8>, i: int) -> Option<Json>
    decreases o.len() - i,
{
    if i < 0 || i >= o.len() {
        None
    } else if encode_utf8(o[i].0@) == name {
        Some(o[i].1)
    } else {
        member_from(o, name, i + 1)
    }
}

/// The value of the member of an object named `name`.
pub open spec fn member(o: Seq<(String, Json)>, name: Seq<u8>) -> Option<Json> {
    member_from(o, name, 0)
}

/// The entry that a JSON value describes: an object with a string member
/// `path` and a member `key` that is a string, `null` or absent. Other
/// members are ignored.
pub open spec fn entry_model(j: Json) -> Option<EntryView> {
    match j {
        Json::Object(o) => match member(o@, path_name()) {
            Some(Json::Str(p)) => match member(o@, key_name()) {
                None => Some(EntryView { path: p@, key: None }),
                Some(Json::Null) => Some(EntryView { path: p@, key: None }),
                Some(Json::Str(k)) => Some(EntryView { path: p@, key: Some(k@) }),
                _ => None,
            },
            _ => None,
        },
        _ => None,
    }
}

/// The entries that an index document lists: it is an object whose member
/// `content` is an array of entries.
pub open spec fn index_model(j: Json) -> Option<Seq<EntryView>> {
    match j {
        Json::Object(o) => match member(o@, content_name()) {
            Some(Json::Array(a)) => if forall|i: int|
                0 <= i < a@.len() ==> (#[trigger] entry_model(a@[i])) is Some {
                Some(Seq::new(a@.len(), |i: int| entry_model(a@[i])->0))
            } else {
                None
            },
            _ => None,
        },
        _ => None,
    }
}

/// The outcome of decoding the index record `record` under `master_key`.
pub open spec fn decoded_index(master_key: Seq<u8>, record: Seq<u8>) -> Result<
    Seq<EntryView>,
    DecryptError,
> {
    if record.len() < HEADER_LEN {
        Err(DecryptError::IndexTruncated)
    } else if !key_usable(master_key) {
        Err(DecryptError::KeyTooShort)
    } else {
        match json_parse_of(decrypted(master_key, record.subrange(HEADER_LEN as int, record.len() as int))) {
            Some(j) => match index_model(j) {
                Some(es) => Ok(es),
                None => Err(DecryptError::MalformedIndex),
            },
            None => Err(DecryptError::MalformedIndex),
        }
    }
}

fn bytes_equal(a: &[u8], b: &[u8]) -> (r: bool)
    ensures
        r == (a@ == b@),
{
    if a.len() != b.len() {
        return false;
    }
    let mut i: usize = 0;
    while i < a.len()
        invariant
            a@.len() == b@.len(),
            0 <= i <= a@.len(),
            forall|k: int| 0 <= k < i ==> a@[k] == b@[k],
        decreases a@.len() - i,
    {
        if a[i] != b[i] {
            return false;
        }
        i = i + 1;
    }
    assert(a@ =~= b@);
    true
}

/// Looks up the member of an object named `name`.
fn find_member<'a>(o: &'a Vec<(String, Json)>, name: &Vec<u8>) -> (r: Option<&'a Json>)
    ensures
        match r {
            Some(j) => member(o@, name@) == Some(*j),
            None => member(o@, name@) is None,
        },
{
    let mut i: usize = 0;
    while i < o.len()
        invariant
            0 <= i <= o@.len(),
            member(o@, name@) == member_from(o@, name@, i as int),
        decreases o@.len() - i,
    {
        let (k, v) = &o[i];
        if bytes_equal(k.as_str().as_bytes(), name.as_slice()) {
            return Some(v);
        }
        i = i + 1;
    }
    None
}

/// The entry that a JSON value describes, if it describes one.
pub fn entry_from_json(j: &Json) -> (r: Option<ContentEntry>)
    ensures
        match r {
            Some(e) => entry_model(*j) == Some(e@),
            None => entry_model(*j) is None,
        },
{
    let o = match j {
        Json::Object(o) => o,
        _ => return None,
    };
    let path_tag: Vec<u8> = vec![0x70u8, 0x61, 0x74, 0x68];
    let key_tag: Vec<u8> = vec![0x6bu8, 0x65, 0x79];
    assert(path_tag@ =~= path_name());
    assert(key_tag@ =~= key_name());
    let path = match find_member(o, &path_tag) {
        Some(Json::Str(p)) => p.clone(),
        _ => return None,
    };
    let key = match find_member(o, &key_tag) {
        None => None,
        Some(Json::Null) => None,
        Some(Json::Str(k)) => Some(k.clone()),
        _ => return None,
    };
    Some(ContentEntry { path, key })
}

/// The entries that an index document lists, or `None` when the document
/// does not have the shape of a content index.
pub fn index_entries(doc: &Json) -> (r: Option<Vec<ContentEntry>>)
    ensures
        match r {
            Some(v) => index_model(*doc) == Some(entry_views(v@)),
            None => index_model(*doc) is None,
        },
{
    let o = match doc {
        Json::Object(o) => o,
        _ => return None,
    };
    let content_tag: Vec<u8> = vec![0x63u8, 0x6f, 0x6e, 0x74, 0x65, 0x6e, 0x74];
    assert(content_tag@ =~= content_name());
    let a = match find_member(o, &content_tag) {
        Some(Json::Array(a)) => a,
        _ => return None,
    };
    let mut out: Vec<ContentEntry> = Vec::new();
    let mut i: usize = 0;
    while i < a.len()
        invariant
            *doc == Json::Object(*o),
            member(o@, content_name()) == Some(Json::Array(*a)),
            0 <= i <= a@.len(),
            out@.len() == i,
            forall|k: int| 0 <= k < i ==> entry_model(a@[k]) == Some((#[trigger] out@[k])@),
        decreases a@.len() - i,
    {
        match entry_from_json(&a[i]) {
            Some(e) => out.push(e),
            None => {
                assert(entry_model(a@[i as int]) is None);
                return None;
            },
        }
        i = i + 1;
    }
    assert forall|k: int| 0 <= k < a@.len() implies (#[trigger] entry_model(a@[k])) is Some by {
        assert(entry_model(a@[k]) == Some(out@[k]@));
    }
    assert(entry_views(out@) =~= Seq::new(a@.len(), |k: int| entry_model(a@[k])->0));
    Some(out)
}

/// Decodes the index record `record` under `master_key`: skips the header,
/// decrypts the payload and reads the list of entries from it.
///
/// Fails with `IndexTruncated` when the record is shorter than the header,
/// with `KeyTooShort` when the key cannot key the cipher, and with
/// `MalformedIndex` when the decrypted payload is not JSON or not shaped as
/// a content index (which is what a wrong key gives).
pub fn decode_index(master_key: &[u8], record: &[u8]) -> (r: Result<Vec<ContentEntry>, DecryptError>)
    ensures
        match r {
            Ok(v) => decoded_index(master_key@, record@) == Ok::<Seq<EntryView>, DecryptError>(entry_views(v@)),
            Err(e) => decoded_index(master_key@, record@) == Err::<Seq<EntryView>, DecryptError>(e),
        },
        record@.len() < HEADER_LEN ==> r == Err::<Vec<ContentEntry>, DecryptError>(DecryptError::IndexTruncated),
{
    if record.len() < HEADER_LEN {
        return Err(DecryptError::IndexTruncated);
    }
    let payload = slice_subrange(record, HEADER_LEN, record.len());
    let mut buf: Vec<u8> = Vec::new();
    let mut i: usize = 0;
    while i < payload.len()
        invariant
            0 <= i <= payload@.len(),
            buf@ == payload@.subrange(0, i as int),
        decreases payload@.len() - i,
    {
        buf.push(payload[i]);
        i = i + 1;
        assert(buf@ =~= payload@.subrange(0, i as int));
    }
    assert(buf@ =~= payload@);
    decrypt_with(master_key, &mut buf)?;
    let doc = match parse_json(buf.as_slice()) {
        Some(d) => d,
        None => return Err(DecryptError::MalformedIndex),
    };
    match index_entries(&doc) {
        Some(v) => Ok(v),
        None => Err(DecryptError::MalformedIndex),
    }
}

} // verus!
