//! The handling of one listed entry: whether anything is written for it, and
//! which bytes.
use vstd::prelude::*;
use vstd::utf8::encode_utf8;

use crate::cipher::{decrypt_with, decrypted, key_usable};
use crate::index::{ContentEntry, EntryView};
use crate::json::{is_json_name, json_parse_of, normalize, normalized};
use crate::DecryptError;

verus! {

/// What is done on disk for one listed entry.
#[derive(Debug, Clone, Copy, PartialEq, Eq, Structural)]
pub enum EntryAction {
    /// The source is missing or not a regular file: nothing is read or written.
    Skip,
    /// A plaintext entry whose output path is its source path: left as it is.
    Keep,
    /// The source is read, transformed and written to the output path.
    Write,
}

/// The action for an entry, given whether its source path names a regular
/// file and whether its output path is its source path.
pub open spec fn planned_action(e: EntryView, source_is_file: bool, same_path: bool) -> EntryAction {
    if !source_is_file {
        EntryAction::Skip
    } else if e.key is None && same_path {
        EntryAction::Keep
    } else {
        EntryAction::Write
    }
}

/// The bytes written for an entry whose source holds `data`: plaintext is
/// normalized as it is, an encrypted entry is decrypted under its own key
/// string first.
pub open spec fn entry_output(e: EntryView, data: Seq<u8>) -> Result<Seq<u8>, DecryptError> {
    match e.key {
        None => Ok(normalized(encode_utf8(e.path), data)),
        Some(k) => if key_usable(encode_utf8(k)) {
            Ok(normalized(encode_utf8(e.path), decrypted(encode_utf8(k), data)))
        } else {
            Err(DecryptError::KeyTooShort)
        },
    }
}

/// Decides what is done for `entry`. A source that is not a regular file is
/// skipped, so it never fails the run and nothing is written for it.
pub fn plan_entry(entry: &ContentEntry, source_is_file: bool, same_path: bool) -> (r: EntryAction)
    ensures
        r == planned_action(entry@, source_is_file, same_path),
        !source_is_file ==> r == EntryAction::Skip,
{
    if !source_is_file {
        EntryAction::Skip
    } else if entry.key.is_none() && same_path {
        EntryAction::Keep
    } else {
        EntryAction::Write
    }
}

/// The bytes to write for `entry`, whose source file holds `data`.
///
/// A plaintext entry is normalized as it is: bytes under a name not ending in
/// `.json` come out unchanged. An encrypted entry is decrypted under its own
/// key string and then normalized; a payload that does not parse after
/// decryption (as under a wrong key) is written as decrypted, with no error.
/// Fails only when the entry's key string is shorter than 32 bytes.
pub fn transform_entry(entry: &ContentEntry, data: Vec<u8>) -> (r: Result<Vec<u8>, DecryptError>)
    ensures
        match r {
            Ok(out) => entry_output(entry@, data@) == Ok::<Seq<u8>, DecryptError>(out@),
            Err(e) => entry_output(entry@, data@) == Err::<Seq<u8>, DecryptError>(e),
        },
        entry@.key is None && !is_json_name(encode_utf8(entry@.path)) ==> (r matches Ok(out)
            && out@ == data@),
        ({
            &&& entry@.key is Some
            &&& key_usable(encode_utf8(entry@.key->0))
            &&& json_parse_of(decrypted(encode_utf8(entry@.key->0), data@)) is None
        }) ==> (r matches Ok(out) && out@ == decrypted(encode_utf8(entry@.key->0), data@)),
{
    match &entry.key {
        None => Ok(normalize(entry.path.as_str(), data)),
        Some(k) => {
            let mut buf = data;
            decrypt_with(k.as_str().as_bytes(), &mut buf)?;
            Ok(normalize(entry.path.as_str(), buf))
        },
    }
}

/// A tree of output files after `writes` are made over `tree`, in order; a
/// later write to a path replaces an earlier one.
pub open spec fn apply_writes(
    tree: Map<Seq<char>, Seq<u8>>,
    writes: Seq<(Seq<char>, Seq<u8>)>,
) -> Map<Seq<char>, Seq<u8>>
    decreases writes.len(),
{
    if writes.len() == 0 {
        tree
    } else {
        apply_writes(tree, writes.drop_last()).insert(writes.last().0, writes.last().1)
    }
}

proof fn lemma_apply_writes_overlays(
    tree: Map<Seq<char>, Seq<u8>>,
    writes: Seq<(Seq<char>, Seq<u8>)>,
)
    ensures
        apply_writes(tree, writes) == tree.union_prefer_right(apply_writes(Map::empty(), writes)),
    decreases writes.len(),
{
    if writes.len() == 0 {
        assert(tree.union_prefer_right(Map::empty()) =~= tree);
    } else {
        lemma_apply_writes_overlays(tree, writes.drop_last());
        lemma_apply_writes_overlays(Map::empty(), writes.drop_last());
        assert(Map::<Seq<char>, Seq<u8>>::empty().union_prefer_right(
            apply_writes(Map::empty(), writes.drop_last()),
        ) =~= apply_writes(Map::empty(), writes.drop_last()));
        assert(apply_writes(tree, writes) =~= tree.union_prefer_right(
            apply_writes(Map::empty(), writes),
        ));
    }
}

/// Running the pipeline a second time into the tree that a first run left
/// gives the same tree: every output file is overwritten with the same bytes,
/// as each write depends only on the archive and the key, and nothing else
/// changes.
pub proof fn lemma_rerun_idempotent(
    tree: Map<Seq<char>, Seq<u8>>,
    writes: Seq<(Seq<char>, Seq<u8>)>,
)
    ensures
        apply_writes(apply_writes(tree, writes), writes) == apply_writes(tree, writes),
{
    let once = apply_writes(tree, writes);
    lemma_apply_writes_overlays(tree, writes);
    lemma_apply_writes_overlays(once, writes);
    let w = apply_writes(Map::<Seq<char>, Seq<u8>>::empty(), writes);
    assert(tree.union_prefer_right(w).union_prefer_right(w) =~= tree.union_prefer_right(w));
}

} // verus!
