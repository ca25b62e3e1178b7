use pack_decrypt::cipher::{decrypt_with, encrypt_with};
use pack_decrypt::entry::{plan_entry, transform_entry, EntryAction};
use pack_decrypt::index::{decode_index, ContentEntry, HEADER_LEN};
use pack_decrypt::json::{has_json_suffix, normalize};
use pack_decrypt::DecryptError;

const MASTER: &[u8] = b"0123456789abcdefghijklmnopqrstuv";
const ENTRY_KEY: &str = "ABCDEFGHIJKLMNOPQRSTUVWXYZ012345";

fn encrypt(key: &[u8], plain: &[u8]) -> Vec<u8> {
    let mut buf = plain.to_vec();
    encrypt_with(key, &mut buf).unwrap();
    buf
}

fn index_record(key: &[u8], payload: &[u8]) -> Vec<u8> {
    let mut record = vec![0x5au8; HEADER_LEN];
    record.extend(encrypt(key, payload));
    record
}

fn entry(path: &str, key: Option<&str>) -> ContentEntry {
    ContentEntry { path: path.to_string(), key: key.map(|k| k.to_string()) }
}

#[test]
fn decrypt_inverts_encrypt() {
    let plain = b"{\"content\":[]} and some more bytes".to_vec();
    let mut buf = plain.clone();
    encrypt_with(MASTER, &mut buf).unwrap();
    assert_ne!(buf, plain);
    assert_eq!(buf.len(), plain.len());
    decrypt_with(MASTER, &mut buf).unwrap();
    assert_eq!(buf, plain);
}

#[test]
fn reencrypting_decrypted_bytes_restores_ciphertext() {
    let cipher_text: Vec<u8> = (0u8..=200).collect();
    let mut buf = cipher_text.clone();
    decrypt_with(MASTER, &mut buf).unwrap();
    assert_ne!(buf, cipher_text);
    encrypt_with(MASTER, &mut buf).unwrap();
    assert_eq!(buf, cipher_text);
}

#[test]
fn only_the_first_32_key_bytes_count() {
    let mut longer = MASTER.to_vec();
    longer.extend_from_slice(b"trailing bytes are ignored");
    let data = b"payload".to_vec();
    assert_eq!(encrypt(&longer, &data), encrypt(MASTER, &data));
}

#[test]
fn short_key_is_rejected_and_buffer_kept() {
    let mut buf = b"abc".to_vec();
    assert_eq!(decrypt_with(&MASTER[..31], &mut buf), Err(DecryptError::KeyTooShort));
    assert_eq!(buf, b"abc".to_vec());
    assert_eq!(encrypt_with(b"short", &mut buf), Err(DecryptError::KeyTooShort));
    assert_eq!(buf, b"abc".to_vec());
}

#[test]
fn json_suffix_is_exact_and_case_sensitive() {
    assert!(has_json_suffix("a.json"));
    assert!(has_json_suffix("dir/x.json"));
    assert!(has_json_suffix(".json"));
    assert!(!has_json_suffix("a.JSON"));
    assert!(!has_json_suffix("a.json.bak"));
    assert!(!has_json_suffix("json"));
    assert!(!has_json_suffix(""));
}

#[test]
fn normalize_pretty_prints_valid_json() {
    let out = normalize("a.json", b"{\"x\":1}".to_vec());
    assert_eq!(String::from_utf8(out).unwrap(), "{\n  \"x\": 1\n}");
}

#[test]
fn normalize_keeps_invalid_json_verbatim() {
    let data = b"{not json".to_vec();
    assert_eq!(normalize("broken.json", data.clone()), data);
}

#[test]
fn normalize_keeps_other_files_verbatim() {
    let data = b"{\"x\":1}".to_vec();
    assert_eq!(normalize("a.txt", data.clone()), data);
    assert_eq!(normalize("a.JSON", data.clone()), data);
}

#[test]
fn normalized_json_parses_to_the_same_value() {
    let input = b"{\"b\":[1,2,{\"c\":null}],\"a\":\"s\",\"t\":true}";
    let out = normalize("doc.json", input.to_vec());
    let before: serde_json::Value = serde_json::from_slice(input).unwrap();
    let after: serde_json::Value = serde_json::from_slice(&out).unwrap();
    assert_eq!(before, after);
    assert_ne!(out, input.to_vec());
}

#[test]
fn truncated_index_record_fails() {
    let record = vec![0u8; 100];
    assert_eq!(decode_index(MASTER, &record).unwrap_err(), DecryptError::IndexTruncated);
}

#[test]
fn header_only_index_record_is_malformed() {
    let record = vec![0u8; HEADER_LEN];
    assert_eq!(decode_index(MASTER, &record).unwrap_err(), DecryptError::MalformedIndex);
}

#[test]
fn index_with_short_master_key_fails() {
    let record = vec![0u8; HEADER_LEN + 10];
    assert_eq!(decode_index(b"too short", &record).unwrap_err(), DecryptError::KeyTooShort);
}

#[test]
fn index_decodes_entries_in_order() {
    let payload = format!(
        "{{\"version\":1,\"content\":[{{\"path\":\"a.json\",\"key\":null}},{{\"path\":\"b.dat\",\"key\":\"{}\"}},{{\"path\":\"c/d.png\"}}]}}",
        ENTRY_KEY
    );
    let record = index_record(MASTER, payload.as_bytes());
    let entries = decode_index(MASTER, &record).unwrap();
    assert_eq!(entries.len(), 3);
    assert_eq!(entries[0].path, "a.json");
    assert_eq!(entries[0].key, None);
    assert_eq!(entries[1].path, "b.dat");
    assert_eq!(entries[1].key.as_deref(), Some(ENTRY_KEY));
    assert_eq!(entries[2].path, "c/d.png");
    assert_eq!(entries[2].key, None);
}

#[test]
fn index_header_bytes_are_ignored() {
    let payload = b"{\"content\":[]}";
    let mut record = index_record(MASTER, payload);
    for b in record.iter_mut().take(HEADER_LEN) {
        *b = 0xff;
    }
    assert_eq!(decode_index(MASTER, &record).unwrap().len(), 0);
}

#[test]
fn index_under_wrong_key_is_malformed() {
    let record = index_record(MASTER, b"{\"content\":[{\"path\":\"a.json\",\"key\":null}]}");
    let wrong = b"vutsrqponmlkjihgfedcba9876543210";
    assert_eq!(decode_index(wrong, &record).unwrap_err(), DecryptError::MalformedIndex);
}

#[test]
fn index_of_wrong_shape_is_malformed() {
    for payload in [
        "[]",
        "{}",
        "{\"content\":{}}",
        "{\"content\":[1]}",
        "{\"content\":[{\"key\":null}]}",
        "{\"content\":[{\"path\":3}]}",
        "{\"content\":[{\"path\":\"a\",\"key\":5}]}",
    ] {
        let record = index_record(MASTER, payload.as_bytes());
        assert_eq!(
            decode_index(MASTER, &record).unwrap_err(),
            DecryptError::MalformedIndex,
            "{}",
            payload
        );
    }
}

#[test]
fn missing_source_is_skipped() {
    let e = entry("gone.json", None);
    assert_eq!(plan_entry(&e, false, false), EntryAction::Skip);
    let e = entry("gone.dat", Some(ENTRY_KEY));
    assert_eq!(plan_entry(&e, false, true), EntryAction::Skip);
}

#[test]
fn plaintext_entry_onto_itself_is_kept() {
    assert_eq!(plan_entry(&entry("a.json", None), true, true), EntryAction::Keep);
    assert_eq!(plan_entry(&entry("a.json", None), true, false), EntryAction::Write);
    assert_eq!(plan_entry(&entry("a.json", Some(ENTRY_KEY)), true, true), EntryAction::Write);
}

#[test]
fn plaintext_entry_is_copied_unchanged() {
    let data: Vec<u8> = vec![0, 1, 2, 250, 255];
    assert_eq!(transform_entry(&entry("img/p.png", None), data.clone()), Ok(data));
}

#[test]
fn encrypted_entry_is_decrypted_and_normalized() {
    let cipher_text = encrypt(ENTRY_KEY.as_bytes(), b"{\"y\":2}");
    let out = transform_entry(&entry("b.json", Some(ENTRY_KEY)), cipher_text).unwrap();
    assert_eq!(String::from_utf8(out).unwrap(), "{\n  \"y\": 2\n}");
}

#[test]
fn encrypted_entry_under_wrong_key_is_written_as_decrypted() {
    let cipher_text = encrypt(ENTRY_KEY.as_bytes(), b"{\"y\":2}");
    let wrong = "zyxwvutsrqponmlkjihgfedcba543210";
    let out = transform_entry(&entry("b.json", Some(wrong)), cipher_text.clone()).unwrap();
    let mut expected = cipher_text;
    decrypt_with(wrong.as_bytes(), &mut expected).unwrap();
    assert_eq!(out, expected);
    assert!(serde_json::from_slice::<serde_json::Value>(&out).is_err());
}

#[test]
fn encrypted_entry_with_short_key_fails() {
    let out = transform_entry(&entry("b.dat", Some("short")), b"data".to_vec());
    assert_eq!(out, Err(DecryptError::KeyTooShort));
}

#[test]
fn transforming_twice_gives_identical_bytes() {
    let cipher_text = encrypt(ENTRY_KEY.as_bytes(), b"[1, 2,3]");
    let e = entry("list.json", Some(ENTRY_KEY));
    let first = transform_entry(&e, cipher_text.clone()).unwrap();
    let second = transform_entry(&e, cipher_text).unwrap();
    assert_eq!(first, second);
}

#[test]
fn two_entry_archive_scenario() {
    let payload = format!(
        "{{\"content\":[{{\"path\":\"a.json\",\"key\":null}},{{\"path\":\"b.dat\",\"key\":\"{}\"}}]}}",
        ENTRY_KEY
    );
    let record = index_record(MASTER, payload.as_bytes());
    let entries = decode_index(MASTER, &record).unwrap();
    assert_eq!(entries.len(), 2);

    let a = transform_entry(&entries[0], b"{\"x\":1}".to_vec()).unwrap();
    assert_eq!(String::from_utf8(a).unwrap(), "{\n  \"x\": 1\n}");

    let b_source = encrypt(ENTRY_KEY.as_bytes(), b"{\"y\":2}");
    let b = transform_entry(&entries[1], b_source).unwrap();
    assert_eq!(b, b"{\"y\":2}".to_vec());
}
