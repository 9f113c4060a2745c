use ledger_engine::codec::{canonicalize, digest, record_digest, verify_hash, write_json};
use ledger_engine::json::{Json, Member};
use ledger_engine::text::{matches_ignoring_case, same_text, to_lower};

fn member(key: &str, value: Json) -> Member {
    Member { key: key.to_string(), value }
}

fn text(s: &str) -> Json {
    Json::Text(s.to_string())
}

fn written(value: &Json) -> String {
    let mut out = Vec::new();
    write_json(value, &mut out);
    String::from_utf8(out).unwrap()
}

fn record(predecessor: &str, difficulty: u64, nonce: u64, hash: &str) -> Json {
    Json::Object(vec![
        member("difficulty", Json::Unsigned(difficulty)),
        member("hash", text(hash)),
        member("nonce", Json::Unsigned(nonce)),
        member("predecessor", text(predecessor)),
        member("transactions", Json::Array(vec![])),
    ])
}

const INIT_HASH: &str = "0x71c9bfaf1175b875ba1f7d4b02f3b5b1e7153395743f91717babf0ca74955329";

#[test]
fn digest_of_abc_is_the_known_sha256() {
    assert_eq!(
        digest(b"abc"),
        "0xba7816bf8f01cfea414140de5dae2223b00361a396177a9cb410ff61f20015ad"
    );
}

#[test]
fn digest_of_nothing_is_the_known_sha256() {
    assert_eq!(
        digest(b""),
        "0xe3b0c44298fc1c149afbf4c8996fb92427ae41e4649b934ca495991b7852b855"
    );
}

#[test]
fn digest_is_the_same_for_the_same_bytes() {
    assert_eq!(digest(b"[\"\",[],0,0]"), digest(b"[\"\",[],0,0]"));
    assert_eq!(digest(b"[\"\",[],0,0]"), INIT_HASH);
    assert_ne!(digest(b"[\"\",[],0,0]"), digest(b"[\"\",[],0,1]"));
}

#[test]
fn canonicalize_frames_the_four_fields() {
    let bytes = canonicalize(&text(""), &Json::Array(vec![]), &Json::Unsigned(0), &Json::Unsigned(0));
    assert_eq!(bytes, b"[\"\",[],0,0]".to_vec());
}

#[test]
fn canonicalize_quotes_and_escapes_strings() {
    let bytes = canonicalize(
        &text("a\"b\\c\n"),
        &Json::Array(vec![]),
        &Json::Unsigned(7),
        &Json::Unsigned(10),
    );
    assert_eq!(String::from_utf8(bytes).unwrap(), "[\"a\\\"b\\\\c\\n\",[],7,10]");
}

#[test]
fn canonicalize_keeps_text_beyond_ascii() {
    let bytes = canonicalize(&text("é"), &Json::Array(vec![]), &Json::Unsigned(0), &Json::Unsigned(0));
    assert_eq!(String::from_utf8(bytes.clone()).unwrap(), "[\"é\",[],0,0]");
    assert_eq!(
        digest(&bytes),
        "0xbb11774df7e0fed378b20af4f99459e6dd99a017adf02fa07f652186126031c4"
    );
}

#[test]
fn numbers_are_written_in_base_ten() {
    assert_eq!(written(&Json::Unsigned(0)), "0");
    assert_eq!(written(&Json::Unsigned(10)), "10");
    assert_eq!(written(&Json::Unsigned(4294967296)), "4294967296");
    assert_eq!(written(&Json::Unsigned(u64::MAX)), "18446744073709551615");
    assert_eq!(written(&Json::Signed(-5)), "-5");
    assert_eq!(written(&Json::Signed(i64::MIN)), "-9223372036854775808");
    assert_eq!(written(&Json::Signed(12)), "12");
    assert_eq!(written(&Json::Real("1.5".to_string())), "1.5");
}

#[test]
fn words_are_written_as_they_are() {
    assert_eq!(written(&Json::Null), "null");
    assert_eq!(written(&Json::Bool(true)), "true");
    assert_eq!(written(&Json::Bool(false)), "false");
}

#[test]
fn arrays_and_objects_are_written_compactly() {
    assert_eq!(written(&Json::Array(vec![])), "[]");
    assert_eq!(written(&Json::Object(vec![])), "{}");
    assert_eq!(written(&Json::Array(vec![Json::Unsigned(1)])), "[1]");
    let value = Json::Object(vec![
        member("b", Json::Array(vec![Json::Unsigned(1), Json::Null, text("x")])),
        member("a", Json::Object(vec![member("k\"", Json::Bool(false))])),
    ]);
    assert_eq!(written(&value), "{\"b\":[1,null,\"x\"],\"a\":{\"k\\\"\":false}}");
}

#[test]
fn write_json_appends_to_what_is_there() {
    let mut out = b"x=".to_vec();
    write_json(&Json::Array(vec![Json::Unsigned(1), Json::Unsigned(2)]), &mut out);
    assert_eq!(out, b"x=[1,2]".to_vec());
}

#[test]
fn record_digest_is_made_of_the_four_fields() {
    assert_eq!(record_digest(&record("", 0, 0, "anything")), Some(INIT_HASH.to_string()));
    assert_eq!(
        record_digest(&record("", 0, 1, "")),
        Some("0xe7b13d9b509332b9767ce98f39e8bb28174a8b05dfc2bbed5851649ab6763460".to_string())
    );
}

#[test]
fn record_digest_ignores_what_else_a_record_holds() {
    let plain = record("", 0, 0, INIT_HASH);
    let more = Json::Object(vec![
        member("note", text("not hashed")),
        member("transactions", Json::Array(vec![])),
        member("predecessor", text("")),
        member("nonce", Json::Unsigned(0)),
        member("difficulty", Json::Unsigned(0)),
    ]);
    assert_eq!(record_digest(&plain), record_digest(&more));
}

#[test]
fn record_digest_needs_all_four_fields() {
    let missing = Json::Object(vec![
        member("difficulty", Json::Unsigned(0)),
        member("nonce", Json::Unsigned(0)),
        member("predecessor", text("")),
    ]);
    assert_eq!(record_digest(&missing), None);
    assert_eq!(record_digest(&Json::Null), None);
}

#[test]
fn verify_hash_accepts_the_digest() {
    assert!(verify_hash(&record("", 0, 0, INIT_HASH)));
}

#[test]
fn verify_hash_does_not_mind_the_case_of_letters() {
    assert!(verify_hash(&record("", 0, 0, &INIT_HASH.to_uppercase())));
    assert!(verify_hash(&record(
        "",
        0,
        0,
        "0x71C9BFAF1175b875ba1f7d4b02f3b5b1e7153395743f91717babf0ca74955329"
    )));
}

#[test]
fn verify_hash_fails_closed() {
    assert!(!verify_hash(&record("", 0, 1, INIT_HASH)));
    assert!(!verify_hash(&record("", 0, 0, "")));
    assert!(!verify_hash(&record("", 0, 0, &INIT_HASH[2..])));
    assert!(!verify_hash(&Json::Null));
    let hash_is_a_number = Json::Object(vec![
        member("difficulty", Json::Unsigned(0)),
        member("hash", Json::Unsigned(71)),
        member("nonce", Json::Unsigned(0)),
        member("predecessor", text("")),
        member("transactions", Json::Array(vec![])),
    ]);
    assert!(!verify_hash(&hash_is_a_number));
    let no_hash = Json::Object(vec![
        member("difficulty", Json::Unsigned(0)),
        member("nonce", Json::Unsigned(0)),
        member("predecessor", text("")),
        member("transactions", Json::Array(vec![])),
    ]);
    assert!(!verify_hash(&no_hash));
}

#[test]
fn get_finds_the_first_member_of_a_key() {
    let value = Json::Object(vec![
        member("a", Json::Unsigned(1)),
        member("b", Json::Unsigned(2)),
        member("a", Json::Unsigned(3)),
    ]);
    assert_eq!(value.get("a"), Some(&Json::Unsigned(1)));
    assert_eq!(value.get("b"), Some(&Json::Unsigned(2)));
    assert_eq!(value.get("c"), None);
    assert_eq!(Json::Array(vec![]).get("a"), None);
}

#[test]
fn same_text_compares_character_by_character() {
    assert!(same_text("", ""));
    assert!(same_text("state", "state"));
    assert!(!same_text("state", "State"));
    assert!(!same_text("state", "states"));
    assert!(same_text("é", "é"));
}

#[test]
fn matches_ignoring_case_folds_ascii_letters_only() {
    assert!(matches_ignoring_case("0xAbCd", "0XaBcD"));
    assert!(!matches_ignoring_case("0xabcd", "0xabce"));
    assert!(!matches_ignoring_case("0xabcd", "0xabc"));
    assert!(!matches_ignoring_case("É", "é"));
    assert_eq!(to_lower(b'A'), b'a');
    assert_eq!(to_lower(b'Z'), b'z');
    assert_eq!(to_lower(b'a'), b'a');
    assert_eq!(to_lower(b'@'), b'@');
    assert_eq!(to_lower(b'['), b'[');
}
