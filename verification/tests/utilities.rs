use rurix_render::bytes::{
    count_occurrences, find_bytes, order_bytes, read_u32_le, read_u64_le, words_to_le_bytes,
    KeyOrder,
};
use rurix_render::digest::{lower_hex, sha256_digest};
use rurix_render::display::post_chain::Stage;
use rurix_render::display::view_transform::{DisplayError, ViewTransformRegistry};
use rurix_render::report::{json_escape, json_str};
use rurix_render::text::{decimal_string, join_strs};

#[test]
fn decimal_notation() {
    assert_eq!(decimal_string(0), "0");
    assert_eq!(decimal_string(7), "7");
    assert_eq!(decimal_string(1073741824), "1073741824");
    assert_eq!(decimal_string(u64::MAX), u64::MAX.to_string());
}

#[test]
fn join_with_separator() {
    assert_eq!(join_strs(&vec![], " + "), "");
    assert_eq!(join_strs(&vec!["a"], " + "), "a");
    assert_eq!(join_strs(&vec!["a", "b", "c"], " + "), "a + b + c");
}

#[test]
fn sha256_known_value_and_hex() {
    let d = sha256_digest(b"abc");
    assert_eq!(
        lower_hex(&d),
        "ba7816bf8f01cfea414140de5dae2223b00361a396177a9cb410ff61f20015ad"
    );
    assert_eq!(lower_hex(&[0x00, 0x0f, 0xa5, 0xff]), "000fa5ff");
    assert_eq!(lower_hex(&[]), "");
}

#[test]
fn little_endian_words_roundtrip() {
    let words = [0x0302_0100u32, 0xdead_beef, 0];
    let bytes = words_to_le_bytes(&words);
    assert_eq!(&bytes[..4], &[0, 1, 2, 3]);
    assert_eq!(read_u32_le(&bytes), words.to_vec());
    // a trailing remainder is ignored
    let mut longer = bytes.clone();
    longer.push(9);
    assert_eq!(read_u32_le(&longer), words.to_vec());
    let b8 = [1u8, 0, 0, 0, 0, 0, 0, 0x80, 5];
    assert_eq!(read_u64_le(&b8), vec![0x8000_0000_0000_0001u64]);
}

#[test]
fn byte_search_and_order() {
    assert_eq!(count_occurrences(b"aaaa", b"aa"), 2);
    assert_eq!(count_occurrences(b"xabyab", b"ab"), 2);
    assert_eq!(count_occurrences(b"", b"ab"), 0);
    assert!(find_bytes(b"host-only(x)", b"host-only"));
    assert!(!find_bytes(b"host", b"host-only"));
    assert_eq!(order_bytes(b"agx", b"neutral"), KeyOrder::Before);
    assert_eq!(order_bytes(b"aces20", b"aces13"), KeyOrder::After);
    assert_eq!(order_bytes(b"aces", b"aces13"), KeyOrder::Before);
    assert_eq!(order_bytes(b"agx", b"agx"), KeyOrder::Same);
}

#[test]
fn json_escape_control_and_quote_characters() {
    assert_eq!(json_escape("a\"b\\c"), "a\\\"b\\\\c");
    assert_eq!(json_escape("\n\r\t"), "\\n\\r\\t");
    assert_eq!(json_escape("\u{1}\u{1f}"), "\\u0001\\u001f");
    assert_eq!(json_escape("显存 ok"), "显存 ok");
}

#[test]
fn json_field_read_back() {
    let band = "{\n  \"schema\": \"x.v1\",\n  \"lobe_r_digest\": \"ab12\",\n  \"n\": 3\n}";
    assert_eq!(json_str(band, "lobe_r_digest"), Some("ab12"));
    assert_eq!(json_str(band, "schema"), Some("x.v1"));
    assert_eq!(json_str(band, "n"), None);
    assert_eq!(json_str(band, "missing"), None);
    assert_eq!(json_str("\"k\": \"unterminated", "k"), None);
    assert_eq!(json_str("\"k\": \"\"", "k"), Some(""));
}

#[test]
fn registry_keeps_names_in_order_and_rejects_duplicates() {
    let mut r: ViewTransformRegistry<u32> = ViewTransformRegistry::empty();
    r.register("neutral", 4).unwrap();
    r.register("aces13", 1).unwrap();
    r.register("agx", 3).unwrap();
    r.register("aces20", 2).unwrap();
    assert_eq!(r.registered_names(), vec!["aces13", "aces20", "agx", "neutral"]);
    assert_eq!(*r.get("agx").unwrap(), 3);
    assert_eq!(*r.get("aces13").unwrap(), 1);
    match r.get("filmic-x") {
        Err(DisplayError::UnregisteredPlugin(n)) => assert_eq!(n, "filmic-x"),
        other => panic!("unexpected {other:?}"),
    }
    assert!(matches!(r.register("agx", 9), Err(DisplayError::DuplicatePlugin(n)) if n == "agx"));
    assert_eq!(*r.get("agx").unwrap(), 3);
    assert_eq!(r.registered_names().len(), 4);
}

#[test]
fn stage_order_and_names() {
    assert_eq!(Stage::ORDER.len(), 5);
    for (i, s) in Stage::ORDER.iter().enumerate() {
        assert_eq!(s.index(), i);
        assert_eq!(s.name(), Stage::NAMES[i]);
    }
    assert_eq!(Stage::Tonemap.name(), "tonemap");
}
