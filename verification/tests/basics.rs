use humanize_plugin::hash::{fnv1a_hash, frame_all, sha256_hex_text, FNV_OFFSET_BASIS};
use humanize_plugin::json::{compact, parse_json, pretty, Fields, Json};
use humanize_plugin::number::{
    decimal_text, hex_text, hex_u64_text, read_i32, read_u64, signed_decimal_text,
};
use humanize_plugin::split::{has_only_names, join_path, path_parent, split};
use humanize_plugin::table::Table;
use humanize_plugin::text::{blank, ends_with, starts_with, strip_prefix, trim};

#[test]
fn white_space_is_trimmed_at_both_ends() {
    assert_eq!(trim(" \t two words\u{3000}\n"), "two words");
    assert_eq!(trim(trim("  a  ")), trim("  a  "));
    assert!(blank(" \u{85}\u{a0}\n"));
    assert!(!blank(" x "));
    assert_eq!(trim(" \n "), "");
}

#[test]
fn prefixes_and_suffixes_are_found() {
    assert!(starts_with("codex_session", "codex_"));
    assert!(!starts_with("code", "codex_"));
    assert!(ends_with("flow.json", ".json"));
    assert_eq!(strip_prefix("ab-cd", "ab"), Some("-cd"));
    assert_eq!(strip_prefix("ab", "abc"), None);
}

#[test]
fn decimal_numbers_read_back() {
    for n in [0u64, 7, 10, 65_536, u64::MAX] {
        assert_eq!(read_u64(&decimal_text(n)), Some(n));
    }
    assert_eq!(decimal_text(1_205), "1205");
    assert_eq!(signed_decimal_text(-42), "-42");
    assert_eq!(signed_decimal_text(i64::MIN), "-9223372036854775808");
    assert_eq!(read_u64("18446744073709551616"), None);
    assert_eq!(read_u64("+5"), Some(5));
    assert_eq!(read_u64(""), None);
    assert_eq!(read_u64("5x"), None);
}

#[test]
fn signed_numbers_are_read_within_their_range() {
    assert_eq!(read_i32("-2147483648"), Some(i32::MIN));
    assert_eq!(read_i32("-2147483649"), None);
    assert_eq!(read_i32("2147483647"), Some(i32::MAX));
    assert_eq!(read_i32("2147483648"), None);
    assert_eq!(read_i32("+3"), Some(3));
    assert_eq!(read_i32("-+3"), None);
    assert_eq!(read_i32("-"), None);
    assert_eq!(read_i32("-0"), Some(0));
}

#[test]
fn bytes_are_written_in_hexadecimal() {
    assert_eq!(hex_text(&[0, 15, 16, 255]), "000f10ff");
    assert_eq!(hex_u64_text(0xabc), "0000000000000abc");
}

#[test]
fn strings_are_cut_at_separators() {
    assert_eq!(split("a/b//c", '/'), vec!["a", "b", "", "c"]);
    assert_eq!(split("", '/'), vec![""]);
    assert_eq!(split("a/b//c", '/').join("/"), "a/b//c");
}

#[test]
fn paths_are_joined_and_looked_at() {
    assert_eq!(join_path("/runs", "r1"), "/runs/r1");
    assert_eq!(join_path("/runs/", "r1"), "/runs/r1");
    assert_eq!(join_path("/runs", "/abs"), "/abs");
    assert_eq!(join_path("", "r1"), "r1");
    assert_eq!(path_parent("/a/b"), Some("/a".to_string()));
    assert_eq!(path_parent("a"), Some(String::new()));
    assert_eq!(path_parent("/"), None);
    assert!(has_only_names("a/b.json"));
    assert!(!has_only_names("a/../b"));
    assert!(!has_only_names("/a"));
    assert!(!has_only_names("./a"));
}

#[test]
fn sha256_digests_are_those_of_the_standard() {
    assert_eq!(
        sha256_hex_text(b"abc"),
        "ba7816bf8f01cfea414140de5dae2223b00361a396177a9cb410ff61f20015ad"
    );
}

#[test]
fn fnv_hashes_in_two_steps_or_one() {
    assert_eq!(fnv1a_hash(FNV_OFFSET_BASIS, b""), 0xcbf29ce484222325);
    assert_eq!(fnv1a_hash(FNV_OFFSET_BASIS, b"foobar"), 0x85944171f73967e8);
    let half = fnv1a_hash(FNV_OFFSET_BASIS, b"foo");
    assert_eq!(fnv1a_hash(half, b"bar"), fnv1a_hash(FNV_OFFSET_BASIS, b"foobar"));
}

#[test]
fn frames_tell_texts_apart() {
    assert_eq!(frame_all(&["a"]), vec![0, 0, 0, 0, 0, 0, 0, 1, 97]);
    assert_ne!(frame_all(&["ab", "c"]), frame_all(&["a", "bc"]));
}

#[test]
fn json_is_read_and_printed() {
    let value = parse_json("{\"b\": [1, -2, null, true], \"a\": \"x\\n\"}").unwrap();
    assert_eq!(compact(&value), "{\"b\":[1,-2,null,true],\"a\":\"x\\n\"}");
    assert_eq!(value.text_at("a"), Some("x\n"));
    assert_eq!(value.get("b").unwrap().as_list().unwrap().len(), 4);
    assert_eq!(value.get("b").unwrap().as_list().unwrap()[1].as_i64(), Some(-2));
    assert!(value.get("c").is_none());
    let again = parse_json(&compact(&value)).unwrap();
    assert_eq!(compact(&again), compact(&value));
}

#[test]
fn json_that_is_malformed_gives_the_message_of_the_reader() {
    let message = parse_json("{\"a\": }").unwrap_err();
    assert!(message.contains("expected value"));
    assert!(parse_json("").is_err());
}

#[test]
fn json_is_printed_over_lines() {
    let value = Fields::new().put("a", Json::Unsigned(1)).done();
    assert_eq!(pretty(&value), "{\n  \"a\": 1\n}");
}

#[test]
fn json_keeps_fractions_as_they_are() {
    let value = parse_json("1.5").unwrap();
    assert_eq!(compact(&value), "1.5");
    assert_eq!(value.as_u64(), None);
}

#[test]
fn json_fields_are_set_and_taken_away() {
    let value = Fields::new().put("a", Json::Unsigned(1)).put("b", Json::text("x")).done();
    let set = value.with("a", Json::Bool(true));
    assert_eq!(set.flag_at("a"), Some(true));
    assert_eq!(set.text_at("b"), Some("x"));
    let gone = set.without("a");
    assert!(gone.get("a").is_none());
    assert_eq!(gone.text_at("b"), Some("x"));
}

#[test]
fn tables_keep_their_keys_in_order() {
    let mut table: Table<String, u64> = Table::new();
    table.insert("b".to_string(), 2);
    table.insert("a".to_string(), 1);
    table.insert("c".to_string(), 3);
    table.insert("b".to_string(), 20);
    assert_eq!(table.len(), 3);
    assert_eq!(table.key_at(0), "a");
    assert_eq!(table.key_at(2), "c");
    assert_eq!(table.get(&"b".to_string()), Some(&20));
    assert_eq!(table.remove(&"b".to_string()), Some(20));
    assert!(!table.contains_key(&"b".to_string()));
    assert_eq!(table.remove(&"b".to_string()), None);
}
