use std::path::PathBuf;

use sc2_replay_utils::map_image::locator::{
    cache_handle_hashes, cache_handle_to_path, cache_shard_parts, decode_hex_ascii,
    parse_cache_handle,
};

#[test]
fn parses_real_cache_handle() {
    let handle = format!(
        "{ext}{delim}{region}{hash}",
        ext = "73326d61",
        delim = "0000",
        region = "4555",
        hash = "abcdef0123456789".repeat(4),
    );
    assert_eq!(handle.len(), 80);
    let (ext, hash) = parse_cache_handle(&handle).expect("parse");
    assert_eq!(ext, "s2ma");
    assert_eq!(hash.len(), 64);
    assert!(hash.chars().all(|c| c.is_ascii_hexdigit()));
}

#[test]
fn rejects_handle_wrong_length() {
    assert!(parse_cache_handle("abc").is_none());
    assert!(parse_cache_handle(&"a".repeat(79)).is_none());
    assert!(parse_cache_handle(&"a".repeat(81)).is_none());
}

#[test]
fn rejects_handle_with_non_hex_hash() {
    let handle = format!("73326d6100004555{}", "z".repeat(64));
    assert!(parse_cache_handle(&handle).is_none());
}

#[test]
fn cache_handle_to_path_shards_correctly() {
    let root = PathBuf::from(r"C:\Cache");
    let hash = "abcdef0123456789".repeat(4);
    let path = cache_handle_to_path(&root, &hash);
    assert_eq!(path, root.join("ab").join("cd").join(format!("{hash}.s2ma")));
}

#[test]
fn decode_hex_ascii_works() {
    assert_eq!(decode_hex_ascii("73326d61").as_deref(), Some("s2ma"));
    assert_eq!(decode_hex_ascii("45550000").as_deref(), Some("EU"));
    assert!(decode_hex_ascii("zz").is_none());
    assert!(decode_hex_ascii("733").is_none());
}

#[test]
fn decode_hex_ascii_rejects_control_bytes_and_accepts_plus_sign() {
    // 0x01 is neither printable nor NUL.
    assert!(decode_hex_ascii("01").is_none());
    // "+5" reads as 5 (a leading plus sign), which is a control byte.
    assert!(decode_hex_ascii("+5").is_none());
    // Upper-case hex digits decode too.
    assert_eq!(decode_hex_ascii("4A").as_deref(), Some("J"));
    assert_eq!(decode_hex_ascii("").as_deref(), Some(""));
}

#[test]
fn parse_lowercases_the_hash() {
    let handle = format!("73326d6100004555{}", "ABCDEF0123456789".repeat(4));
    let (_, hash) = parse_cache_handle(&handle).expect("parse");
    assert_eq!(hash, "abcdef0123456789".repeat(4));
}

#[test]
fn hashes_keep_only_s2ma_handles_in_order() {
    let h1 = format!("73326d6100004555{}", "1".repeat(64));
    let other = format!("73326d6f00004555{}", "2".repeat(64));
    let bad = "short".to_string();
    let h2 = format!("73326d6100004555{}", "3".repeat(64));
    let hashes = cache_handle_hashes(&[h1, other, bad, h2]);
    assert_eq!(hashes, vec!["1".repeat(64), "3".repeat(64)]);
}

#[test]
fn shard_parts_split_the_hash() {
    let (a, b, c) = cache_shard_parts("abcdef");
    assert_eq!((a.as_str(), b.as_str(), c.as_str()), ("ab", "cd", "abcdef.s2ma"));
}

#[test]
fn hex_of_printable_ascii_reads_back() {
    let text = "Hello, World! ~ {s2ma}";
    let hex: String = text.bytes().map(|b| format!("{b:02x}")).collect();
    assert_eq!(decode_hex_ascii(&hex).as_deref(), Some(text));
}
