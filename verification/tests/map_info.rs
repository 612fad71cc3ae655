use sc2_replay_utils::map_image::map_info::{parse, MapInfoError};

/// Ruby Rock LE: width=184, height=176, playable=(21,13)-(163,151).
fn ruby_rock_fixture() -> Vec<u8> {
    let mut b = Vec::new();
    b.extend_from_slice(b"IpaM");
    b.extend_from_slice(&27u32.to_le_bytes());
    b.extend_from_slice(&80201u32.to_le_bytes());
    b.extend_from_slice(&0u32.to_le_bytes());
    b.extend_from_slice(&184u32.to_le_bytes());
    b.extend_from_slice(&176u32.to_le_bytes());
    b.extend_from_slice(&[
        0x01, 0x00, 0x00, 0x00, 0x01, 0x00, 0x00, 0x00, 0x00, 0x00, 0x01, 0x00, 0x00, 0x00, 0x00,
        0x00, 0x00, 0x00,
    ]);
    b.extend_from_slice(b"Dark\0");
    b.extend_from_slice(b"ShadowCorpsPlatform\0");
    b.extend_from_slice(&21u32.to_le_bytes());
    b.extend_from_slice(&13u32.to_le_bytes());
    b.extend_from_slice(&163u32.to_le_bytes());
    b.extend_from_slice(&151u32.to_le_bytes());
    b
}

#[test]
fn parses_known_map() {
    let info = parse(&ruby_rock_fixture()).unwrap();
    assert_eq!(info.width, 184);
    assert_eq!(info.height, 176);
    assert_eq!(info.playable_min_x, 21);
    assert_eq!(info.playable_min_y, 13);
    assert_eq!(info.playable_max_x, 163);
    assert_eq!(info.playable_max_y, 151);
}

#[test]
fn rejects_bad_magic() {
    let mut b = ruby_rock_fixture();
    b[0] = b'X';
    assert!(parse(&b).is_err());
    assert_eq!(parse(&b), Err(MapInfoError::BadMagic(88, 112, 97, 77)));
}

#[test]
fn rejects_truncated() {
    let b = ruby_rock_fixture();
    assert!(parse(&b[..30]).is_err());
    assert_eq!(parse(&b[..30]), Err(MapInfoError::TooShort(30)));
}

#[test]
fn rejects_implausible_dims() {
    let mut b = ruby_rock_fixture();
    b[0x10..0x14].copy_from_slice(&0u32.to_le_bytes());
    assert!(parse(&b).is_err());
    assert_eq!(parse(&b), Err(MapInfoError::ImplausibleDimensions(0, 176)));
}

#[test]
fn rejects_playable_outside_grid() {
    let mut b = ruby_rock_fixture();
    let pos = b.len() - 8;
    b[pos..pos + 4].copy_from_slice(&500u32.to_le_bytes());
    assert!(parse(&b).is_err());
    assert_eq!(parse(&b), Err(MapInfoError::ImplausiblePlayableRect(21, 13, 500, 151, 184, 176)));
}

#[test]
fn rejects_unterminated_string() {
    let mut b = ruby_rock_fixture();
    b.truncate(0x2a + 16);
    for byte in b[0x2a..].iter_mut() {
        *byte = b'a';
    }
    assert_eq!(parse(&b), Err(MapInfoError::UnterminatedCString));
}

#[test]
fn rejects_non_utf8_string() {
    let mut b = ruby_rock_fixture();
    b[0x2a] = 0xff;
    assert_eq!(parse(&b), Err(MapInfoError::CStringNotUtf8));
}

#[test]
fn rejects_truncated_before_playable_area() {
    let mut b = ruby_rock_fixture();
    let len = b.len();
    b.truncate(len - 4);
    assert_eq!(parse(&b), Err(MapInfoError::TruncatedBeforePlayableArea));
}

#[test]
fn rejects_empty_playable_rect() {
    let mut b = ruby_rock_fixture();
    let pos = b.len() - 8;
    b[pos..pos + 4].copy_from_slice(&21u32.to_le_bytes());
    assert_eq!(parse(&b), Err(MapInfoError::ImplausiblePlayableRect(21, 13, 21, 151, 184, 176)));
}

#[test]
fn accepts_dimension_bounds() {
    let mut b = ruby_rock_fixture();
    b[0x10..0x14].copy_from_slice(&512u32.to_le_bytes());
    b[0x14..0x18].copy_from_slice(&176u32.to_le_bytes());
    assert_eq!(parse(&b).unwrap().width, 512);
    b[0x10..0x14].copy_from_slice(&513u32.to_le_bytes());
    assert_eq!(parse(&b), Err(MapInfoError::ImplausibleDimensions(513, 176)));
}

#[test]
fn map_info_error_messages_carry_the_values() {
    assert_eq!(MapInfoError::TooShort(30).message(), "MapInfo: too short (30 bytes)");
    assert_eq!(MapInfoError::BadMagic(88, 112, 97, 77).message(), "MapInfo: bad magic [88, 112, 97, 77]");
    assert_eq!(MapInfoError::ImplausibleDimensions(0, 176).message(), "MapInfo: implausible dimensions 0x176");
    assert_eq!(
        MapInfoError::ImplausiblePlayableRect(21, 13, 500, 151, 184, 176).message(),
        "MapInfo: implausible playable rect (21,13)-(500,151) inside 184x176"
    );
    assert_eq!(MapInfoError::UnterminatedCString.message(), "MapInfo: unterminated cstring");
}
