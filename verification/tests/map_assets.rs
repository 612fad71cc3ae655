use sc2_replay_utils::map_image::archive::headers_ok;
use sc2_replay_utils::map_image::decode::{TgaError, HEADER_LEN};
use sc2_replay_utils::map_image::locator::{first_stem_match, is_map_extension};
use sc2_replay_utils::map_image::map_info::parse;
use sc2_replay_utils::map_image::objects::{extract_attr, start_loc_positions};
use sc2_replay_utils::map_image::{
    assets_from_archive, assets_from_files, first_load_step, next_load_step, start_positions, AssetError, LoadStep,
};

fn tga(width: u16, height: u16, pixels_bgra: &[u8]) -> Vec<u8> {
    let mut h = vec![0u8; HEADER_LEN];
    h[2] = 2;
    h[12..14].copy_from_slice(&width.to_le_bytes());
    h[14..16].copy_from_slice(&height.to_le_bytes());
    h[16] = 32;
    h[17] = 0b0010_0000;
    h.extend_from_slice(pixels_bgra);
    h
}

fn map_info_bytes(w: u32, h: u32, rect: [u32; 4], tileset: &[u8], planet: &[u8]) -> Vec<u8> {
    let mut b = Vec::new();
    b.extend_from_slice(b"IpaM");
    b.extend_from_slice(&[7u8; 12]);
    b.extend_from_slice(&w.to_le_bytes());
    b.extend_from_slice(&h.to_le_bytes());
    b.extend_from_slice(&[0xffu8; 18]);
    b.extend_from_slice(tileset);
    b.push(0);
    b.extend_from_slice(planet);
    b.push(0);
    for v in rect {
        b.extend_from_slice(&v.to_le_bytes());
    }
    b
}

#[test]
fn map_info_reads_back_what_the_layout_holds() {
    let b = map_info_bytes(256, 32, [0, 1, 256, 32], b"", "Char\u{e9}".as_bytes());
    let info = parse(&b).unwrap();
    assert_eq!((info.width, info.height), (256, 32));
    assert_eq!(
        (info.playable_min_x, info.playable_min_y, info.playable_max_x, info.playable_max_y),
        (0, 1, 256, 32)
    );
}

#[test]
fn assets_require_a_minimap() {
    assert_eq!(assets_from_files(&[], None).err(), Some(AssetError::EmptyMinimap));
    assert_eq!(assets_from_files(&[1, 2, 3], None).err(), Some(AssetError::Tga(TgaError::TooShort(3))));
}

#[test]
fn assets_crop_and_keep_info_best_effort() {
    // 6x6 image, content only in the inner 4x4 block (value 50 in blue).
    let mut px = Vec::new();
    for y in 0..6 {
        for x in 0..6 {
            let inside = (1..5).contains(&x) && (1..5).contains(&y);
            px.extend_from_slice(&[if inside { 50 } else { 0 }, 0, 0, 255]);
        }
    }
    let minimap = tga(6, 6, &px);
    let info = map_info_bytes(184, 176, [21, 13, 163, 151], b"Dark", b"Slayn");
    let (img, parsed) = assets_from_files(&minimap, Some(&info)).unwrap();
    assert_eq!((img.width, img.height), (4, 4));
    assert_eq!(&img.rgba[0..4], &[0, 0, 50, 255]);
    assert_eq!(parsed.map(|i| i.playable_max_x), Some(163));
    let (_, none) = assets_from_files(&minimap, Some(b"garbage")).unwrap();
    assert!(none.is_none());
    let (_, absent) = assets_from_files(&minimap, None).unwrap();
    assert!(absent.is_none());
}

#[test]
fn map_extensions_any_case() {
    assert!(is_map_extension("SC2Map"));
    assert!(is_map_extension("sc2map"));
    assert!(is_map_extension("S2MA"));
    assert!(!is_map_extension("SC2Replay"));
    assert!(!is_map_extension(""));
}

#[test]
fn first_stem_match_first_wins_case_insensitive() {
    let stems = vec![None, Some("Other Map".to_string()), Some("pylon pasture le".to_string()), Some("Pylon Pasture LE".to_string())];
    assert_eq!(first_stem_match(&stems, "Pylon Pasture LE"), Some(2));
    assert_eq!(first_stem_match(&stems, "Missing"), None);
    assert_eq!(first_stem_match(&stems, ""), None);
}

#[test]
fn extract_attr_reads_quoted_values() {
    let line = r#"<ObjectPoint Id="1" Position="46.5,133.5,0" Type="StartLoc"/>"#;
    assert_eq!(extract_attr(line, "Position").as_deref(), Some("46.5,133.5,0"));
    assert_eq!(extract_attr(line, "Type").as_deref(), Some("StartLoc"));
    assert_eq!(extract_attr(line, "Rotation"), None);
    assert_eq!(extract_attr(r#"<X Position="1,2"#, "Position"), None);
}

#[test]
fn start_location_positions_in_order() {
    let xml = "<?xml version=\"1.0\"?>\r\n<ObjectDoodad Type=\"Decal\" Position=\"141,66,9.999\"/>\r\n<ObjectPoint Position=\"46.5,133.5,0\" Type=\"StartLoc\"/>\r\n<ObjectPoint Type=\"StartLoc\"/>\n<ObjectPoint Position=\"137.5,30.5,0\" Type=\"StartLoc\"/>";
    assert_eq!(start_loc_positions(xml), vec!["46.5,133.5,0".to_string(), "137.5,30.5,0".to_string()]);
    assert!(start_loc_positions("").is_empty());
    assert!(start_loc_positions("<PlacedObjects><ObjectDoodad Position=\"1,2,0\"/></PlacedObjects>").is_empty());
}

/// The start points of position texts, as floats (the parse that reads
/// the coordinates stays outside the library).
fn points(positions: &[String]) -> Vec<(f32, f32)> {
    positions
        .iter()
        .filter_map(|p| {
            let mut parts = p.split(',');
            let x: f32 = parts.next()?.trim().parse().ok()?;
            let y: f32 = parts.next()?.trim().parse().ok()?;
            Some((x, y))
        })
        .collect()
}

#[test]
fn parses_start_locations_from_xml() {
    let xml = r#"<?xml version="1.0" encoding="utf-8"?>
<PlacedObjects Version="27">
    <ObjectDoodad Id="385588688" Type="Decal" Position="141,66,9.999"/>
    <ObjectPoint Id="1130421289" Position="46.5,133.5,0" Scale="1,1,1" Type="StartLoc" Name="Start Location 001" Color="0,0,0,0"/>
    <ObjectPoint Id="705445512" Position="137.5,30.5,0" Rotation="3.1413" Scale="1,1,1" Type="StartLoc" Name="Start Location 002" Color="0,0,0,0"/>
    <ObjectPoint Id="111" Position="80,80,0" Type="OtherKind"/>
</PlacedObjects>"#;
    let pts = points(&start_positions(xml.as_bytes()));
    assert_eq!(pts.len(), 2);
    assert!((pts[0].0 - 46.5).abs() < 0.001);
    assert!((pts[0].1 - 133.5).abs() < 0.001);
    assert!((pts[1].0 - 137.5).abs() < 0.001);
    assert!((pts[1].1 - 30.5).abs() < 0.001);
}

#[test]
fn empty_when_no_start_locs() {
    let xml = r#"<PlacedObjects><ObjectDoodad Position="1,2,0"/></PlacedObjects>"#;
    assert!(points(&start_positions(xml.as_bytes())).is_empty());
}

#[test]
fn malformed_lines_skipped() {
    let xml = r#"<ObjectPoint Type="StartLoc"/>
<ObjectPoint Type="StartLoc" Position="abc,def,0"/>
<ObjectPoint Type="StartLoc" Position="10.5,20.5,0"/>"#;
    let positions = start_positions(xml.as_bytes());
    assert_eq!(positions, vec!["abc,def,0".to_string(), "10.5,20.5,0".to_string()]);
    let pts = points(&positions);
    assert_eq!(pts.len(), 1);
    assert!((pts[0].0 - 10.5).abs() < 0.001);
}

#[test]
fn start_positions_read_invalid_utf8_lossily() {
    let mut bytes = b"<ObjectPoint Type=\"StartLoc\" Position=\"1.5,2.5,0\" Name=\"".to_vec();
    bytes.push(0xff);
    bytes.extend_from_slice(b"\"/>\n<ObjectPoint Position=\"3,4,0\" Type=\"StartLoc\"/>");
    assert_eq!(start_positions(&bytes), vec!["1.5,2.5,0".to_string(), "3,4,0".to_string()]);
}

#[test]
fn archive_that_is_not_an_mpq_gives_no_minimap() {
    let stub = b"Standard Data: Core.SC2Mod".to_vec();
    assert_eq!(assets_from_archive(&stub).err(), Some(AssetError::MinimapUnreadable));
    assert_eq!(assets_from_archive(&[]).err(), Some(AssetError::MinimapUnreadable));
}

#[test]
fn asset_error_messages() {
    assert_eq!(AssetError::EmptyMinimap.message(), "Minimap.tga vazio ou ausente no MPQ");
    assert_eq!(AssetError::Tga(TgaError::TooShort(3)).message(), "TGA muito curto: 3 bytes");
}

#[test]
fn load_tries_handles_in_order_then_title() {
    let mut steps = vec![first_load_step(2)];
    for _ in 0..3 {
        let s = next_load_step(*steps.last().unwrap(), 2);
        steps.push(s);
    }
    assert_eq!(
        steps,
        vec![LoadStep::CacheHandle(0), LoadStep::CacheHandle(1), LoadStep::Title, LoadStep::GiveUp]
    );
    assert_eq!(first_load_step(0), LoadStep::Title);
}

/// A bare archive header (`MPQ\x1a`) with the given table offsets and sizes.
fn archive_header(hash_off: u32, block_off: u32, hash_entries: u32, block_entries: u32, len: usize) -> Vec<u8> {
    let mut b = vec![0u8; len];
    b[0..4].copy_from_slice(b"MPQ\x1a");
    b[4..8].copy_from_slice(&44u32.to_le_bytes());
    b[8..12].copy_from_slice(&(len as u32).to_le_bytes());
    b[14..16].copy_from_slice(&3u16.to_le_bytes());
    b[16..20].copy_from_slice(&hash_off.to_le_bytes());
    b[20..24].copy_from_slice(&block_off.to_le_bytes());
    b[24..28].copy_from_slice(&hash_entries.to_le_bytes());
    b[28..32].copy_from_slice(&block_entries.to_le_bytes());
    b
}

#[test]
fn archive_layout_is_checked_before_reading() {
    assert!(headers_ok(&archive_header(44, 60, 1, 1, 76)));
    // Hash table past the end: the reader would slice outside the archive.
    let bad = archive_header(0x7fff_0000, 60, 1, 1, 76);
    assert!(!headers_ok(&bad));
    assert_eq!(assets_from_archive(&bad).err(), Some(AssetError::MinimapUnreadable));
    // A user-data header pointing at something that is not an archive header.
    let mut ud = vec![0u8; 64];
    ud[0..4].copy_from_slice(b"MPQ\x1b");
    ud[8..12].copy_from_slice(&32u32.to_le_bytes());
    ud[12..16].copy_from_slice(&4u32.to_le_bytes());
    ud[32..36].copy_from_slice(b"MPQ\x1b");
    assert!(!headers_ok(&ud));
    assert_eq!(assets_from_archive(&ud).err(), Some(AssetError::MinimapUnreadable));
    // Block table running past the end.
    assert!(!headers_ok(&archive_header(44, 60, 1, 2, 76)));
}

#[test]
fn consistent_empty_archive_reads_no_minimap() {
    // Layout inside the bytes; the (garbage) tables name no member.
    let a = archive_header(44, 60, 1, 1, 76);
    assert_eq!(assets_from_archive(&a).err(), Some(AssetError::MinimapUnreadable));
}
