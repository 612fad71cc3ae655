use sc2_replay_utils::map_image::decode::{decode_tga, TgaError, HEADER_LEN};

fn header(width: u16, height: u16, image_type: u8, bpp: u8, top_origin: bool) -> Vec<u8> {
    let mut h = vec![0u8; HEADER_LEN];
    h[2] = image_type;
    h[12..14].copy_from_slice(&width.to_le_bytes());
    h[14..16].copy_from_slice(&height.to_le_bytes());
    h[16] = bpp;
    h[17] = if top_origin { 0b0010_0000 } else { 0 };
    h
}

#[test]
fn decodes_uncompressed_32bpp_top_origin() {
    let mut bytes = header(2, 1, 2, 32, true);
    bytes.extend_from_slice(&[255, 0, 0, 128, 0, 0, 255, 255]);
    let img = decode_tga(&bytes).expect("decode");
    assert_eq!((img.width, img.height), (2, 1));
    assert_eq!(img.rgba, vec![0, 0, 255, 128, 255, 0, 0, 255]);
}

#[test]
fn decodes_uncompressed_24bpp_bottom_origin_flips_rows() {
    let mut bytes = header(1, 2, 2, 24, false);
    bytes.extend_from_slice(&[0, 0, 255]);
    bytes.extend_from_slice(&[0, 255, 0]);
    let img = decode_tga(&bytes).expect("decode");
    assert_eq!((img.width, img.height), (1, 2));
    assert_eq!(img.rgba, vec![0, 255, 0, 255, 255, 0, 0, 255]);
}

#[test]
fn decodes_rle_run_and_raw_packets() {
    let mut bytes = header(4, 1, 10, 32, true);
    bytes.push(0x81);
    bytes.extend_from_slice(&[255, 0, 0, 255]);
    bytes.push(0x01);
    bytes.extend_from_slice(&[0, 0, 255, 255]);
    bytes.extend_from_slice(&[0, 255, 0, 255]);
    let img = decode_tga(&bytes).expect("decode");
    assert_eq!((img.width, img.height), (4, 1));
    assert_eq!(
        img.rgba,
        vec![0, 0, 255, 255, 0, 0, 255, 255, 255, 0, 0, 255, 0, 255, 0, 255],
    );
}

#[test]
fn rejects_unsupported_image_type() {
    let bytes = header(1, 1, 1, 32, true);
    assert!(decode_tga(&bytes).is_err());
}

#[test]
fn rejects_truncated_payload() {
    let mut bytes = header(2, 1, 2, 32, true);
    bytes.extend_from_slice(&[255, 0, 0, 128]);
    assert!(decode_tga(&bytes).is_err());
    assert!(matches!(decode_tga(&bytes), Err(TgaError::TruncatedPayload(8, 4))));
}

#[test]
fn rejects_each_header_problem() {
    assert!(matches!(decode_tga(&[0u8; 5]), Err(TgaError::TooShort(5))));
    let mut cm = header(1, 1, 2, 32, true);
    cm[1] = 1;
    assert!(matches!(decode_tga(&cm), Err(TgaError::ColorMapUnsupported(1))));
    assert!(matches!(decode_tga(&header(1, 1, 2, 16, true)), Err(TgaError::UnsupportedBpp(16))));
    assert!(matches!(decode_tga(&header(0, 1, 2, 32, true)), Err(TgaError::ZeroDimension(0, 1))));
    let mut id = header(1, 1, 2, 32, true);
    id[0] = 200;
    assert!(matches!(decode_tga(&id), Err(TgaError::PayloadOffsetOutOfBounds)));
}

#[test]
fn rle_errors_are_reported() {
    let bytes = header(2, 1, 10, 24, true);
    assert!(matches!(decode_tga(&bytes), Err(TgaError::RlePayloadEnded)));
    let mut run = header(2, 1, 10, 24, true);
    run.extend_from_slice(&[0x81, 1, 2]);
    assert!(matches!(decode_tga(&run), Err(TgaError::RleRunTruncated)));
    let mut raw = header(2, 1, 10, 24, true);
    raw.extend_from_slice(&[0x01, 1, 2, 3, 4]);
    assert!(matches!(decode_tga(&raw), Err(TgaError::RleRawTruncated)));
}

#[test]
fn rle_surplus_is_dropped_and_image_id_skipped() {
    // A run of 3 pixels for a 2-pixel image; an image id of 2 bytes.
    let mut bytes = header(2, 1, 10, 24, true);
    bytes[0] = 2;
    bytes.extend_from_slice(&[9, 9]);
    bytes.extend_from_slice(&[0x82, 10, 20, 30]);
    let img = decode_tga(&bytes).expect("decode");
    assert_eq!(img.rgba, vec![30, 20, 10, 255, 30, 20, 10, 255]);
}

#[test]
fn tga_error_messages_carry_the_values() {
    assert_eq!(TgaError::TooShort(5).message(), "TGA muito curto: 5 bytes");
    assert_eq!(TgaError::ZeroDimension(0, 1).message(), "TGA com dimensão zero: 0x1");
    assert_eq!(TgaError::TruncatedPayload(8, 4).message(), "TGA payload truncado: precisa 8, tem 4");
    assert_eq!(TgaError::UnsupportedImageType(1).message(), "TGA image type não suportado: 1");
    assert_eq!(TgaError::RleRawTruncated.message(), "TGA RLE: pacote raw truncado");
    let bytes = header(1, 1, 1, 32, true);
    assert_eq!(decode_tga(&bytes).unwrap_err(), TgaError::UnsupportedImageType(1));
}
