use sc2_replay_utils::map_image::{crop_to_content, MapImage};

#[test]
fn crop_strips_uniform_black_borders() {
    // 6x6 with a 2x2 red square in the centre: the box is under 4x4, so
    // the image comes back unchanged.
    let w = 6u32;
    let h = 6u32;
    let mut rgba = vec![0u8; (w * h * 4) as usize];
    for y in 2..4 {
        for x in 2..4 {
            let i = ((y * w + x) * 4) as usize;
            rgba[i] = 255;
            rgba[i + 1] = 0;
            rgba[i + 2] = 0;
            rgba[i + 3] = 255;
        }
    }
    let cropped = crop_to_content(MapImage { width: w, height: h, rgba });
    assert_eq!((cropped.width, cropped.height), (6, 6));
}

#[test]
fn crop_keeps_only_non_black_region() {
    let w = 10u32;
    let h = 10u32;
    let mut rgba = vec![0u8; (w * h * 4) as usize];
    for y in 2..8 {
        for x in 3..7 {
            let i = ((y * w + x) * 4) as usize;
            rgba[i] = 255;
            rgba[i + 1] = 255;
            rgba[i + 2] = 255;
            rgba[i + 3] = 255;
        }
    }
    let cropped = crop_to_content(MapImage { width: w, height: h, rgba });
    assert_eq!((cropped.width, cropped.height), (4, 6));
    for px in cropped.rgba.chunks_exact(4) {
        assert_eq!(px, &[255, 255, 255, 255]);
    }
}

#[test]
fn crop_returns_original_when_all_black() {
    let w = 8u32;
    let h = 8u32;
    let rgba = vec![0u8; (w * h * 4) as usize];
    let cropped = crop_to_content(MapImage { width: w, height: h, rgba });
    assert_eq!((cropped.width, cropped.height), (8, 8));
}

#[test]
fn crop_dark_pixels_up_to_eight_count_as_black() {
    // Channel values of 8 are still black; a 9 in blue is content.
    let w = 8u32;
    let h = 8u32;
    let mut rgba = vec![8u8; (w * h * 4) as usize];
    for y in 1..6 {
        for x in 2..7 {
            let i = ((y * w + x) * 4) as usize;
            rgba[i + 2] = 9;
        }
    }
    let cropped = crop_to_content(MapImage { width: w, height: h, rgba });
    assert_eq!((cropped.width, cropped.height), (5, 5));
    assert_eq!(cropped.rgba.len(), 5 * 5 * 4);
    assert!(cropped.rgba.chunks_exact(4).all(|px| px == [8, 8, 9, 8]));
}
