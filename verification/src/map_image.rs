//! Map images: the RGBA8 raster of a map's minimap, its decoding from the
//! embedded TGA, the `MapInfo` playable-area parser, the Battle.net cache
//! handle decoding, and the crop that strips the black frame Blizzard puts
//! around the drawn map.

use vstd::prelude::*;
use vstd::utf8::{decode_utf8, valid_utf8};

pub mod archive;
pub mod decode;
pub mod locator;
pub mod map_info;
pub mod objects;

verus! {

/// A rasterised map image, RGBA8, origin at the top-left corner, row by
/// row. `rgba.len() == width * height * 4` for every image this crate makes.
#[derive(Debug)]
pub struct MapImage {
    pub width: u32,
    pub height: u32,
    pub rgba: Vec<u8>,
}

/// Byte offset of channel `c` of pixel `(x, y)` in an image `w` pixels wide.
pub open spec fn px_index(w: int, x: int, y: int, c: int) -> int {
    (y * w + x) * 4 + c
}

/// The image's byte buffer has exactly `width * height` RGBA pixels.
pub open spec fn image_wf(img: MapImage) -> bool {
    img.rgba@.len() == img.width as int * img.height as int * 4
}

/// Pixel `(x, y)` counts as drawn content: one of R, G, B is above 8.
pub open spec fn nonblack(img: MapImage, x: int, y: int) -> bool {
    let w = img.width as int;
    ||| img.rgba@[px_index(w, x, y, 0)] > 8
    ||| img.rgba@[px_index(w, x, y, 1)] > 8
    ||| img.rgba@[px_index(w, x, y, 2)] > 8
}

/// `(x, y)` lies inside the image grid.
pub open spec fn in_grid(img: MapImage, x: int, y: int) -> bool {
    0 <= x < img.width && 0 <= y < img.height
}

/// The image has at least one content pixel.
pub open spec fn any_nonblack(img: MapImage) -> bool {
    exists|x: int, y: int| in_grid(img, x, y) && #[trigger] nonblack(img, x, y)
}

/// `[x0, x1) x [y0, y1)` is the tight bounding box of the content pixels:
/// it holds all of them and each of its four edges touches one.
pub open spec fn is_content_bbox(img: MapImage, x0: int, x1: int, y0: int, y1: int) -> bool {
    &&& forall|x: int, y: int|
        in_grid(img, x, y) && #[trigger] nonblack(img, x, y) ==> x0 <= x < x1 && y0 <= y < y1
    &&& exists|y: int| in_grid(img, x0, y) && #[trigger] nonblack(img, x0, y)
    &&& exists|y: int| in_grid(img, x1 - 1, y) && #[trigger] nonblack(img, x1 - 1, y)
    &&& exists|x: int| in_grid(img, x, y0) && #[trigger] nonblack(img, x, y0)
    &&& exists|x: int| in_grid(img, x, y1 - 1) && #[trigger] nonblack(img, x, y1 - 1)
}

/// The content bounding box `(x0, x1, y0, y1)` (meaningful when the image
/// has content; see [`lemma_content_bbox_unique`]).
pub open spec fn content_bbox(img: MapImage) -> (int, int, int, int) {
    choose|b: (int, int, int, int)| is_content_bbox(img, b.0, b.1, b.2, b.3)
}

/// The crop applies: there is content and its box is at least 4x4.
pub open spec fn crop_applies(img: MapImage) -> bool {
    let b = content_bbox(img);
    any_nonblack(img) && b.1 - b.0 >= 4 && b.3 - b.2 >= 4
}

/// `out` is the sub-image of `img` at `[x0, x0 + cw) x [y0, y0 + ch)`.
pub open spec fn is_sub_image(img: MapImage, out: MapImage, x0: int, y0: int, cw: int, ch: int) -> bool {
    &&& out.width == cw
    &&& out.height == ch
    &&& out.rgba@.len() == cw * ch * 4
    &&& forall|xx: int, yy: int, c: int|
        0 <= xx < cw && 0 <= yy < ch && 0 <= c < 4 ==> out.rgba@[#[trigger] px_index(cw, xx, yy, c)]
            == img.rgba@[px_index(img.width as int, x0 + xx, y0 + yy, c)]
}

/// The content bounding box is unique: two tight boxes are the same box.
pub proof fn lemma_content_bbox_unique(
    img: MapImage,
    a: (int, int, int, int),
    b: (int, int, int, int),
)
    requires
        is_content_bbox(img, a.0, a.1, a.2, a.3),
        is_content_bbox(img, b.0, b.1, b.2, b.3),
    ensures
        a == b,
{
    let ya0 = choose|y: int| in_grid(img, a.0, y) && #[trigger] nonblack(img, a.0, y);
    let yb0 = choose|y: int| in_grid(img, b.0, y) && #[trigger] nonblack(img, b.0, y);
    let ya1 = choose|y: int| in_grid(img, a.1 - 1, y) && #[trigger] nonblack(img, a.1 - 1, y);
    let yb1 = choose|y: int| in_grid(img, b.1 - 1, y) && #[trigger] nonblack(img, b.1 - 1, y);
    let xa2 = choose|x: int| in_grid(img, x, a.2) && #[trigger] nonblack(img, x, a.2);
    let xb2 = choose|x: int| in_grid(img, x, b.2) && #[trigger] nonblack(img, x, b.2);
    let xa3 = choose|x: int| in_grid(img, x, a.3 - 1) && #[trigger] nonblack(img, x, a.3 - 1);
    let xb3 = choose|x: int| in_grid(img, x, b.3 - 1) && #[trigger] nonblack(img, x, b.3 - 1);
    assert(nonblack(img, a.0, ya0) && nonblack(img, b.0, yb0));
    assert(nonblack(img, a.1 - 1, ya1) && nonblack(img, b.1 - 1, yb1));
    assert(nonblack(img, xa2, a.2) && nonblack(img, xb2, b.2));
    assert(nonblack(img, xa3, a.3 - 1) && nonblack(img, xb3, b.3 - 1));
}

proof fn lemma_px_bounds(w: int, h: int, x: int, y: int)
    requires
        0 <= x < w,
        0 <= y < h,
    ensures
        0 <= y * (w * 4) + x * 4,
        y * (w * 4) + x * 4 + 3 < w * h * 4,
        y * (w * 4) + x * 4 == px_index(w, x, y, 0),
{
    assert(y * (w * 4) + x * 4 + 4 <= (y + 1) * (w * 4)) by (nonlinear_arith)
        requires
            0 <= x < w,
    ;
    assert((y + 1) * (w * 4) <= h * (w * 4)) by (nonlinear_arith)
        requires
            y + 1 <= h,
            0 <= w,
    ;
    assert(h * (w * 4) == w * h * 4) by (nonlinear_arith);
    assert(0 <= y * (w * 4)) by (nonlinear_arith)
        requires
            0 <= y,
            0 <= w,
    ;
    assert(y * (w * 4) + x * 4 == (y * w + x) * 4) by (nonlinear_arith);
}

proof fn lemma_row_bounds(w: int, h: int, x0: int, cw: int, y: int)
    requires
        0 <= x0,
        0 <= cw,
        x0 + cw <= w,
        0 <= y < h,
    ensures
        y * (w * 4) + x0 * 4 + cw * 4 <= w * h * 4,
{
    assert(y * (w * 4) + x0 * 4 + cw * 4 <= (y + 1) * (w * 4)) by (nonlinear_arith)
        requires
            x0 + cw <= w,
    ;
    assert((y + 1) * (w * 4) <= h * (w * 4)) by (nonlinear_arith)
        requires
            y + 1 <= h,
            0 <= x0 + cw <= w,
    ;
    assert(h * (w * 4) == w * h * 4) by (nonlinear_arith);
}

/// Crops the image to the bounding box of its content pixels (a pixel is
/// black when R, G and B are all at most 8). The image is returned as it
/// is when it has no content or the box is narrower or shorter than 4.
pub fn crop_to_content(img: MapImage) -> (r: MapImage)
    requires
        image_wf(img),
        img.width as int * 4 <= u32::MAX,
    ensures
        crop_applies(img) ==> {
            let b = content_bbox(img);
            is_sub_image(img, r, b.0, b.2, b.1 - b.0, b.3 - b.2)
        },
        !crop_applies(img) ==> r == img,
        image_wf(r),
{
    let w = img.width;
    let h = img.height;
    let _len = img.rgba.len();
    assert(img.rgba@.len() <= usize::MAX);
    let row_bytes: usize = (w * 4) as usize;
    let mut min_x: u32 = w;
    let mut max_x: u32 = 0;
    let mut min_y: u32 = h;
    let mut max_y: u32 = 0;
    let mut any = false;
    // Witness pixels touching each edge of the box found so far.
    let ghost mut w_min_x: (int, int) = (0, 0);
    let ghost mut w_max_x: (int, int) = (0, 0);
    let ghost mut w_min_y: (int, int) = (0, 0);
    let ghost mut w_max_y: (int, int) = (0, 0);
    let mut y: u32 = 0;
    while y < h
        invariant
            image_wf(img),
            w == img.width,
            h == img.height,
            row_bytes == w as int * 4,
            img.rgba@.len() <= usize::MAX,
            y <= h,
            !any ==> min_x == w && max_x == 0 && min_y == h && max_y == 0,
            !any ==> forall|xs: int, ys: int|
                in_grid(img, xs, ys) && ys < y ==> !#[trigger] nonblack(img, xs, ys),
            any ==> forall|xs: int, ys: int|
                in_grid(img, xs, ys) && ys < y && #[trigger] nonblack(img, xs, ys) ==> min_x <= xs
                    < max_x && min_y <= ys < max_y,
            any ==> in_grid(img, w_min_x.0, w_min_x.1) && w_min_x.1 < y && nonblack(
                img,
                w_min_x.0,
                w_min_x.1,
            ) && w_min_x.0 == min_x,
            any ==> in_grid(img, w_max_x.0, w_max_x.1) && w_max_x.1 < y && nonblack(
                img,
                w_max_x.0,
                w_max_x.1,
            ) && w_max_x.0 + 1 == max_x,
            any ==> in_grid(img, w_min_y.0, w_min_y.1) && w_min_y.1 < y && nonblack(
                img,
                w_min_y.0,
                w_min_y.1,
            ) && w_min_y.1 == min_y,
            any ==> in_grid(img, w_max_y.0, w_max_y.1) && w_max_y.1 < y && nonblack(
                img,
                w_max_y.0,
                w_max_y.1,
            ) && w_max_y.1 + 1 == max_y,
        decreases h - y,
    {
        let mut x: u32 = 0;
        while x < w
            invariant
                image_wf(img),
                w == img.width,
                h == img.height,
                row_bytes == w as int * 4,
                img.rgba@.len() <= usize::MAX,
                y < h,
                x <= w,
                !any ==> min_x == w && max_x == 0 && min_y == h && max_y == 0,
                !any ==> forall|xs: int, ys: int|
                    in_grid(img, xs, ys) && (ys < y || (ys == y && xs < x)) ==> !#[trigger] nonblack(
                        img,
                        xs,
                        ys,
                    ),
                any ==> forall|xs: int, ys: int|
                    in_grid(img, xs, ys) && (ys < y || (ys == y && xs < x)) && #[trigger] nonblack(
                        img,
                        xs,
                        ys,
                    ) ==> min_x <= xs < max_x && min_y <= ys < max_y,
                any ==> in_grid(img, w_min_x.0, w_min_x.1) && w_min_x.1 <= y && nonblack(
                    img,
                    w_min_x.0,
                    w_min_x.1,
                ) && w_min_x.0 == min_x,
                any ==> in_grid(img, w_max_x.0, w_max_x.1) && w_max_x.1 <= y && nonblack(
                    img,
                    w_max_x.0,
                    w_max_x.1,
                ) && w_max_x.0 + 1 == max_x,
                any ==> in_grid(img, w_min_y.0, w_min_y.1) && w_min_y.1 <= y && nonblack(
                    img,
                    w_min_y.0,
                    w_min_y.1,
                ) && w_min_y.1 == min_y,
                any ==> in_grid(img, w_max_y.0, w_max_y.1) && w_max_y.1 <= y && nonblack(
                    img,
                    w_max_y.0,
                    w_max_y.1,
                ) && w_max_y.1 + 1 == max_y,
            decreases w - x,
        {
            proof {
                lemma_px_bounds(w as int, h as int, x as int, y as int);
            }
            let i: usize = (y as usize) * row_bytes + (x as usize) * 4;
            if img.rgba[i] > 8 || img.rgba[i + 1] > 8 || img.rgba[i + 2] > 8 {
                assert(nonblack(img, x as int, y as int));
                if x < min_x {
                    min_x = x;
                    proof {
                        w_min_x = (x as int, y as int);
                    }
                }
                if x >= max_x {
                    max_x = x + 1;
                    proof {
                        w_max_x = (x as int, y as int);
                    }
                }
                if y < min_y {
                    min_y = y;
                    proof {
                        w_min_y = (x as int, y as int);
                    }
                }
                if y >= max_y {
                    max_y = y + 1;
                    proof {
                        w_max_y = (x as int, y as int);
                    }
                }
                any = true;
            } else {
                assert(!nonblack(img, x as int, y as int));
            }
            x = x + 1;
        }
        y = y + 1;
    }
    // The scan found the content box, if any.
    assert(any == any_nonblack(img)) by {
        if any {
            assert(in_grid(img, w_min_x.0, w_min_x.1) && nonblack(img, w_min_x.0, w_min_x.1));
        }
    }
    if any {
        assert(is_content_bbox(img, min_x as int, max_x as int, min_y as int, max_y as int)) by {
            assert(in_grid(img, min_x as int, w_min_x.1) && nonblack(img, min_x as int, w_min_x.1));
            assert(in_grid(img, max_x - 1, w_max_x.1) && nonblack(img, max_x - 1, w_max_x.1));
            assert(in_grid(img, w_min_y.0, min_y as int) && nonblack(img, w_min_y.0, min_y as int));
            assert(in_grid(img, w_max_y.0, max_y - 1) && nonblack(img, w_max_y.0, max_y - 1));
        }
        let ghost b = (min_x as int, max_x as int, min_y as int, max_y as int);
        assert(is_content_bbox(img, b.0, b.1, b.2, b.3));
        let ghost c = content_bbox(img);
        assert(is_content_bbox(img, c.0, c.1, c.2, c.3));
        proof {
            lemma_content_bbox_unique(img, b, content_bbox(img));
        }
    }
    if !any || max_x <= min_x || max_y <= min_y {
        return img;
    }
    let cw = max_x - min_x;
    let ch = max_y - min_y;
    if cw < 4 || ch < 4 {
        return img;
    }
    let ghost b = content_bbox(img);
    let mut rgba: Vec<u8> = Vec::new();
    let mut yy: u32 = 0;
    while yy < ch
        invariant
            image_wf(img),
            w == img.width,
            h == img.height,
            row_bytes == w as int * 4,
            img.rgba@.len() <= usize::MAX,
            b == (min_x as int, max_x as int, min_y as int, max_y as int),
            min_x + cw == max_x <= w,
            min_y + ch == max_y <= h,
            cw >= 4,
            yy <= ch,
            rgba@.len() == yy as int * (cw as int * 4),
            forall|r: int, j: int|
                0 <= r < yy && 0 <= j < cw * 4 ==> #[trigger] rgba@[r * (cw * 4) + j]
                    == img.rgba@[(min_y + r) * (w * 4) + min_x * 4 + j],
        decreases ch - yy,
    {
        let src_y: u32 = min_y + yy;
        proof {
            lemma_px_bounds(w as int, h as int, min_x as int, src_y as int);
            lemma_row_bounds(w as int, h as int, min_x as int, cw as int, src_y as int);
        }
        let row_start: usize = (src_y as usize) * row_bytes + (min_x as usize) * 4;
        let row_len: usize = (cw as usize) * 4;
        let ghost before = rgba@;
        let mut j: usize = 0;
        while j < row_len
            invariant
                image_wf(img),
                w == img.width,
                row_bytes == w as int * 4,
                row_start == src_y as int * (w as int * 4) + min_x as int * 4,
                row_len == cw as int * 4,
                min_x + cw <= w,
                src_y < h,
                h == img.height,
                j <= row_len,
                row_start + row_len <= img.rgba@.len(),
                img.rgba@.len() <= usize::MAX,
                rgba@.len() == before.len() + j,
                forall|r: int, jj: int|
                    0 <= r < yy && 0 <= jj < cw * 4 ==> #[trigger] before[r * (cw * 4) + jj]
                        == img.rgba@[(min_y + r) * (w * 4) + min_x * 4 + jj],
                forall|a: int| 0 <= a < before.len() ==> rgba@[a] == before[a],
                forall|a: int| 0 <= a < j ==> #[trigger] rgba@[before.len() + a] == img.rgba@[row_start + a],
            decreases row_len - j,
        {
            rgba.push(img.rgba[row_start + j]);
            j = j + 1;
        }
        proof {
            assert forall|r: int, jj: int|
                0 <= r < yy + 1 && 0 <= jj < cw * 4 implies #[trigger] rgba@[r * (cw * 4) + jj]
                == img.rgba@[(min_y + r) * (w * 4) + min_x * 4 + jj] by {
                if r < yy {
                    assert(r * (cw * 4) + jj < yy * (cw * 4)) by (nonlinear_arith)
                        requires
                            r < yy,
                            0 <= jj < cw * 4,
                    ;
                    assert(0 <= r * (cw * 4)) by (nonlinear_arith)
                        requires
                            0 <= r,
                            0 <= cw,
                    ;
                    assert(rgba@[r * (cw * 4) + jj] == before[r * (cw * 4) + jj]);
                } else {
                    assert(r * (cw * 4) + jj == before.len() + jj);
                    assert((min_y + r) * (w * 4) + min_x * 4 + jj == row_start + jj);
                    assert(rgba@[before.len() + jj] == img.rgba@[row_start + jj]);
                }
            }
            assert((yy + 1) * (cw * 4) == yy * (cw * 4) + cw * 4) by (nonlinear_arith);
        }
        yy = yy + 1;
    }
    let out = MapImage { width: cw, height: ch, rgba };
    proof {
        assert forall|xx: int, yy2: int, c: int|
            0 <= xx < cw && 0 <= yy2 < ch && 0 <= c < 4 implies out.rgba@[#[trigger] px_index(
            cw as int,
            xx,
            yy2,
            c,
        )] == img.rgba@[px_index(w as int, min_x + xx, min_y + yy2, c)] by {
            let jj = xx * 4 + c;
            assert(px_index(cw as int, xx, yy2, c) == yy2 * (cw * 4) + jj) by (nonlinear_arith)
                requires
                    jj == xx * 4 + c,
            ;
            assert(px_index(w as int, min_x + xx, min_y + yy2, c) == (min_y + yy2) * (w * 4) + min_x
                * 4 + jj) by (nonlinear_arith)
                requires
                    jj == xx * 4 + c,
            ;
        }
        assert(ch as int * (cw as int * 4) == cw as int * ch as int * 4) by (nonlinear_arith);
    }
    out
}


/// `out` is what `crop_to_content` makes of `img`.
pub open spec fn cropped_from(img: MapImage, out: MapImage) -> bool {
    &&& crop_applies(img) ==> {
        let b = content_bbox(img);
        is_sub_image(img, out, b.0, b.2, b.1 - b.0, b.3 - b.2)
    }
    &&& !crop_applies(img) ==> out == img
}

/// `d` is the image the TGA bytes `b` decode to.
pub open spec fn decodes_to(b: Seq<u8>, d: MapImage) -> bool {
    let p = decode::tga_pixels(b)->Ok_0;
    decode::is_decoded_image(d, p.0, p.1, p.2, p.3, p.4)
}

/// Why the map image could not be extracted from an archive.
#[derive(Clone, Copy, Debug, PartialEq, Eq, Structural)]
pub enum AssetError {
    /// The archive does not parse, its layout would have the reader slice
    /// outside it, or `Minimap.tga` cannot be read out of it.
    MinimapUnreadable,
    /// The minimap's pixel buffer would not fit in memory addresses.
    MinimapTooLarge,
    /// The archive's `Minimap.tga` is empty or missing.
    EmptyMinimap,
    /// The minimap is not a TGA this crate decodes.
    Tga(decode::TgaError),
}

/// The text of an asset error.
pub open spec fn asset_error_message(e: AssetError) -> Seq<char> {
    match e {
        AssetError::MinimapUnreadable => "Minimap.tga ilegível ou MPQ inválido"@,
        AssetError::MinimapTooLarge => "Minimap.tga grande demais para esta plataforma"@,
        AssetError::EmptyMinimap => "Minimap.tga vazio ou ausente no MPQ"@,
        AssetError::Tga(t) => decode::tga_error_message(t),
    }
}

impl AssetError {
    /// The error's text; a TGA error reads as the decoder reports it.
    pub fn message(&self) -> (r: String)
        ensures
            r@ == asset_error_message(*self),
    {
        match self {
            AssetError::MinimapUnreadable => {
                let mut s = String::new();
                s.append("Minimap.tga ilegível ou MPQ inválido");
                s
            },
            AssetError::MinimapTooLarge => {
                let mut s = String::new();
                s.append("Minimap.tga grande demais para esta plataforma");
                s
            },
            AssetError::EmptyMinimap => {
                let mut s = String::new();
                s.append("Minimap.tga vazio ou ausente no MPQ");
                s
            },
            AssetError::Tga(t) => t.message(),
        }
    }
}

/// The map image and, best effort, the map info from the files read out
/// of a map archive: the minimap TGA is required, decoded and cropped to
/// its content; the `MapInfo` file is parsed when present, and dropped
/// when it does not parse.
pub fn assets_from_files(minimap: &[u8], map_info_file: Option<&[u8]>) -> (r: Result<
    (MapImage, Option<map_info::MapInfo>),
    AssetError,
>)
    requires
        minimap@.len() >= decode::HEADER_LEN ==> decode::le_u16(minimap@, 12) as int * decode::le_u16(
            minimap@,
            14,
        ) as int * 4 <= usize::MAX,
    ensures
        minimap@.len() == 0 ==> r == Err::<(MapImage, Option<map_info::MapInfo>), AssetError>(
            AssetError::EmptyMinimap,
        ),
        minimap@.len() > 0 ==> (r is Ok <==> decode::tga_pixels(minimap@) is Ok),
        minimap@.len() > 0 ==> (r matches Err(e) ==> decode::tga_pixels(minimap@) matches Err(t) && e
            == AssetError::Tga(t)),
        r matches Ok((img, info)) ==> {
            &&& exists|d: MapImage| decodes_to(minimap@, d) && #[trigger] cropped_from(d, img)
            &&& image_wf(img)
            &&& info == match map_info_file {
                Some(b) => match map_info::parse_spec(b@) {
                    Ok(i) => Some(i),
                    Err(_) => None,
                },
                None => None,
            }
        },
{
    if minimap.len() == 0 {
        return Err(AssetError::EmptyMinimap);
    }
    let decoded = match decode::decode_tga(minimap) {
        Ok(img) => img,
        Err(e) => {
            return Err(AssetError::Tga(e));
        },
    };
    let ghost d = decoded;
    let image = crop_to_content(decoded);
    assert(cropped_from(d, image));
    let info = match map_info_file {
        Some(b) => match map_info::parse(b) {
            Ok(i) => Some(i),
            Err(_) => None,
        },
        None => None,
    };
    Ok((image, info))
}


/// What reading the member `name` out of the MPQ archive `archive` gives
/// (`s2protocol::parser::parse`, then `MPQ::read_mpq_file_sector` with
/// decompression forced): the member's bytes, or none when the archive
/// does not parse or the member cannot be read.
pub uninterp spec fn archive_member(archive: Seq<u8>, name: Seq<char>) -> Option<Seq<u8>>;

/// The bytes of member `name` of the MPQ archive `archive`, through
/// `s2protocol::parser::parse` and `MPQ::read_mpq_file_sector` (with
/// decompression forced); either error gives `None`.
///
/// The contract names the result and says no more: the archive format,
/// hashing and decompression are the outside crate's. The reader slices
/// the archive, its tables and the member's sectors at offsets read from
/// the archive; `requires` admits only archives where each of those slices
/// lies inside the bytes (`archive::member_read_safe`). Left unsaid: that
/// the zlib and bzip2 decoders it hands the sectors to return an error,
/// not a panic, on corrupt compressed data.
#[verifier::external_body]
pub(crate) fn read_archive_member(archive: &[u8], name: &str) -> (r: Option<Vec<u8>>)
    requires
        archive::member_read_safe(archive@, name@),
    ensures
        match r {
            Some(b) => archive_member(archive@, name@) == Some(b@),
            None => archive_member(archive@, name@) is None,
        },
{
    match s2protocol::parser::parse(archive) {
        Ok((_, mpq)) => match mpq.read_mpq_file_sector(name, true, archive) {
            Ok((_, bytes)) => Some(bytes),
            Err(_) => None,
        },
        Err(_) => None,
    }
}

/// The member `name` of `archive` where the reader can be asked for it
/// safely (`archive::member_read_safe`); none otherwise.
pub open spec fn safe_member(archive: Seq<u8>, name: Seq<char>) -> Option<Seq<u8>> {
    if archive::member_read_safe(archive, name) {
        archive_member(archive, name)
    } else {
        None
    }
}

/// Member `name` of `archive`, when the reader can be asked for it without
/// slicing outside the bytes and it can be read; `None` otherwise.
fn read_member_checked(archive: &[u8], name: &str) -> (r: Option<Vec<u8>>)
    ensures
        match r {
            Some(b) => safe_member(archive@, name@) == Some(b@),
            None => safe_member(archive@, name@) is None,
        },
{
    if archive::member_readable(archive, name) {
        read_archive_member(archive, name)
    } else {
        None
    }
}

/// What `String::from_utf8_lossy` makes of `bytes`.
pub uninterp spec fn utf8_lossy(bytes: Seq<u8>) -> Seq<char>;

/// `bytes` as text, invalid sequences replaced by U+FFFD, through
/// `String::from_utf8_lossy`. Its documentation says valid UTF-8 comes
/// back unchanged; the contract states that, and names the result for
/// other input.
#[verifier::external_body]
pub(crate) fn lossy_text(bytes: &[u8]) -> (r: String)
    ensures
        r@ == utf8_lossy(bytes@),
        valid_utf8(bytes@) ==> r@ == decode_utf8(bytes@),
{
    String::from_utf8_lossy(bytes).into_owned()
}

/// The text of an `Objects` file: its UTF-8, read lossily when invalid.
pub open spec fn objects_text(bytes: Seq<u8>) -> Seq<char> {
    if valid_utf8(bytes) {
        decode_utf8(bytes)
    } else {
        utf8_lossy(bytes)
    }
}

/// The raw start-location `Position` values of an `Objects` file.
pub open spec fn start_positions_of(bytes: Seq<u8>) -> Seq<Seq<char>> {
    objects::positions_of(objects::lines_spec(objects_text(bytes)))
}

/// The start-location `Position` values (`"x,y,z"`) of the bytes of an
/// `Objects` file, in file order; invalid UTF-8 is read lossily.
pub fn start_positions(bytes: &[u8]) -> (r: Vec<String>)
    ensures
        r@.map_values(|v: String| v@) == start_positions_of(bytes@),
{
    let text = lossy_text(bytes);
    objects::start_loc_positions(text.as_str())
}

/// The minimap's `width * height * 4` bytes fit in memory addresses
/// (vacuous for buffers shorter than the TGA header).
pub open spec fn minimap_fits(t: Seq<u8>) -> bool {
    t.len() >= decode::HEADER_LEN ==> decode::le_u16(t, 12) as int * decode::le_u16(t, 14) as int * 4
        <= usize::MAX
}

/// The `MapInfo` of an optional member: parsed, dropped when it does not
/// parse.
pub open spec fn map_info_of(member: Option<Seq<u8>>) -> Option<map_info::MapInfo> {
    match member {
        Some(b) => match map_info::parse_spec(b) {
            Ok(i) => Some(i),
            Err(_) => None,
        },
        None => None,
    }
}

/// Extracts a map's assets from the bytes of its MPQ archive: the minimap
/// (`Minimap.tga`, required, decoded and cropped to its content), and best
/// effort the parsed `MapInfo` and the start-location `Position` values of
/// `Objects` (absent or unparsable members give none and no positions).
/// A member is read only where the archive's layout lets the reader take
/// it without slicing outside the bytes (`safe_member`); a corrupt archive
/// gives `MinimapUnreadable` instead of a crash.
pub fn assets_from_archive(archive: &[u8]) -> (r: Result<
    (MapImage, Option<map_info::MapInfo>, Vec<String>),
    AssetError,
>)
    ensures
        safe_member(archive@, "Minimap.tga"@) is None ==> r == Err::<
            (MapImage, Option<map_info::MapInfo>, Vec<String>),
            AssetError,
        >(AssetError::MinimapUnreadable),
        safe_member(archive@, "Minimap.tga"@) matches Some(t) && !minimap_fits(t) ==> r == Err::<
            (MapImage, Option<map_info::MapInfo>, Vec<String>),
            AssetError,
        >(AssetError::MinimapTooLarge),
        safe_member(archive@, "Minimap.tga"@) matches Some(t) && minimap_fits(t) && t.len() == 0
            ==> r == Err::<(MapImage, Option<map_info::MapInfo>, Vec<String>), AssetError>(
            AssetError::EmptyMinimap,
        ),
        safe_member(archive@, "Minimap.tga"@) matches Some(t) ==> (minimap_fits(t) && t.len() > 0
            ==> (r is Ok <==> decode::tga_pixels(t) is Ok)),
        safe_member(archive@, "Minimap.tga"@) matches Some(t) ==> (minimap_fits(t) && t.len() > 0
            ==> (r matches Err(e) ==> decode::tga_pixels(t) matches Err(te) && e == AssetError::Tga(te))),
        r is Ok ==> safe_member(archive@, "Minimap.tga"@) is Some && exists|d: MapImage|
            decodes_to(safe_member(archive@, "Minimap.tga"@)->Some_0, d) && #[trigger] cropped_from(
                d,
                (r->Ok_0).0,
            ),
        r matches Ok((img, _, _)) ==> image_wf(img),
        r matches Ok((_, info, _)) ==> info == map_info_of(safe_member(archive@, "MapInfo"@)),
        r matches Ok((_, _, positions)) ==> positions@.map_values(|v: String| v@) == match safe_member(archive@, "Objects"@) {
            Some(o) => start_positions_of(o),
            None => Seq::<Seq<char>>::empty(),
        },
{
    let tga = match read_member_checked(archive, "Minimap.tga") {
        Some(t) => t,
        None => {
            return Err(AssetError::MinimapUnreadable);
        },
    };
    if tga.len() >= decode::HEADER_LEN {
        let w = (tga[12] as u64) + (tga[13] as u64) * 256;
        let h = (tga[14] as u64) + (tga[15] as u64) * 256;
        assert(w == decode::le_u16(tga@, 12) && h == decode::le_u16(tga@, 14));
        assert(w * h <= 65535 * 65535) by (nonlinear_arith)
            requires
                w <= 65535,
                h <= 65535,
        ;
        if w * h * 4 > usize::MAX as u64 {
            return Err(AssetError::MinimapTooLarge);
        }
    }
    let info_bytes = read_member_checked(archive, "MapInfo");
    let files = match info_bytes {
        Some(b) => assets_from_files(tga.as_slice(), Some(b.as_slice())),
        None => assets_from_files(tga.as_slice(), None),
    };
    let (image, info) = match files {
        Ok(x) => x,
        Err(e) => {
            return Err(e);
        },
    };
    let positions = match read_member_checked(archive, "Objects") {
        Some(o) => {
            let p = start_positions(o.as_slice());
            assert(safe_member(archive@, "Objects"@) == Some(o@));
            p
        },
        None => {
            let p: Vec<String> = Vec::new();
            assert(p@.map_values(|v: String| v@) =~= Seq::<Seq<char>>::empty());
            p
        },
    };
    assert(safe_member(archive@, "Minimap.tga"@) == Some(tga@));
    let res = Ok((image, info, positions));
    assert((res->Ok_0).0 == image);
    res
}


/// Where the next map archive to try comes from when loading a replay's
/// map: the archive of one of its cache handles (by index, in order), the
/// installed map with the replay's title, or nowhere (give up).
#[derive(Clone, Copy, Debug, PartialEq, Eq, Structural)]
pub enum LoadStep {
    CacheHandle(usize),
    Title,
    GiveUp,
}

/// The step that follows `step` when it did not yield the map: the next
/// cache handle, then the title, then giving up.
pub open spec fn next_step_spec(step: LoadStep, n_handles: usize) -> LoadStep {
    match step {
        LoadStep::CacheHandle(i) => if i + 1 < n_handles {
            LoadStep::CacheHandle((i + 1) as usize)
        } else {
            LoadStep::Title
        },
        LoadStep::Title => LoadStep::GiveUp,
        LoadStep::GiveUp => LoadStep::GiveUp,
    }
}

/// The `k`-th step of a load over `n_handles` cache-handle archives.
pub open spec fn load_step_at(n_handles: usize, k: nat) -> LoadStep {
    if k < n_handles {
        LoadStep::CacheHandle(k as usize)
    } else if k == n_handles {
        LoadStep::Title
    } else {
        LoadStep::GiveUp
    }
}

/// The first place to look: the first cache-handle archive, or the title
/// when there is none.
pub fn first_load_step(n_handles: usize) -> (r: LoadStep)
    ensures
        r == load_step_at(n_handles, 0),
{
    if n_handles > 0 {
        LoadStep::CacheHandle(0)
    } else {
        LoadStep::Title
    }
}

/// The place to look after `step` failed (the archive did not give a map,
/// or no installed map has the title).
pub fn next_load_step(step: LoadStep, n_handles: usize) -> (r: LoadStep)
    ensures
        r == next_step_spec(step, n_handles),
{
    match step {
        LoadStep::CacheHandle(i) => {
            if i < n_handles && n_handles - i > 1 {
                LoadStep::CacheHandle(i + 1)
            } else {
                LoadStep::Title
            }
        },
        LoadStep::Title => LoadStep::GiveUp,
        LoadStep::GiveUp => LoadStep::GiveUp,
    }
}

/// Loading tries every cache-handle archive in order, then the title, then
/// gives up, and stays given up: the step after the `k`-th is the
/// `k + 1`-th.
pub proof fn lemma_load_order(n_handles: usize, k: nat)
    ensures
        next_step_spec(load_step_at(n_handles, k), n_handles) == load_step_at(n_handles, k + 1),
{
}

} // verus!
