//! Minimal TGA decoder for the minimap textures embedded in map archives.
//!
//! Supported: image type 2 (uncompressed true-colour) and 10 (run-length
//! encoded true-colour), 24 or 32 bits per pixel, stored as BGR(A). The
//! result is always RGBA8 with the origin at the top-left corner: rows are
//! flipped when the descriptor says the origin is at the bottom.

use vstd::prelude::*;

use super::{image_wf, px_index, MapImage};
use crate::text::{decimal, push_decimal};

verus! {

/// Length of the fixed TGA header.
pub const HEADER_LEN: usize = 18;

/// Why a TGA buffer was rejected.
#[derive(Clone, Copy, Debug, PartialEq, Eq, Structural)]
pub enum TgaError {
    /// Shorter than the 18-byte header (the buffer's length).
    TooShort(usize),
    /// The image carries a colour map (the colour-map type).
    ColorMapUnsupported(u8),
    /// Image type other than 2 or 10 (the image type).
    UnsupportedImageType(u8),
    /// Pixel depth other than 24 or 32 bits (the depth).
    UnsupportedBpp(u8),
    /// Width or height is zero (width, height).
    ZeroDimension(u32, u32),
    /// The image-id field runs past the end of the buffer.
    PayloadOffsetOutOfBounds,
    /// Uncompressed payload shorter than the pixels it must hold (bytes
    /// needed, bytes present).
    TruncatedPayload(usize, usize),
    /// RLE payload ended before all pixels were decoded.
    RlePayloadEnded,
    /// RLE run packet without its pixel.
    RleRunTruncated,
    /// RLE raw packet shorter than its pixel count.
    RleRawTruncated,
}

/// The text of a TGA error, as the reader reports it.
pub open spec fn tga_error_message(e: TgaError) -> Seq<char> {
    match e {
        TgaError::TooShort(n) => "TGA muito curto: "@ + decimal(n as nat) + " bytes"@,
        TgaError::ColorMapUnsupported(c) => "TGA com color map não suportado: "@ + decimal(c as nat),
        TgaError::UnsupportedImageType(t) => "TGA image type não suportado: "@ + decimal(t as nat),
        TgaError::UnsupportedBpp(b) => "TGA bpp não suportado: "@ + decimal(b as nat),
        TgaError::ZeroDimension(w, h) => "TGA com dimensão zero: "@ + decimal(w as nat) + "x"@
            + decimal(h as nat),
        TgaError::PayloadOffsetOutOfBounds => "TGA payload offset fora dos bounds"@,
        TgaError::TruncatedPayload(need, have) => "TGA payload truncado: precisa "@ + decimal(
            need as nat,
        ) + ", tem "@ + decimal(have as nat),
        TgaError::RlePayloadEnded => "TGA RLE: payload acabou antes do esperado"@,
        TgaError::RleRunTruncated => "TGA RLE: pacote RLE truncado"@,
        TgaError::RleRawTruncated => "TGA RLE: pacote raw truncado"@,
    }
}

impl TgaError {
    /// The error's text, with the values that caused it.
    pub fn message(&self) -> (r: String)
        ensures
            r@ == tga_error_message(*self),
    {
        let mut s = String::new();
        match self {
            TgaError::TooShort(n) => {
                s.append("TGA muito curto: ");
                push_decimal(&mut s, *n as u64);
                s.append(" bytes");
            },
            TgaError::ColorMapUnsupported(c) => {
                s.append("TGA com color map não suportado: ");
                push_decimal(&mut s, *c as u64);
            },
            TgaError::UnsupportedImageType(t) => {
                s.append("TGA image type não suportado: ");
                push_decimal(&mut s, *t as u64);
            },
            TgaError::UnsupportedBpp(b) => {
                s.append("TGA bpp não suportado: ");
                push_decimal(&mut s, *b as u64);
            },
            TgaError::ZeroDimension(w, h) => {
                s.append("TGA com dimensão zero: ");
                push_decimal(&mut s, *w as u64);
                s.append("x");
                push_decimal(&mut s, *h as u64);
            },
            TgaError::PayloadOffsetOutOfBounds => {
                s.append("TGA payload offset fora dos bounds");
            },
            TgaError::TruncatedPayload(need, have) => {
                s.append("TGA payload truncado: precisa ");
                push_decimal(&mut s, *need as u64);
                s.append(", tem ");
                push_decimal(&mut s, *have as u64);
            },
            TgaError::RlePayloadEnded => {
                s.append("TGA RLE: payload acabou antes do esperado");
            },
            TgaError::RleRunTruncated => {
                s.append("TGA RLE: pacote RLE truncado");
            },
            TgaError::RleRawTruncated => {
                s.append("TGA RLE: pacote raw truncado");
            },
        }
        assert(s@ =~= tga_error_message(*self));
        s
    }
}

/// Little-endian `u16` at byte offset `i`.
pub open spec fn le_u16(b: Seq<u8>, i: int) -> u32 {
    (b[i] as int + b[i + 1] as int * 0x100) as u32
}

/// `s` repeated `n` times.
pub open spec fn repeat(s: Seq<u8>, n: nat) -> Seq<u8>
    decreases n,
{
    if n == 0 {
        Seq::empty()
    } else {
        repeat(s, (n - 1) as nat) + s
    }
}

/// Run-length decoding of `p` from packet offset `i`, with `out` decoded so
/// far, until `need` bytes are out (surplus of the last packet dropped).
pub open spec fn rle_from(p: Seq<u8>, i: int, out: Seq<u8>, need: int, bpp: int) -> Result<
    Seq<u8>,
    TgaError,
>
    recommends
        bpp >= 1,
    decreases p.len() - i,
{
    if out.len() >= need {
        Ok(out.subrange(0, need))
    } else if i >= p.len() || i < 0 || bpp < 1 {
        Err(TgaError::RlePayloadEnded)
    } else {
        let header = p[i];
        let count = (header % 128) as int + 1;
        if header >= 128 {
            if i + 1 + bpp > p.len() {
                Err(TgaError::RleRunTruncated)
            } else {
                rle_from(
                    p,
                    i + 1 + bpp,
                    out + repeat(p.subrange(i + 1, i + 1 + bpp), count as nat),
                    need,
                    bpp,
                )
            }
        } else {
            let raw_len = count * bpp;
            if i + 1 + raw_len > p.len() {
                Err(TgaError::RleRawTruncated)
            } else {
                rle_from(p, i + 1 + raw_len, out + p.subrange(i + 1, i + 1 + raw_len), need, bpp)
            }
        }
    }
}

/// A successful run-length decoding yields exactly `need` bytes.
pub proof fn lemma_rle_len(p: Seq<u8>, i: int, out: Seq<u8>, need: int, bpp: int)
    requires
        0 <= need,
        rle_from(p, i, out, need, bpp) is Ok,
    ensures
        rle_from(p, i, out, need, bpp)->Ok_0.len() == need,
    decreases p.len() - i,
{
    if out.len() >= need {
    } else if i >= p.len() || i < 0 || bpp < 1 {
    } else {
        let header = p[i];
        let count = (header % 128) as int + 1;
        if header >= 128 {
            if i + 1 + bpp <= p.len() {
                lemma_rle_len(p, i + 1 + bpp, out + repeat(p.subrange(i + 1, i + 1 + bpp), count as nat), need, bpp);
            }
        } else {
            let raw_len = count * bpp;
            if i + 1 + raw_len <= p.len() {
                lemma_rle_len(p, i + 1 + raw_len, out + p.subrange(i + 1, i + 1 + raw_len), need, bpp);
            }
        }
    }
}

/// The decoded header and pixel stream of a TGA buffer: `(width, height,
/// bytes per pixel, top-left origin, BGR(A) pixels in file order)`.
pub open spec fn tga_pixels(b: Seq<u8>) -> Result<(u32, u32, int, bool, Seq<u8>), TgaError> {
    if b.len() < HEADER_LEN {
        Err(TgaError::TooShort(b.len() as usize))
    } else {
        let id_length = b[0] as int;
        let image_type = b[2];
        let width = le_u16(b, 12);
        let height = le_u16(b, 14);
        let bpp = b[16];
        let top = b[17] % 64 >= 32;
        if b[1] != 0 {
            Err(TgaError::ColorMapUnsupported(b[1]))
        } else if image_type != 2 && image_type != 10 {
            Err(TgaError::UnsupportedImageType(image_type))
        } else if bpp != 24 && bpp != 32 {
            Err(TgaError::UnsupportedBpp(bpp))
        } else if width == 0 || height == 0 {
            Err(TgaError::ZeroDimension(width, height))
        } else if HEADER_LEN + id_length > b.len() {
            Err(TgaError::PayloadOffsetOutOfBounds)
        } else {
            let bytes_per_px = (bpp / 8) as int;
            let need = width as int * height as int * bytes_per_px;
            let payload = b.subrange(HEADER_LEN + id_length, b.len() as int);
            if image_type == 2 {
                if payload.len() < need {
                    Err(TgaError::TruncatedPayload(need as usize, payload.len() as usize))
                } else {
                    Ok((width, height, bytes_per_px, top, payload.subrange(0, need)))
                }
            } else {
                match rle_from(payload, 0, Seq::empty(), need, bytes_per_px) {
                    Err(e) => Err(e),
                    Ok(px) => Ok((width, height, bytes_per_px, top, px)),
                }
            }
        }
    }
}

/// Channel `c` (R, G, B, A) of pixel number `p` of a BGR(A) stream; alpha
/// is 255 for 3-byte pixels.
pub open spec fn rgba_channel(px: Seq<u8>, bpp: int, p: int, c: int) -> u8 {
    if c == 0 {
        px[p * bpp + 2]
    } else if c == 1 {
        px[p * bpp + 1]
    } else if c == 2 {
        px[p * bpp]
    } else if bpp == 4 {
        px[p * bpp + 3]
    } else {
        255
    }
}

/// File row holding display row `y`.
pub open spec fn source_row(top: bool, height: int, y: int) -> int {
    if top {
        y
    } else {
        height - 1 - y
    }
}

/// `img` is the top-left-origin RGBA8 rendering of the decoded stream.
pub open spec fn is_decoded_image(img: MapImage, w: u32, h: u32, bpp: int, top: bool, px: Seq<u8>) -> bool {
    &&& img.width == w
    &&& img.height == h
    &&& image_wf(img)
    &&& forall|x: int, y: int, c: int|
        0 <= x < w && 0 <= y < h && 0 <= c < 4 ==> img.rgba@[#[trigger] px_index(w as int, x, y, c)]
            == rgba_channel(px, bpp, source_row(top, h as int, y) * w + x, c)
}

/// Decodes a TGA buffer into an RGBA8 image with a top-left origin.
pub fn decode_tga(bytes: &[u8]) -> (r: Result<MapImage, TgaError>)
    requires
        bytes@.len() >= HEADER_LEN ==> le_u16(bytes@, 12) as int * le_u16(bytes@, 14) as int * 4
            <= usize::MAX,
    ensures
        r is Ok <==> tga_pixels(bytes@) is Ok,
        r matches Err(e) ==> tga_pixels(bytes@) == Err::<(u32, u32, int, bool, Seq<u8>), TgaError>(e),
        r matches Ok(img) ==> {
            let d = tga_pixels(bytes@)->Ok_0;
            is_decoded_image(img, d.0, d.1, d.2, d.3, d.4)
        },
{
    if bytes.len() < HEADER_LEN {
        return Err(TgaError::TooShort(bytes.len()));
    }
    let id_length = bytes[0] as usize;
    let color_map_type = bytes[1];
    let image_type = bytes[2];
    let width: u32 = bytes[12] as u32 + bytes[13] as u32 * 0x100;
    let height: u32 = bytes[14] as u32 + bytes[15] as u32 * 0x100;
    let bpp = bytes[16];
    let descriptor = bytes[17];
    if color_map_type != 0 {
        return Err(TgaError::ColorMapUnsupported(color_map_type));
    }
    if image_type != 2 && image_type != 10 {
        return Err(TgaError::UnsupportedImageType(image_type));
    }
    if bpp != 24 && bpp != 32 {
        return Err(TgaError::UnsupportedBpp(bpp));
    }
    if width == 0 || height == 0 {
        return Err(TgaError::ZeroDimension(width, height));
    }
    let bytes_per_px: usize = (bpp / 8) as usize;
    proof {
        assert(width as int * height as int * bytes_per_px as int <= width as int * height as int
            * 4) by (nonlinear_arith)
            requires
                bytes_per_px <= 4,
        ;
    }
    let pixel_count: usize = (width as usize) * (height as usize);
    let payload_start: usize = HEADER_LEN + id_length;
    if payload_start > bytes.len() {
        return Err(TgaError::PayloadOffsetOutOfBounds);
    }
    let payload = slice_from(bytes, payload_start);
    let bgra = if image_type == 2 {
        match decode_uncompressed(payload, pixel_count, bytes_per_px) {
            Ok(v) => v,
            Err(e) => {
                return Err(e);
            },
        }
    } else {
        match decode_rle(payload, pixel_count, bytes_per_px) {
            Ok(v) => v,
            Err(e) => {
                return Err(e);
            },
        }
    };
    proof {
        if image_type != 2 {
            let p = bytes@.subrange(payload_start as int, bytes@.len() as int);
            lemma_rle_len(p, 0, Seq::empty(), pixel_count * bytes_per_px, bytes_per_px as int);
        }
    }
    let top_origin = descriptor % 64 >= 32;
    let rgba = to_rgba(&bgra, width, height, bytes_per_px, top_origin);
    Ok(MapImage { width, height, rgba })
}

/// The tail `bytes[start..]`.
fn slice_from(bytes: &[u8], start: usize) -> (r: &[u8])
    requires
        start <= bytes@.len(),
    ensures
        r@ == bytes@.subrange(start as int, bytes@.len() as int),
{
    &bytes[start..bytes.len()]
}

/// The first `pixel_count * bytes_per_px` payload bytes.
fn decode_uncompressed(payload: &[u8], pixel_count: usize, bytes_per_px: usize) -> (r: Result<
    Vec<u8>,
    TgaError,
>)
    requires
        pixel_count as int * bytes_per_px as int <= usize::MAX,
    ensures
        payload@.len() < pixel_count * bytes_per_px ==> r == Err::<Vec<u8>, TgaError>(
            TgaError::TruncatedPayload((pixel_count * bytes_per_px) as usize, payload@.len() as usize),
        ),
        payload@.len() >= pixel_count * bytes_per_px ==> (r matches Ok(v) && v@ == payload@.subrange(
            0,
            pixel_count * bytes_per_px,
        )),
{
    let needed = pixel_count * bytes_per_px;
    if payload.len() < needed {
        return Err(TgaError::TruncatedPayload(needed, payload.len()));
    }
    let mut out: Vec<u8> = Vec::new();
    let mut j: usize = 0;
    while j < needed
        invariant
            j <= needed <= payload@.len(),
            out@ == payload@.subrange(0, j as int),
        decreases needed - j,
    {
        out.push(payload[j]);
        j = j + 1;
        assert(out@ =~= payload@.subrange(0, j as int));
    }
    Ok(out)
}

/// Run-length decoding of `pixel_count` pixels of `bytes_per_px` bytes.
fn decode_rle(payload: &[u8], pixel_count: usize, bytes_per_px: usize) -> (r: Result<
    Vec<u8>,
    TgaError,
>)
    requires
        pixel_count as int * bytes_per_px as int <= usize::MAX,
        3 <= bytes_per_px <= 4,
    ensures
        match rle_from(payload@, 0, Seq::empty(), pixel_count * bytes_per_px, bytes_per_px as int) {
            Ok(s) => (r matches Ok(v) && v@ == s),
            Err(e) => r == Err::<Vec<u8>, TgaError>(e),
        },
{
    let need = pixel_count * bytes_per_px;
    let plen = payload.len();
    let ghost target = rle_from(payload@, 0, Seq::empty(), need as int, bytes_per_px as int);
    let mut out: Vec<u8> = Vec::new();
    let mut i: usize = 0;
    while out.len() < need
        invariant
            need == pixel_count * bytes_per_px,
            plen == payload@.len(),
            target == rle_from(payload@, 0, Seq::empty(), need as int, bytes_per_px as int),
            3 <= bytes_per_px <= 4,
            i <= payload@.len(),
            target == rle_from(payload@, i as int, out@, need as int, bytes_per_px as int),
        decreases payload@.len() - i,
    {
        if i >= plen {
            assert(target == Err::<Seq<u8>, TgaError>(TgaError::RlePayloadEnded));
            return Err(TgaError::RlePayloadEnded);
        }
        let header = payload[i];
        let ghost i0 = i as int;
        i = i + 1;
        let count: usize = (header % 128) as usize + 1;
        assert(count <= 128);
        if header >= 128 {
            if bytes_per_px > plen - i {
                assert(i0 + 1 + bytes_per_px > payload@.len());
                assert(target == Err::<Seq<u8>, TgaError>(TgaError::RleRunTruncated));
                return Err(TgaError::RleRunTruncated);
            }
            let ghost px = payload@.subrange(i as int, i + bytes_per_px);
            let ghost before = out@;
            let mut k: usize = 0;
            while k < count
                invariant
                    k <= count,
                    plen == payload@.len(),
                    i + bytes_per_px <= payload@.len(),
                    px == payload@.subrange(i as int, i + bytes_per_px),
                    out@ == before + repeat(px, k as nat),
                decreases count - k,
            {
                let mut c: usize = 0;
                let ghost mid = out@;
                while c < bytes_per_px
                    invariant
                        c <= bytes_per_px,
                        plen == payload@.len(),
                        i + bytes_per_px <= payload@.len(),
                        px == payload@.subrange(i as int, i + bytes_per_px),
                        out@ == mid + px.subrange(0, c as int),
                    decreases bytes_per_px - c,
                {
                    out.push(payload[i + c]);
                    c = c + 1;
                    assert(out@ =~= mid + px.subrange(0, c as int));
                }
                assert(px.subrange(0, bytes_per_px as int) =~= px);
                assert(repeat(px, (k + 1) as nat) == repeat(px, k as nat) + px);
                assert(out@ =~= before + repeat(px, (k + 1) as nat));
                k = k + 1;
            }
            i = i + bytes_per_px;
        } else {
            assert(count * bytes_per_px <= 512) by (nonlinear_arith)
                requires
                    count <= 128,
                    bytes_per_px <= 4,
            ;
            let raw_len = count * bytes_per_px;
            if raw_len > plen - i {
                assert(target == Err::<Seq<u8>, TgaError>(TgaError::RleRawTruncated));
                return Err(TgaError::RleRawTruncated);
            }
            let ghost before = out@;
            let mut c: usize = 0;
            while c < raw_len
                invariant
                    c <= raw_len,
                    plen == payload@.len(),
                    i + raw_len <= payload@.len(),
                    out@ == before + payload@.subrange(i as int, i + c),
                decreases raw_len - c,
            {
                out.push(payload[i + c]);
                c = c + 1;
                assert(out@ =~= before + payload@.subrange(i as int, i + c));
            }
            i = i + raw_len;
        }
    }
    let ghost full = out@;
    out.truncate(need);
    assert(out@ =~= full.subrange(0, need as int));
    Ok(out)
}

/// Converts a BGR(A) stream to RGBA8, flipping rows for a bottom origin.
fn to_rgba(bgra: &Vec<u8>, width: u32, height: u32, bytes_per_px: usize, top: bool) -> (rgba: Vec<u8>)
    requires
        3 <= bytes_per_px <= 4,
        bgra@.len() == width as int * height as int * bytes_per_px,
        width as int * height as int * 4 <= usize::MAX,
    ensures
        rgba@.len() == width as int * height as int * 4,
        forall|x: int, y: int, c: int|
            0 <= x < width && 0 <= y < height && 0 <= c < 4 ==> rgba@[#[trigger] px_index(
                width as int,
                x,
                y,
                c,
            )] == rgba_channel(bgra@, bytes_per_px as int, source_row(top, height as int, y) * width
                + x, c),
{
    let w = width as usize;
    let h = height as usize;
    let mut rgba: Vec<u8> = Vec::new();
    let mut y: usize = 0;
    while y < h
        invariant
            w == width,
            h == height,
            3 <= bytes_per_px <= 4,
            bgra@.len() == w * h * bytes_per_px,
            w * h * 4 <= usize::MAX,
            y <= h,
            rgba@.len() == y * (w * 4),
            forall|x: int, yy: int, c: int|
                0 <= x < w && 0 <= yy < y && 0 <= c < 4 ==> rgba@[#[trigger] px_index(
                    w as int,
                    x,
                    yy,
                    c,
                )] == rgba_channel(bgra@, bytes_per_px as int, source_row(top, h as int, yy) * w + x, c),
        decreases h - y,
    {
        let src_y: usize = if top {
            y
        } else {
            h - 1 - y
        };
        let mut x: usize = 0;
        let ghost before = rgba@;
        while x < w
            invariant
                w == width,
                h == height,
                3 <= bytes_per_px <= 4,
                bgra@.len() == w * h * bytes_per_px,
                w * h * 4 <= usize::MAX,
                y < h,
                src_y == source_row(top, h as int, y as int),
                x <= w,
                before.len() == y * (w * 4),
                rgba@.len() == before.len() + x * 4,
                forall|a: int| 0 <= a < before.len() ==> rgba@[a] == before[a],
                forall|xx: int, c: int|
                    0 <= xx < x && 0 <= c < 4 ==> rgba@[#[trigger] slot(before.len() as int, xx, c)]
                        == rgba_channel(
                        bgra@,
                        bytes_per_px as int,
                        src_y * w + xx,
                        c,
                    ),
            decreases w - x,
        {
            proof {
                lemma_pixel_offset(w as int, h as int, x as int, src_y as int, bytes_per_px as int);
            }
            let p: usize = src_y * w + x;
            let base: usize = p * bytes_per_px;
            let b = bgra[base];
            let g = bgra[base + 1];
            let r = bgra[base + 2];
            let a = if bytes_per_px == 4 {
                bgra[base + 3]
            } else {
                255
            };
            rgba.push(r);
            rgba.push(g);
            rgba.push(b);
            rgba.push(a);
            x = x + 1;
        }
        proof {
            assert forall|xx: int, yy: int, c: int|
                0 <= xx < w && 0 <= yy < y + 1 && 0 <= c < 4 implies rgba@[#[trigger] px_index(
                w as int,
                xx,
                yy,
                c,
            )] == rgba_channel(bgra@, bytes_per_px as int, source_row(top, h as int, yy) * w + xx, c) by {
                assert(px_index(w as int, xx, yy, c) == yy * (w * 4) + xx * 4 + c) by (nonlinear_arith);
                if yy < y {
                    assert(yy * (w * 4) + xx * 4 + c < y * (w * 4)) by (nonlinear_arith)
                        requires
                            yy < y,
                            0 <= xx < w,
                            0 <= c < 4,
                    ;
                    assert(0 <= yy * (w * 4)) by (nonlinear_arith)
                        requires
                            0 <= yy,
                    ;
                } else {
                    assert(yy * (w * 4) == before.len());
                    assert(px_index(w as int, xx, yy, c) == slot(before.len() as int, xx, c));
                }
            }
            assert((y + 1) * (w * 4) == y * (w * 4) + w * 4) by (nonlinear_arith);
        }
        y = y + 1;
    }
    proof {
        assert(h * (w * 4) == w * h * 4) by (nonlinear_arith);
    }
    rgba
}

/// Offset of channel `c` of pixel `xx` in a row starting at `base`.
spec fn slot(base: int, xx: int, c: int) -> int {
    base + xx * 4 + c
}

proof fn lemma_pixel_offset(w: int, h: int, x: int, y: int, bpp: int)
    requires
        0 <= x < w,
        0 <= y < h,
        1 <= bpp,
    ensures
        0 <= (y * w + x) * bpp,
        (y * w + x) * bpp + bpp <= w * h * bpp,
        y * w + x < w * h,
{
    assert(y * w + x + 1 <= (y + 1) * w) by (nonlinear_arith)
        requires
            x < w,
    ;
    assert((y + 1) * w <= h * w) by (nonlinear_arith)
        requires
            y + 1 <= h,
            0 <= w,
    ;
    assert(0 <= y * w) by (nonlinear_arith)
        requires
            0 <= y,
            0 <= w,
    ;
    assert((y * w + x) * bpp + bpp == (y * w + x + 1) * bpp) by (nonlinear_arith);
    assert((y * w + x + 1) * bpp <= (w * h) * bpp) by (nonlinear_arith)
        requires
            y * w + x + 1 <= w * h,
            1 <= bpp,
    ;
    assert(0 <= (y * w + x) * bpp) by (nonlinear_arith)
        requires
            0 <= y * w + x,
            1 <= bpp,
    ;
}

} // verus!
