//! Parser of the `MapInfo` file inside a map archive: the full grid size
//! and the playable rectangle, in tiles.
//!
//! Binary layout (little-endian `u32`s):
//!
//! ```text
//! 0x00  "IpaM"         magic ("MapI" written as a LE u32)
//! 0x04  version
//! 0x08  build/hash
//! 0x0c  reserved
//! 0x10  width          full grid width in tiles
//! 0x14  height         full grid height in tiles
//! 0x18  18 bytes       preview/minimap flags
//! 0x2a  tileset        zero-terminated UTF-8 string
//! ?     planet         zero-terminated UTF-8 string
//! ?     playable min_x, min_y, max_x, max_y
//! ```

use vstd::prelude::*;
use vstd::utf8::valid_utf8;

use crate::text::{decimal, push_decimal};

verus! {

/// Grid size and playable rectangle `[min, max)` of a map, in tiles.
#[derive(Clone, Copy, Debug, PartialEq, Eq, Structural)]
pub struct MapInfo {
    pub width: u32,
    pub height: u32,
    pub playable_min_x: u32,
    pub playable_min_y: u32,
    pub playable_max_x: u32,
    pub playable_max_y: u32,
}

/// Why a `MapInfo` buffer was rejected.
#[derive(Clone, Copy, Debug, PartialEq, Eq, Structural)]
pub enum MapInfoError {
    /// Shorter than the fixed header plus the playable rectangle (the
    /// buffer's length).
    TooShort(usize),
    /// The first four bytes are not `IpaM` (those bytes).
    BadMagic(u8, u8, u8, u8),
    /// Width or height outside `32..=512` (width, height).
    ImplausibleDimensions(u32, u32),
    /// A string field has no zero terminator.
    UnterminatedCString,
    /// A string field is not valid UTF-8.
    CStringNotUtf8,
    /// The buffer ends before the playable rectangle.
    TruncatedBeforePlayableArea,
    /// The playable rectangle is empty or reaches outside the grid (its
    /// minimum x and y, maximum x and y, then the grid's width and height).
    ImplausiblePlayableRect(u32, u32, u32, u32, u32, u32),
}

/// The text of a `MapInfo` error, as the parser reports it.
pub open spec fn map_info_error_message(e: MapInfoError) -> Seq<char> {
    match e {
        MapInfoError::TooShort(n) => "MapInfo: too short ("@ + decimal(n as nat) + " bytes)"@,
        MapInfoError::BadMagic(a, b, c, d) => "MapInfo: bad magic ["@ + decimal(a as nat) + ", "@
            + decimal(b as nat) + ", "@ + decimal(c as nat) + ", "@ + decimal(d as nat) + "]"@,
        MapInfoError::ImplausibleDimensions(w, h) => "MapInfo: implausible dimensions "@ + decimal(
            w as nat,
        ) + "x"@ + decimal(h as nat),
        MapInfoError::UnterminatedCString => "MapInfo: unterminated cstring"@,
        MapInfoError::CStringNotUtf8 => "MapInfo: cstring not utf-8"@,
        MapInfoError::TruncatedBeforePlayableArea => "MapInfo: truncated before playable area"@,
        MapInfoError::ImplausiblePlayableRect(x0, y0, x1, y1, w, h) => "MapInfo: implausible playable rect ("@
            + decimal(x0 as nat) + ","@ + decimal(y0 as nat) + ")-("@ + decimal(x1 as nat) + ","@
            + decimal(y1 as nat) + ") inside "@ + decimal(w as nat) + "x"@ + decimal(h as nat),
    }
}

impl MapInfoError {
    /// The error's text, with the values that caused it. (For a string
    /// field that is not UTF-8 it does not say where the bad sequence is.)
    pub fn message(&self) -> (r: String)
        ensures
            r@ == map_info_error_message(*self),
    {
        let mut s = String::new();
        match self {
            MapInfoError::TooShort(n) => {
                s.append("MapInfo: too short (");
                push_decimal(&mut s, *n as u64);
                s.append(" bytes)");
            },
            MapInfoError::BadMagic(a, b, c, d) => {
                s.append("MapInfo: bad magic [");
                push_decimal(&mut s, *a as u64);
                s.append(", ");
                push_decimal(&mut s, *b as u64);
                s.append(", ");
                push_decimal(&mut s, *c as u64);
                s.append(", ");
                push_decimal(&mut s, *d as u64);
                s.append("]");
            },
            MapInfoError::ImplausibleDimensions(w, h) => {
                s.append("MapInfo: implausible dimensions ");
                push_decimal(&mut s, *w as u64);
                s.append("x");
                push_decimal(&mut s, *h as u64);
            },
            MapInfoError::UnterminatedCString => {
                s.append("MapInfo: unterminated cstring");
            },
            MapInfoError::CStringNotUtf8 => {
                s.append("MapInfo: cstring not utf-8");
            },
            MapInfoError::TruncatedBeforePlayableArea => {
                s.append("MapInfo: truncated before playable area");
            },
            MapInfoError::ImplausiblePlayableRect(x0, y0, x1, y1, w, h) => {
                s.append("MapInfo: implausible playable rect (");
                push_decimal(&mut s, *x0 as u64);
                s.append(",");
                push_decimal(&mut s, *y0 as u64);
                s.append(")-(");
                push_decimal(&mut s, *x1 as u64);
                s.append(",");
                push_decimal(&mut s, *y1 as u64);
                s.append(") inside ");
                push_decimal(&mut s, *w as u64);
                s.append("x");
                push_decimal(&mut s, *h as u64);
            },
        }
        assert(s@ =~= map_info_error_message(*self));
        s
    }
}

/// Offset of the first string field (the tileset name).
pub const HEADER_SIZE: usize = 0x2a;

/// Little-endian `u32` at byte offset `i`.
pub open spec fn le_u32(b: Seq<u8>, i: int) -> u32 {
    (b[i] as int + b[i + 1] as int * 0x100 + b[i + 2] as int * 0x1_0000 + b[i + 3] as int
        * 0x100_0000) as u32
}

/// A grid side between 32 and 512 tiles.
pub open spec fn plausible_dim_spec(d: u32) -> bool {
    32 <= d <= 512
}

/// Index of the first zero byte at or after `from`, or `b.len()` if none.
pub open spec fn find_zero(b: Seq<u8>, from: int) -> int
    decreases b.len() - from,
{
    if from >= b.len() || from < 0 {
        b.len() as int
    } else if b[from] == 0 {
        from
    } else {
        find_zero(b, from + 1)
    }
}

/// Reads the zero-terminated UTF-8 string starting at `at`: the cursor just
/// after its terminator, or why it is malformed.
pub open spec fn cstring_end(b: Seq<u8>, at: int) -> Result<int, MapInfoError> {
    let z = find_zero(b, at);
    if z >= b.len() {
        Err(MapInfoError::UnterminatedCString)
    } else if !valid_utf8(b.subrange(at, z)) {
        Err(MapInfoError::CStringNotUtf8)
    } else {
        Ok(z + 1)
    }
}

/// What `parse` makes of the bytes of a `MapInfo` file.
pub open spec fn parse_spec(b: Seq<u8>) -> Result<MapInfo, MapInfoError> {
    if b.len() < HEADER_SIZE + 16 {
        Err(MapInfoError::TooShort(b.len() as usize))
    } else if b.subrange(0, 4) != seq![0x49u8, 0x70u8, 0x61u8, 0x4du8] {
        Err(MapInfoError::BadMagic(b[0], b[1], b[2], b[3]))
    } else if !plausible_dim_spec(le_u32(b, 0x10)) || !plausible_dim_spec(le_u32(b, 0x14)) {
        Err(MapInfoError::ImplausibleDimensions(le_u32(b, 0x10), le_u32(b, 0x14)))
    } else {
        match cstring_end(b, HEADER_SIZE as int) {
            Err(e) => Err(e),
            Ok(c1) => match cstring_end(b, c1) {
                Err(e) => Err(e),
                Ok(c) => {
                    if c + 16 > b.len() {
                        Err(MapInfoError::TruncatedBeforePlayableArea)
                    } else {
                        let width = le_u32(b, 0x10);
                        let height = le_u32(b, 0x14);
                        let min_x = le_u32(b, c);
                        let min_y = le_u32(b, c + 4);
                        let max_x = le_u32(b, c + 8);
                        let max_y = le_u32(b, c + 12);
                        if min_x >= max_x || min_y >= max_y || max_x > width || max_y > height {
                            Err(
                                MapInfoError::ImplausiblePlayableRect(
                                    min_x,
                                    min_y,
                                    max_x,
                                    max_y,
                                    width,
                                    height,
                                ),
                            )
                        } else {
                            Ok(
                                MapInfo {
                                    width,
                                    height,
                                    playable_min_x: min_x,
                                    playable_min_y: min_y,
                                    playable_max_x: max_x,
                                    playable_max_y: max_y,
                                },
                            )
                        }
                    }
                },
            },
        }
    }
}

/// Whether `bytes` is valid UTF-8, through `std::str::from_utf8`.
///
/// `from_utf8` is documented to succeed exactly on valid UTF-8; the
/// contract states that with vstd's definition of valid UTF-8.
#[verifier::external_body]
pub(crate) fn utf8_is_valid(bytes: &[u8]) -> (r: bool)
    ensures
        r == valid_utf8(bytes@),
{
    std::str::from_utf8(bytes).is_ok()
}

/// Little-endian `u32` at `bytes[i..i + 4]`.
pub(crate) fn read_u32(bytes: &[u8], i: usize) -> (r: u32)
    requires
        i + 4 <= bytes@.len(),
    ensures
        r == le_u32(bytes@, i as int),
{
    let b0 = bytes[i] as u32;
    let b1 = bytes[i + 1] as u32;
    let b2 = bytes[i + 2] as u32;
    let b3 = bytes[i + 3] as u32;
    b0 + b1 * 0x100 + b2 * 0x1_0000 + b3 * 0x100_0000
}

/// A grid side between 32 and 512 tiles.
fn plausible_dim(d: u32) -> (r: bool)
    ensures
        r == plausible_dim_spec(d),
{
    32 <= d && d <= 512
}

/// Skips the zero-terminated UTF-8 string at `*cursor`, leaving the cursor
/// just after its terminator.
fn read_cstring(bytes: &[u8], cursor: &mut usize) -> (r: Result<(), MapInfoError>)
    requires
        *old(cursor) <= bytes@.len(),
    ensures
        r is Ok <==> cstring_end(bytes@, *old(cursor) as int) is Ok,
        r matches Err(e) ==> cstring_end(bytes@, *old(cursor) as int) == Err::<int, MapInfoError>(e),
        r is Ok ==> cstring_end(bytes@, *old(cursor) as int) == Ok::<int, MapInfoError>(*final(cursor) as int),
{
    let start = *cursor;
    while *cursor < bytes.len() && bytes[*cursor] != 0
        invariant
            start <= *cursor <= bytes@.len(),
            find_zero(bytes@, *cursor as int) == find_zero(bytes@, start as int),
        decreases bytes@.len() - *cursor,
    {
        *cursor = *cursor + 1;
    }
    if *cursor >= bytes.len() {
        return Err(MapInfoError::UnterminatedCString);
    }
    let s = &bytes[start..*cursor];
    if !utf8_is_valid(s) {
        return Err(MapInfoError::CStringNotUtf8);
    }
    *cursor = *cursor + 1;
    Ok(())
}

/// Parses a `MapInfo` file: grid size (each side within `32..=512`) and a
/// non-empty playable rectangle inside the grid.
pub fn parse(bytes: &[u8]) -> (r: Result<MapInfo, MapInfoError>)
    ensures
        r == parse_spec(bytes@),
{
    if bytes.len() < HEADER_SIZE + 16 {
        return Err(MapInfoError::TooShort(bytes.len()));
    }
    if !(bytes[0] == 0x49 && bytes[1] == 0x70 && bytes[2] == 0x61 && bytes[3] == 0x4d) {
        assert(bytes@.subrange(0, 4) != seq![0x49u8, 0x70u8, 0x61u8, 0x4du8]) by {
            if bytes@.subrange(0, 4) == seq![0x49u8, 0x70u8, 0x61u8, 0x4du8] {
                assert(bytes@.subrange(0, 4)[0] == bytes@[0]);
                assert(bytes@.subrange(0, 4)[1] == bytes@[1]);
                assert(bytes@.subrange(0, 4)[2] == bytes@[2]);
                assert(bytes@.subrange(0, 4)[3] == bytes@[3]);
            }
        }
        return Err(MapInfoError::BadMagic(bytes[0], bytes[1], bytes[2], bytes[3]));
    }
    assert(bytes@.subrange(0, 4) =~= seq![0x49u8, 0x70u8, 0x61u8, 0x4du8]);
    let width = read_u32(bytes, 0x10);
    let height = read_u32(bytes, 0x14);
    if !plausible_dim(width) || !plausible_dim(height) {
        return Err(MapInfoError::ImplausibleDimensions(width, height));
    }
    let mut cursor: usize = HEADER_SIZE;
    match read_cstring(bytes, &mut cursor) {
        Err(e) => {
            return Err(e);
        },
        Ok(()) => {},
    }
    let ghost c1 = cursor;
    match read_cstring(bytes, &mut cursor) {
        Err(e) => {
            return Err(e);
        },
        Ok(()) => {},
    }
    if cursor > bytes.len() || bytes.len() - cursor < 16 {
        return Err(MapInfoError::TruncatedBeforePlayableArea);
    }
    let playable_min_x = read_u32(bytes, cursor);
    let playable_min_y = read_u32(bytes, cursor + 4);
    let playable_max_x = read_u32(bytes, cursor + 8);
    let playable_max_y = read_u32(bytes, cursor + 12);
    if playable_min_x >= playable_max_x || playable_min_y >= playable_max_y || playable_max_x
        > width || playable_max_y > height {
        return Err(
            MapInfoError::ImplausiblePlayableRect(
                playable_min_x,
                playable_min_y,
                playable_max_x,
                playable_max_y,
                width,
                height,
            ),
        );
    }
    Ok(
        MapInfo {
            width,
            height,
            playable_min_x,
            playable_min_y,
            playable_max_x,
            playable_max_y,
        },
    )
}


/// The info is one `parse` accepts: each grid side within `32..=512` and a
/// non-empty playable rectangle inside the grid.
pub open spec fn map_info_valid(i: MapInfo) -> bool {
    &&& plausible_dim_spec(i.width)
    &&& plausible_dim_spec(i.height)
    &&& i.playable_min_x < i.playable_max_x
    &&& i.playable_min_y < i.playable_max_y
    &&& i.playable_max_x <= i.width
    &&& i.playable_max_y <= i.height
}

/// Little-endian bytes of `v`.
pub open spec fn le_bytes(v: u32) -> Seq<u8> {
    seq![(v % 0x100) as u8, ((v / 0x100) % 0x100) as u8, ((v / 0x1_0000) % 0x100) as u8, (v / 0x100_0000) as u8]
}

/// The bytes of a `MapInfo` file in the documented layout: `meta` holds
/// the version, build and reserved words (12 bytes), `flags` the 18
/// preview bytes, `tileset` and `planet` the two names without their
/// terminators.
pub open spec fn map_info_bytes(
    info: MapInfo,
    meta: Seq<u8>,
    flags: Seq<u8>,
    tileset: Seq<u8>,
    planet: Seq<u8>,
) -> Seq<u8> {
    seq![0x49u8, 0x70u8, 0x61u8, 0x4du8] + meta + le_bytes(info.width) + le_bytes(info.height) + flags
        + tileset + seq![0u8] + planet + seq![0u8] + le_bytes(info.playable_min_x) + le_bytes(
        info.playable_min_y,
    ) + le_bytes(info.playable_max_x) + le_bytes(info.playable_max_y)
}

/// A string field: no zero byte inside, valid UTF-8.
pub open spec fn cstring_ok(s: Seq<u8>) -> bool {
    &&& forall|k: int| 0 <= k < s.len() ==> s[k] != 0
    &&& valid_utf8(s)
}

/// Reading back the little-endian bytes of `v` gives `v`.
proof fn lemma_le_roundtrip(b: Seq<u8>, i: int, v: u32)
    requires
        0 <= i,
        i + 4 <= b.len(),
        b.subrange(i, i + 4) == le_bytes(v),
    ensures
        le_u32(b, i) == v,
{
    assert(b[i] == le_bytes(v)[0] && b[i + 1] == le_bytes(v)[1] && b[i + 2] == le_bytes(v)[2] && b[i + 3]
        == le_bytes(v)[3]) by {
        assert(b.subrange(i, i + 4)[0] == b[i]);
        assert(b.subrange(i, i + 4)[1] == b[i + 1]);
        assert(b.subrange(i, i + 4)[2] == b[i + 2]);
        assert(b.subrange(i, i + 4)[3] == b[i + 3]);
    }
    let x = v as int;
    assert((x % 0x100) + ((x / 0x100) % 0x100) * 0x100 + ((x / 0x1_0000) % 0x100) * 0x1_0000 + (x
        / 0x100_0000) * 0x100_0000 == x) by (nonlinear_arith)
        requires
            0 <= x <= u32::MAX,
    ;
}

/// With no zero byte in `[from, to)` and one at `to`, the first zero from
/// `from` is at `to`.
proof fn lemma_find_zero_at(b: Seq<u8>, from: int, to: int)
    requires
        0 <= from <= to < b.len(),
        forall|k: int| from <= k < to ==> b[k] != 0,
        b[to] == 0,
    ensures
        find_zero(b, from) == to,
    decreases to - from,
{
    if from < to {
        lemma_find_zero_at(b, from + 1, to);
    }
}

/// Whatever `parse` accepts is a valid map info.
pub proof fn lemma_parse_valid(b: Seq<u8>)
    ensures
        parse_spec(b) matches Ok(i) ==> map_info_valid(i),
{
}

/// `parse` reads back every valid record written in the documented
/// layout, whatever the version, build, flags and names.
pub proof fn lemma_parse_roundtrip(
    info: MapInfo,
    meta: Seq<u8>,
    flags: Seq<u8>,
    tileset: Seq<u8>,
    planet: Seq<u8>,
)
    requires
        map_info_valid(info),
        meta.len() == 12,
        flags.len() == 18,
        cstring_ok(tileset),
        cstring_ok(planet),
    ensures
        parse_spec(map_info_bytes(info, meta, flags, tileset, planet)) == Ok::<MapInfo, MapInfoError>(info),
{
    let b = map_info_bytes(info, meta, flags, tileset, planet);
    let t = tileset.len() as int;
    let p = planet.len() as int;
    let c1 = 0x2a + t + 1;
    let c = c1 + p + 1;
    assert(b.len() == c + 16);
    assert(b.subrange(0, 4) =~= seq![0x49u8, 0x70u8, 0x61u8, 0x4du8]);
    assert(b.subrange(0x10, 0x14) =~= le_bytes(info.width));
    assert(b.subrange(0x14, 0x18) =~= le_bytes(info.height));
    lemma_le_roundtrip(b, 0x10, info.width);
    lemma_le_roundtrip(b, 0x14, info.height);
    assert(b.subrange(0x2a, 0x2a + t) =~= tileset);
    assert forall|k: int| 0x2a <= k < 0x2a + t implies b[k] != 0 by {
        assert(b[k] == tileset[k - 0x2a]);
    }
    assert(b[0x2a + t] == 0);
    lemma_find_zero_at(b, 0x2a, 0x2a + t);
    assert(cstring_end(b, 0x2a) == Ok::<int, MapInfoError>(c1));
    assert(b.subrange(c1, c1 + p) =~= planet);
    assert forall|k: int| c1 <= k < c1 + p implies b[k] != 0 by {
        assert(b[k] == planet[k - c1]);
    }
    assert(b[c1 + p] == 0);
    lemma_find_zero_at(b, c1, c1 + p);
    assert(cstring_end(b, c1) == Ok::<int, MapInfoError>(c));
    assert(b.subrange(c, c + 4) =~= le_bytes(info.playable_min_x));
    assert(b.subrange(c + 4, c + 8) =~= le_bytes(info.playable_min_y));
    assert(b.subrange(c + 8, c + 12) =~= le_bytes(info.playable_max_x));
    assert(b.subrange(c + 12, c + 16) =~= le_bytes(info.playable_max_y));
    lemma_le_roundtrip(b, c, info.playable_min_x);
    lemma_le_roundtrip(b, c + 4, info.playable_min_y);
    lemma_le_roundtrip(b, c + 8, info.playable_max_x);
    lemma_le_roundtrip(b, c + 12, info.playable_max_y);
}

} // verus!
