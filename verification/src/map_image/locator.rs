//! Locating map archives from a replay's cache handles.
//!
//! A cache handle is 80 hex characters: 8 for the file extension (4 ASCII
//! bytes), 4 for a delimiter, 4 for the region and 64 for the SHA-256 of
//! the file. The Battle.net cache stores the file at
//! `Cache/<hash[0..2]>/<hash[2..4]>/<hash>.s2ma`.

use vstd::prelude::*;
use vstd::string::*;
use vstd::utf8::{encode_utf8, is_char_boundary};

use std::path::PathBuf;

use crate::text::{ascii_lower, eq_ignore_ascii_case_spec, push_char, str_eq_ignore_ascii_case};

verus! {

/// `std::path::PathBuf`, carried through as an opaque value.
#[verifier::external_type_specification]
#[verifier::external_body]
pub struct ExPathBuf(PathBuf);

/// Value of an ASCII hexadecimal digit (either case).
pub open spec fn hex_digit_value(c: u8) -> Option<nat> {
    if 0x30 <= c <= 0x39 {
        Some((c - 0x30) as nat)
    } else if 0x61 <= c <= 0x66 {
        Some((c - 0x61 + 10) as nat)
    } else if 0x41 <= c <= 0x46 {
        Some((c - 0x41 + 10) as nat)
    } else {
        None
    }
}

/// What `u8::from_str_radix(.., 16)` makes of a two-byte string: an
/// optional `+` followed by one digit, or two digits.
pub open spec fn hex_pair(b0: u8, b1: u8) -> Option<u8> {
    if b0 == 0x2b {
        match hex_digit_value(b1) {
            Some(d) => Some(d as u8),
            None => None,
        }
    } else {
        match (hex_digit_value(b0), hex_digit_value(b1)) {
            (Some(h), Some(l)) => Some((h * 16 + l) as u8),
            _ => None,
        }
    }
}

/// Decodes consecutive hex pairs into printable ASCII, dropping NUL bytes;
/// `None` on a bad pair or a non-printable, non-NUL byte.
pub open spec fn decode_pairs(b: Seq<u8>) -> Option<Seq<char>>
    decreases b.len(),
{
    if b.len() < 2 {
        Some(Seq::empty())
    } else {
        match hex_pair(b[0], b[1]) {
            None => None,
            Some(v) => if !(0x20 <= v <= 0x7e) && v != 0 {
                None
            } else {
                match decode_pairs(b.subrange(2, b.len() as int)) {
                    None => None,
                    Some(rest) => Some(
                        if v == 0 {
                            rest
                        } else {
                            seq![v as char] + rest
                        },
                    ),
                }
            },
        }
    }
}

/// Hex-to-ASCII decoding of a byte string of even length.
pub open spec fn decode_hex_ascii_spec(b: Seq<u8>) -> Option<Seq<char>> {
    if b.len() % 2 != 0 {
        None
    } else {
        decode_pairs(b)
    }
}

/// The 64 hash characters of a handle, lower-cased, when all are hex digits.
pub open spec fn handle_hash(b: Seq<u8>) -> Option<Seq<char>> {
    if forall|i: int| 16 <= i < 80 ==> #[trigger] hex_digit_value(b[i]) is Some {
        Some(Seq::new(64, |i: int| ascii_lower(b[16 + i] as char)))
    } else {
        None
    }
}

/// `(extension, hash)` of an 80-byte cache handle.
pub open spec fn parse_cache_handle_spec(b: Seq<u8>) -> Option<(Seq<char>, Seq<char>)> {
    if b.len() != 80 {
        None
    } else {
        match decode_hex_ascii_spec(b.subrange(0, 8)) {
            None => None,
            Some(ext) => match handle_hash(b) {
                None => None,
                Some(hash) => Some((ext, hash)),
            },
        }
    }
}

/// Value of one hex digit byte.
fn hex_digit(c: u8) -> (r: Option<u8>)
    ensures
        match hex_digit_value(c) {
            Some(d) => r == Some(d as u8),
            None => r is None,
        },
{
    if 0x30 <= c && c <= 0x39 {
        Some(c - 0x30)
    } else if 0x61 <= c && c <= 0x66 {
        Some(c - 0x61 + 10)
    } else if 0x41 <= c && c <= 0x46 {
        Some(c - 0x41 + 10)
    } else {
        None
    }
}

/// The byte value of a two-character hex string, as `u8::from_str_radix`
/// with radix 16 reads it.
fn parse_hex_pair(b0: u8, b1: u8) -> (r: Option<u8>)
    ensures
        r == hex_pair(b0, b1),
{
    if b0 == 0x2b {
        hex_digit(b1)
    } else {
        match (hex_digit(b0), hex_digit(b1)) {
            (Some(h), Some(l)) => Some(h * 16 + l),
            _ => None,
        }
    }
}

/// Decodes pairs of hex digits into ASCII bytes, on raw bytes.
fn decode_hex_ascii_bytes(hex: &[u8]) -> (r: Option<String>)
    ensures
        match decode_hex_ascii_spec(hex@) {
            Some(s) => (r matches Some(t) && t@ == s),
            None => r is None,
        },
{
    let n = hex.len();
    if n % 2 != 0 {
        return None;
    }
    let mut out = String::new();
    let mut i: usize = 0;
    assert(hex@.subrange(0, n as int) =~= hex@);
    proof {
        match decode_pairs(hex@) {
            None => {},
            Some(rest) => {
                assert(out@ + rest =~= rest);
            },
        }
    }
    while i < n
        invariant
            n == hex@.len(),
            n % 2 == 0,
            i <= n,
            i % 2 == 0,
            decode_pairs(hex@) == match decode_pairs(hex@.subrange(i as int, n as int)) {
                None => None,
                Some(rest) => Some(out@ + rest),
            },
        decreases n - i,
    {
        let ghost tail = hex@.subrange(i as int, n as int);
        assert(tail.subrange(2, tail.len() as int) =~= hex@.subrange(i + 2, n as int));
        let byte = match parse_hex_pair(hex[i], hex[i + 1]) {
            Some(b) => b,
            None => {
                return None;
            },
        };
        if !(0x20 <= byte && byte <= 0x7e) && byte != 0 {
            return None;
        }
        if byte != 0 {
            push_char(&mut out, byte as char);
            proof {
                match decode_pairs(hex@.subrange(i + 2, n as int)) {
                    None => {},
                    Some(rest) => {
                        assert(out@ + rest =~= old_out_plus(out@, rest));
                    },
                }
            }
        }
        i = i + 2;
    }
    assert(hex@.subrange(n as int, n as int) =~= Seq::<u8>::empty());
    assert(out@ + Seq::<char>::empty() =~= out@);
    Some(out)
}

/// Identity helper naming a concatenation for the solver.
spec fn old_out_plus(a: Seq<char>, b: Seq<char>) -> Seq<char> {
    a + b
}

/// Converts a string of hex digit pairs into ASCII (e.g. `"73326d61"` to
/// `"s2ma"`). NUL bytes are dropped; `None` for odd length, a pair that is
/// not hex, or a byte that is neither printable ASCII nor NUL.
pub fn decode_hex_ascii(hex: &str) -> (r: Option<String>)
    ensures
        match decode_hex_ascii_spec(hex.spec_bytes()) {
            Some(s) => (r matches Some(t) && t@ == s),
            None => r is None,
        },
{
    decode_hex_ascii_bytes(hex.as_bytes())
}

/// Splits an 80-character cache handle into its file extension (decoded
/// from the first 8 hex characters) and its lower-cased 64-character hash.
/// `None` when the length is wrong, the extension is not hex ASCII, or the
/// hash is not all hex digits.
pub fn parse_cache_handle(handle: &str) -> (r: Option<(String, String)>)
    requires
        handle.spec_bytes().len() == 80 ==> is_char_boundary(handle.spec_bytes(), 8)
            && is_char_boundary(handle.spec_bytes(), 16),
    ensures
        match parse_cache_handle_spec(handle.spec_bytes()) {
            Some((ext, hash)) => (r matches Some((e, h)) && e@ == ext && h@ == hash),
            None => r is None,
        },
{
    let b = handle.as_bytes();
    if b.len() != 80 {
        return None;
    }
    let head = slice_prefix(b, 8);
    let ext = match decode_hex_ascii_bytes(head) {
        Some(e) => e,
        None => {
            return None;
        },
    };
    let mut hash = String::new();
    let mut i: usize = 16;
    while i < 80
        invariant
            b@.len() == 80,
            b@ == handle.spec_bytes(),
            decode_hex_ascii_spec(b@.subrange(0, 8)) == Some(ext@),
            16 <= i <= 80,
            forall|j: int| 16 <= j < i ==> #[trigger] hex_digit_value(b@[j]) is Some,
            hash@ == Seq::new((i - 16) as nat, |j: int| ascii_lower(b@[16 + j] as char)),
        decreases 80 - i,
    {
        let c = b[i];
        if hex_digit(c).is_none() {
            assert(!(hex_digit_value(b@[i as int]) is Some));
            assert(handle_hash(b@) is None);
            return None;
        }
        let lower: u8 = if 0x41 <= c && c <= 0x46 {
            c + 32
        } else {
            c
        };
        assert(lower as char == ascii_lower(c as char));
        push_char(&mut hash, lower as char);
        i = i + 1;
        assert(hash@ =~= Seq::new((i - 16) as nat, |j: int| ascii_lower(b@[16 + j] as char)));
    }
    Some((ext, hash))
}

/// The prefix `bytes[..n]`.
fn slice_prefix(bytes: &[u8], n: usize) -> (r: &[u8])
    requires
        n <= bytes@.len(),
    ensures
        r@ == bytes@.subrange(0, n as int),
{
    &bytes[0..n]
}

/// The hashes (in order) of the handles that parse and name an `s2ma` file.
pub open spec fn s2ma_hashes_spec(handles: Seq<Seq<u8>>) -> Seq<Seq<char>>
    decreases handles.len(),
{
    if handles.len() == 0 {
        Seq::empty()
    } else {
        let rest = s2ma_hashes_spec(handles.drop_last());
        match parse_cache_handle_spec(handles.last()) {
            Some((ext, hash)) => if ext == "s2ma"@ {
                rest.push(hash)
            } else {
                rest
            },
            None => rest,
        }
    }
}

/// Hashes, in order, of the handles that parse and whose extension is
/// `s2ma`: the files the Battle.net cache may hold for a replay.
pub fn cache_handle_hashes(handles: &[String]) -> (r: Vec<String>)
    requires
        forall|i: int|
            0 <= i < handles@.len() ==> (#[trigger] encode_utf8(handles@[i]@)).len() == 80
                ==> is_char_boundary(encode_utf8(handles@[i]@), 8) && is_char_boundary(
                encode_utf8(handles@[i]@),
                16,
            ),
    ensures
        r@.map_values(|s: String| s@) == s2ma_hashes_spec(
            handles@.map_values(|h: String| encode_utf8(h@)),
        ),
{
    let ghost hb = handles@.map_values(|h: String| encode_utf8(h@));
    let mut out: Vec<String> = Vec::new();
    let mut i: usize = 0;
    while i < handles.len()
        invariant
            i <= handles@.len(),
            hb == handles@.map_values(|h: String| encode_utf8(h@)),
            forall|j: int|
                0 <= j < handles@.len() ==> (#[trigger] encode_utf8(handles@[j]@)).len() == 80
                    ==> is_char_boundary(encode_utf8(handles@[j]@), 8) && is_char_boundary(
                    encode_utf8(handles@[j]@),
                    16,
                ),
            out@.map_values(|s: String| s@) == s2ma_hashes_spec(hb.subrange(0, i as int)),
        decreases handles@.len() - i,
    {
        let h = handles[i].as_str();
        assert(h.spec_bytes() == encode_utf8(handles@[i as int]@));
        assert(hb.subrange(0, i + 1).drop_last() =~= hb.subrange(0, i as int));
        assert(hb.subrange(0, i + 1).last() == hb[i as int]);
        match parse_cache_handle(h) {
            Some((ext, hash)) => {
                if crate::text::str_eq(ext.as_str(), "s2ma") {
                    out.push(hash);
                    assert(out@.map_values(|s: String| s@) =~= s2ma_hashes_spec(
                        hb.subrange(0, i as int),
                    ).push(hash@));
                }
            },
            None => {},
        }
        i = i + 1;
    }
    assert(hb.subrange(0, handles@.len() as int) =~= hb);
    out
}

/// The 3-level cache location parts of a hash: its first two characters,
/// the next two, and `<hash>.s2ma`.
pub fn cache_shard_parts(hash: &str) -> (r: (String, String, String))
    requires
        hash.is_ascii(),
        hash@.len() >= 4,
    ensures
        r.0@ == hash@.subrange(0, 2),
        r.1@ == hash@.subrange(2, 4),
        r.2@ == hash@ + ".s2ma"@,
{
    let a = hash.substring_ascii(0, 2).to_owned();
    let b = hash.substring_ascii(2, 4).to_owned();
    let mut c = hash.to_owned();
    c.append(".s2ma");
    (a, b, c)
}

/// What `std::path::Path::join` gives for a base path and a string part.
pub uninterp spec fn path_joined(base: PathBuf, part: Seq<char>) -> PathBuf;

/// `base.join(part)`, through `std::path::Path::join`.
///
/// `join` is a pure function of its two arguments (for the target the
/// crate is built for): the contract names its result and says no more.
/// What the joined path looks like (the separator, and that an absolute
/// `part` replaces `base`) is left unsaid.
#[verifier::external_body]
fn path_join(base: &PathBuf, part: &str) -> (r: PathBuf)
    ensures
        r == path_joined(*base, part@),
{
    base.join(part)
}

/// Path of a hash's file under a Battle.net cache root:
/// `root/<hash[0..2]>/<hash[2..4]>/<hash>.s2ma`.
pub fn cache_handle_to_path(root: &PathBuf, hash: &str) -> (r: PathBuf)
    requires
        hash.is_ascii(),
        hash@.len() >= 4,
    ensures
        r == path_joined(
            path_joined(path_joined(*root, hash@.subrange(0, 2)), hash@.subrange(2, 4)),
            hash@ + ".s2ma"@,
        ),
{
    let (a, b, c) = cache_shard_parts(hash);
    let p1 = path_join(root, a.as_str());
    let p2 = path_join(&p1, b.as_str());
    path_join(&p2, c.as_str())
}

/// A map archive's extension: `SC2Map` or `s2ma`, in any ASCII case.
pub open spec fn is_map_extension_spec(ext: Seq<char>) -> bool {
    eq_ignore_ascii_case_spec(ext, "SC2Map"@) || eq_ignore_ascii_case_spec(ext, "s2ma"@)
}

/// Whether a file extension names a map archive (`.SC2Map`, `.s2ma`).
pub fn is_map_extension(ext: &str) -> (r: bool)
    ensures
        r == is_map_extension_spec(ext@),
{
    str_eq_ignore_ascii_case(ext, "SC2Map") || str_eq_ignore_ascii_case(ext, "s2ma")
}

/// The stem at `k` is a UTF-8 stem equal to the title, ignoring ASCII case.
pub open spec fn stem_matches_spec(stems: Seq<Option<String>>, k: int, title: Seq<char>) -> bool {
    stems[k] matches Some(s) && eq_ignore_ascii_case_spec(s@, title)
}

/// Index of the first candidate whose file stem is the map title (ASCII
/// case ignored), in candidate order; none for an empty title. `stems`
/// holds each candidate's file stem, `None` where it is not UTF-8.
pub fn first_stem_match(stems: &[Option<String>], title: &str) -> (r: Option<usize>)
    ensures
        title@.len() == 0 ==> r is None,
        title@.len() > 0 ==> match r {
            Some(k) => k < stems@.len() && stem_matches_spec(stems@, k as int, title@) && forall|j: int|
                0 <= j < k ==> !#[trigger] stem_matches_spec(stems@, j, title@),
            None => forall|j: int| 0 <= j < stems@.len() ==> !#[trigger] stem_matches_spec(stems@, j, title@),
        },
{
    if title.unicode_len() == 0 {
        return None;
    }
    let mut k: usize = 0;
    while k < stems.len()
        invariant
            k <= stems@.len(),
            title@.len() > 0,
            forall|j: int| 0 <= j < k ==> !#[trigger] stem_matches_spec(stems@, j, title@),
        decreases stems@.len() - k,
    {
        match &stems[k] {
            Some(s) => {
                if str_eq_ignore_ascii_case(s.as_str(), title) {
                    return Some(k);
                }
            },
            None => {},
        }
        k = k + 1;
    }
    None
}


/// Lower-case hex digit of a nibble.
pub open spec fn hex_nibble(n: int) -> u8 {
    if n < 10 {
        (0x30 + n) as u8
    } else {
        (0x61 + n - 10) as u8
    }
}

/// Lower-case hex encoding of a string of ASCII characters, two digits
/// per character.
pub open spec fn hex_encode(s: Seq<char>) -> Seq<u8>
    decreases s.len(),
{
    if s.len() == 0 {
        Seq::empty()
    } else {
        seq![hex_nibble(((s[0] as u32) / 16) as int), hex_nibble(((s[0] as u32) % 16) as int)] + hex_encode(
            s.drop_first(),
        )
    }
}

/// Every character is printable ASCII (space to `~`).
pub open spec fn printable_ascii(s: Seq<char>) -> bool {
    forall|i: int| 0 <= i < s.len() ==> 0x20 <= (#[trigger] s[i]) as u32 <= 0x7e
}

/// Hex encoding doubles the length.
proof fn lemma_hex_encode_len(s: Seq<char>)
    ensures
        hex_encode(s).len() == 2 * s.len(),
    decreases s.len(),
{
    if s.len() > 0 {
        lemma_hex_encode_len(s.drop_first());
    }
}

/// Hex decoding reads back the hex encoding of printable ASCII, as in the
/// extension field of a cache handle (`73326d61` is `s2ma`).
pub proof fn lemma_hex_roundtrip(s: Seq<char>)
    requires
        printable_ascii(s),
    ensures
        decode_hex_ascii_spec(hex_encode(s)) == Some(s),
{
    lemma_hex_encode_len(s);
    lemma_decode_pairs_hex(s);
}

proof fn lemma_decode_pairs_hex(s: Seq<char>)
    requires
        printable_ascii(s),
    ensures
        decode_pairs(hex_encode(s)) == Some(s),
    decreases s.len(),
{
    lemma_hex_encode_len(s);
    if s.len() > 0 {
        let rest = s.drop_first();
        assert(printable_ascii(rest)) by {
            assert forall|i: int| 0 <= i < rest.len() implies 0x20 <= (#[trigger] rest[i]) as u32 <= 0x7e by {
                assert(rest[i] == s[i + 1]);
            }
        }
        lemma_decode_pairs_hex(rest);
        let b = hex_encode(s);
        let c = s[0];
        let v = c as u32;
        assert(0x20 <= v <= 0x7e);
        let hi = (v / 16) as int;
        let lo = (v % 16) as int;
        assert(2 <= hi <= 7);
        assert(0 <= lo < 16);
        assert(hex_nibble(hi) == (0x30 + hi) as u8);
        assert(b[0] == hex_nibble(hi) && b[1] == hex_nibble(lo));
        assert(b.subrange(2, b.len() as int) =~= hex_encode(rest));
        assert(hex_digit_value(hex_nibble(hi)) == Some(hi as nat));
        assert(hex_digit_value(hex_nibble(lo)) == Some(lo as nat));
        assert(hex_pair(b[0], b[1]) == Some((hi * 16 + lo) as u8));
        assert(hi * 16 + lo == v);
        vstd::utf8::char_u32_cast(c, v);
        assert((v as u8) as u32 == v);
        assert(((v as u8) as char) == c);
        assert(seq![c] + rest =~= s);
    }
}

} // verus!
