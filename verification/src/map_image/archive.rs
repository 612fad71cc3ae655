//! What the MPQ archive reader needs of the bytes before it is called.
//!
//! The reader (s2protocol's re-export of nom-mpq) slices the archive and its
//! tables at offsets read from the archive itself, so a truncated or corrupt
//! archive could make it panic. The checks here read those offsets from the
//! bytes (and, through one trusted call, the decrypted tables) and admit an
//! archive only when every slice the reader will take lies inside it. They
//! are conservative: some archives the reader would merely reject with an
//! error are refused here too.

use vstd::prelude::*;

use s2protocol::parser::MPQHashType;

use super::decode::le_u16;
use super::map_info::{le_u32, read_u32};

verus! {

/// Block flag: the block holds a file.
pub const MPQ_FILE_EXISTS: u32 = 0x8000_0000;

/// Block flag: the file is encrypted.
pub const MPQ_FILE_ENCRYPTED: u32 = 0x0001_0000;

/// Block flag: the file is stored as one unit, not in sectors.
pub const MPQ_FILE_SINGLE_UNIT: u32 = 0x0100_0000;

/// Block flag: the sector table carries one more entry, for checksums.
pub const MPQ_FILE_SECTOR_CRC: u32 = 0x0400_0000;

/// Largest file size (exclusive) whose sector count the reader computes
/// exactly (it divides in `f32`).
pub const MAX_SECTORED_SIZE: u32 = 0x100_0000;

/// `b[i..i + 4]` starts with the `MPQ` magic.
pub open spec fn mpq_magic_at(b: Seq<u8>, i: int) -> bool {
    0 <= i && i + 4 <= b.len() && b[i] == 0x4d && b[i + 1] == 0x50 && b[i + 2] == 0x51
}

/// Offset of the archive header: 0 when the archive starts with it, or the
/// offset a user-data header gives when that header is consistent (its size
/// plus 16 fits in `u32`, the offset lies past it, and an archive header
/// starts there); none otherwise.
pub open spec fn archive_header_offset(b: Seq<u8>) -> Option<int> {
    if !mpq_magic_at(b, 0) {
        None
    } else if b[3] == 0x1a {
        Some(0)
    } else if b[3] == 0x1b && b.len() >= 16 {
        let aho = le_u32(b, 8) as int;
        let uhs = le_u32(b, 12) as int;
        if uhs + 16 <= u32::MAX && aho >= uhs + 16 && mpq_magic_at(b, aho) && b[aho + 3] == 0x1a {
            Some(aho)
        } else {
            None
        }
    } else {
        None
    }
}

/// A table of `entries` 16-byte entries at `start` lies inside `b`, and is
/// small enough for the reader's `f32` count of its words to be exact.
pub open spec fn table_inside(b: Seq<u8>, start: int, entries: u32) -> bool {
    entries as int * 16 < MAX_SECTORED_SIZE && start + entries as int * 16 <= b.len()
}

/// The archive's headers and its hash and block tables lie inside the
/// bytes: the reader's parse takes no slice outside them.
pub open spec fn archive_headers_ok(b: Seq<u8>) -> bool {
    match archive_header_offset(b) {
        None => false,
        Some(off) => {
            &&& off + 44 <= b.len()
            &&& table_inside(b, off + le_u32(b, off + 16), le_u32(b, off + 24))
            &&& table_inside(b, off + le_u32(b, off + 20), le_u32(b, off + 28))
        },
    }
}

/// What the reader finds in a parsed archive for a member name: the archive
/// header's offset and sector-size shift, the hash table as `(hash A,
/// hash B, block index)`, the block table as `(offset, archived size,
/// size, flags)`, and the name's two hashes (none when the name cannot be
/// hashed); none when the archive does not parse.
pub uninterp spec fn archive_index_of(archive: Seq<u8>, name: Seq<char>) -> Option<
    (usize, u16, Seq<(u32, u32, u32)>, Seq<(u32, u32, u32, u32)>, Option<(u32, u32)>),
>;

/// The archive's index for member `name`: `s2protocol::parser::parse`
/// (nom-mpq), then `MPQ::mpq_string_hash` of the name with hash types A
/// and B over the parsed archive's encryption table. Each table entry is
/// converted field by field.
///
/// The contract names the result and says no more: parsing, decryption
/// and hashing are the outside crate's. It asks for headers and tables
/// inside the bytes, which is where the parse slices.
#[verifier::external_body]
fn archive_index(archive: &[u8], name: &str) -> (r: Option<
    (usize, u16, Vec<(u32, u32, u32)>, Vec<(u32, u32, u32, u32)>, Option<(u32, u32)>),
>)
    requires
        archive_headers_ok(archive@),
    ensures
        match r {
            Some(ix) => archive_index_of(archive@, name@) == Some((ix.0, ix.1, ix.2@, ix.3@, ix.4)),
            None => archive_index_of(archive@, name@) is None,
        },
{
    let Ok((_, mpq)) = s2protocol::parser::parse(archive) else { return None };
    let t = &mpq.encryption_table;
    let a = s2protocol::MPQ::mpq_string_hash(t, name, MPQHashType::HashA).ok();
    let b = s2protocol::MPQ::mpq_string_hash(t, name, MPQHashType::HashB).ok();
    let hashes = mpq.hash_table_entries.iter().map(|e| (e.hash_a, e.hash_b, e.block_table_index)).collect();
    let blocks = mpq.block_table_entries.iter().map(|e| (e.offset, e.archived_size, e.size, e.flags)).collect();
    Some((mpq.archive_header.offset, mpq.archive_header.sector_size_shift, hashes, blocks, a.zip(b)))
}

/// Index of the first hash entry at or after `i` with the hashes `h`, or -1.
pub open spec fn find_hash_from(hashes: Seq<(u32, u32, u32)>, h: (u32, u32), i: int) -> int
    decreases hashes.len() - i,
{
    if i < 0 || i >= hashes.len() {
        -1
    } else if hashes[i].0 == h.0 && hashes[i].1 == h.1 {
        i
    } else {
        find_hash_from(hashes, h, i + 1)
    }
}

proof fn lemma_find_hash_range(hashes: Seq<(u32, u32, u32)>, h: (u32, u32), i: int)
    requires
        0 <= i,
    ensures
        find_hash_from(hashes, h, i) == -1 || i <= find_hash_from(hashes, h, i) < hashes.len(),
    decreases hashes.len() - i,
{
    if i < hashes.len() && !(hashes[i].0 == h.0 && hashes[i].1 == h.1) {
        lemma_find_hash_range(hashes, h, i + 1);
    }
}

/// The sector offsets at `start` (little-endian `u32`s) rise, for the
/// first `total` sectors, and stay within `archived` bytes.
pub open spec fn sector_offsets_ok(b: Seq<u8>, start: int, total: int, archived: int) -> bool {
    forall|j: int|
        0 <= j < total ==> le_u32(b, start + 4 * j) <= #[trigger] le_u32(b, start + 4 * (j + 1))
            <= archived
}

/// Reading block `blk` of an archive whose header is at `off` takes no
/// slice outside the bytes: an absent or empty file is not read; otherwise
/// the file lies inside the archive and, unless encrypted (refused) or
/// stored as one unit, the sector count is exact, the sector table fits in
/// the file and its offsets rise within it.
pub open spec fn block_read_ok(b: Seq<u8>, off: int, shift: u16, blk: (u32, u32, u32, u32)) -> bool {
    let (offset, archived, size, flags) = blk;
    if flags & MPQ_FILE_EXISTS == 0 || archived == 0 {
        true
    } else {
        let start = off + offset;
        &&& start + archived <= b.len()
        &&& (flags & MPQ_FILE_ENCRYPTED != 0 || flags & MPQ_FILE_SINGLE_UNIT != 0 || {
            let crc: int = if flags & MPQ_FILE_SECTOR_CRC != 0 {
                1
            } else {
                0
            };
            let total = size as int / ((512u32 << shift) as int) + 1;
            &&& shift <= 21
            &&& size < MAX_SECTORED_SIZE
            &&& 4 * (total + crc + 1) <= archived
            &&& sector_offsets_ok(b, start, total, archived as int)
        })
    }
}

/// Reading the member whose index is `ix` takes no slice outside `b`: the
/// name cannot be hashed or has no hash entry (the reader stops with an
/// error), or its block index is in the block table and the block reads
/// within the bytes.
pub open spec fn member_layout_ok(
    ix: (usize, u16, Seq<(u32, u32, u32)>, Seq<(u32, u32, u32, u32)>, Option<(u32, u32)>),
    b: Seq<u8>,
) -> bool {
    match ix.4 {
        None => true,
        Some(h) => {
            let k = find_hash_from(ix.2, h, 0);
            k < 0 || (ix.2[k].2 < ix.3.len() && block_read_ok(b, ix.0 as int, ix.1, ix.3[ix.2[k].2 as int]))
        },
    }
}

/// The reader can be asked for member `name` of `b` without any slice
/// falling outside the bytes.
pub open spec fn member_read_safe(b: Seq<u8>, name: Seq<char>) -> bool {
    &&& archive_headers_ok(b)
    &&& (archive_index_of(b, name) matches Some(ix) ==> member_layout_ok(ix, b))
}

/// `b[i..i + 4]` starts with the `MPQ` magic.
fn magic_at(b: &[u8], i: usize) -> (r: bool)
    ensures
        r == mpq_magic_at(b@, i as int),
{
    i <= b.len() && b.len() - i >= 4 && b[i] == 0x4d && b[i + 1] == 0x50 && b[i + 2] == 0x51
}

/// Executable form of [`archive_header_offset`].
fn header_offset(b: &[u8]) -> (r: Option<usize>)
    ensures
        match r {
            Some(o) => archive_header_offset(b@) == Some(o as int),
            None => archive_header_offset(b@) is None,
        },
{
    if !magic_at(b, 0) {
        None
    } else if b[3] == 0x1a {
        Some(0)
    } else if b[3] == 0x1b && b.len() >= 16 {
        let aho = read_u32(b, 8);
        let uhs = read_u32(b, 12);
        if uhs <= u32::MAX - 16 && aho >= uhs + 16 && magic_at(b, aho as usize) && b[aho as usize + 3]
            == 0x1a {
            Some(aho as usize)
        } else {
            None
        }
    } else {
        None
    }
}

/// Executable form of [`table_inside`].
fn table_fits(b: &[u8], start: usize, entries: u32) -> (r: bool)
    ensures
        r == table_inside(b@, start as int, entries),
{
    if entries as u64 * 16 >= MAX_SECTORED_SIZE as u64 {
        return false;
    }
    let bytes = entries as usize * 16;
    start <= b.len() && bytes <= b.len() - start
}

/// Executable form of [`archive_headers_ok`].
pub fn headers_ok(b: &[u8]) -> (r: bool)
    ensures
        r == archive_headers_ok(b@),
{
    match header_offset(b) {
        None => false,
        Some(off) => {
            if off > b.len() || b.len() - off < 44 {
                return false;
            }
            let hto = read_u32(b, off + 16);
            let bto = read_u32(b, off + 20);
            let hte = read_u32(b, off + 24);
            let bte = read_u32(b, off + 28);
            if hto as usize > b.len() - off || bto as usize > b.len() - off {
                return false;
            }
            table_fits(b, off + hto as usize, hte) && table_fits(b, off + bto as usize, bte)
        },
    }
}

/// Executable form of [`find_hash_from`] from the first entry.
fn find_hash(hashes: &Vec<(u32, u32, u32)>, h: (u32, u32)) -> (r: Option<usize>)
    ensures
        match r {
            Some(k) => k as int == find_hash_from(hashes@, h, 0),
            None => find_hash_from(hashes@, h, 0) == -1,
        },
{
    let mut i: usize = 0;
    while i < hashes.len()
        invariant
            i <= hashes@.len(),
            find_hash_from(hashes@, h, 0) == find_hash_from(hashes@, h, i as int),
        decreases hashes@.len() - i,
    {
        if hashes[i].0 == h.0 && hashes[i].1 == h.1 {
            return Some(i);
        }
        i = i + 1;
    }
    None
}

/// Executable form of [`block_read_ok`].
fn block_ok(b: &[u8], off: usize, shift: u16, blk: (u32, u32, u32, u32)) -> (r: bool)
    ensures
        r == block_read_ok(b@, off as int, shift, blk),
{
    let (offset, archived, size, flags) = blk;
    if flags & MPQ_FILE_EXISTS == 0 || archived == 0 {
        return true;
    }
    if off > b.len() || offset as usize > b.len() - off || archived as usize > b.len() - off
        - offset as usize {
        return false;
    }
    if flags & MPQ_FILE_ENCRYPTED != 0 || flags & MPQ_FILE_SINGLE_UNIT != 0 {
        return true;
    }
    if shift > 21 || size >= MAX_SECTORED_SIZE {
        return false;
    }
    let sector_size: u32 = 512u32 << shift;
    assert(512u32 << shift >= 512) by (bit_vector)
        requires
            shift <= 21,
    ;
    let crc: u32 = if flags & MPQ_FILE_SECTOR_CRC != 0 {
        1
    } else {
        0
    };
    let total: u32 = size / sector_size + 1;
    if 4 * (total as u64 + crc as u64 + 1) > archived as u64 {
        return false;
    }
    let start = off + offset as usize;
    assert(total as int == size as int / ((512u32 << shift) as int) + 1);
    assert(block_read_ok(b@, off as int, shift, blk) == sector_offsets_ok(
        b@,
        off + offset,
        total as int,
        archived as int,
    ));
    let blen = b.len();
    let mut j: u32 = 0;
    while j < total
        invariant
            blen == b@.len(),
            j <= total,
            block_read_ok(b@, off as int, shift, blk) == sector_offsets_ok(
                b@,
                start as int,
                total as int,
                archived as int,
            ),
            start == off + offset,
            start + archived <= b@.len(),
            4 * (total + crc + 1) <= archived,
            forall|i: int| 0 <= i < j ==> le_u32(b@, start + 4 * i) <= #[trigger] le_u32(b@, start + 4 * (i + 1))
                <= archived,
        decreases total - j,
    {
        assert(4 * (j + 1) + 4 <= archived);
        let p = read_u32(b, start + 4 * (j as usize));
        let q = read_u32(b, start + 4 * (j as usize + 1));
        if p > q || q > archived {
            assert(!(le_u32(b@, start + 4 * (j as int)) <= le_u32(b@, start + 4 * (j as int + 1))
                <= archived));
            return false;
        }
        j = j + 1;
    }
    true
}

/// Whether member `name` of `archive` can be read without the reader
/// slicing outside the bytes.
pub fn member_readable(archive: &[u8], name: &str) -> (r: bool)
    ensures
        r == member_read_safe(archive@, name@),
{
    if !headers_ok(archive) {
        return false;
    }
    match archive_index(archive, name) {
        None => true,
        Some(ix) => match ix.4 {
            None => true,
            Some(h) => match find_hash(&ix.2, h) {
                None => true,
                Some(k) => {
                    proof {
                        lemma_find_hash_range(ix.2@, h, 0);
                    }
                    let bi = ix.2[k].2;
                    if bi as usize >= ix.3.len() {
                        false
                    } else {
                        block_ok(archive, ix.0, ix.1, ix.3[bi as usize])
                    }
                },
            },
        },
    }
}

} // verus!
