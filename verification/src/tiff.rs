//! What the header of a TIFF file counts: its strips and its tiles.

use vstd::prelude::*;

verus! {

/// A field of the directory of a TIFF file.
#[derive(Clone, Copy, PartialEq, Eq, Structural, Debug)]
pub enum TiffField {
    /// It is not there.
    Missing,
    Number(u32),
    /// It holds no number that a `u32` holds, or not one alone.
    Other,
}

pub const IMAGE_WIDTH: u32 = 256;

pub const IMAGE_LENGTH: u32 = 257;

pub const STRIP_OFFSETS: u32 = 273;

pub const SAMPLES_PER_PIXEL: u32 = 277;

pub const ROWS_PER_STRIP: u32 = 278;

/// It is 2 where each sample has a plane of its own.
pub const PLANAR_CONFIGURATION: u32 = 284;

pub const TILE_WIDTH: u32 = 322;

pub const TILE_LENGTH: u32 = 323;

pub const TILE_OFFSETS: u32 = 324;

/// The bytes start as those of a TIFF file do.
pub open spec fn starts_tiff(bytes: Seq<u8>) -> bool {
    bytes.len() >= 4 && (bytes.take(4) == seq![0x49u8, 0x49u8, 42u8, 0u8] || bytes.take(4) == seq![
        0x4du8,
        0x4du8,
        0u8,
        42u8,
    ])
}

/// The first byte of a number is the greatest.
pub open spec fn big_endian(bytes: Seq<u8>) -> bool {
    bytes[0] == 0x4d
}

/// The number that two bytes hold.
pub open spec fn two_bytes(bytes: Seq<u8>, at: int) -> int {
    if big_endian(bytes) {
        bytes[at] * 256 + bytes[at + 1]
    } else {
        bytes[at] + bytes[at + 1] * 256
    }
}

/// The number that four bytes hold.
pub open spec fn four_bytes(bytes: Seq<u8>, at: int) -> int {
    if big_endian(bytes) {
        two_bytes(bytes, at) * 65536 + two_bytes(bytes, at + 2)
    } else {
        two_bytes(bytes, at) + two_bytes(bytes, at + 2) * 65536
    }
}

/// The number that eight bytes hold.
pub open spec fn eight_bytes(bytes: Seq<u8>, at: int) -> int {
    if big_endian(bytes) {
        four_bytes(bytes, at) * 0x1_0000_0000 + four_bytes(bytes, at + 4)
    } else {
        four_bytes(bytes, at) + four_bytes(bytes, at + 4) * 0x1_0000_0000
    }
}

/// Entries of other kinds are passed over.
pub open spec fn known_kind(kind: int) -> bool {
    1 <= kind <= 13 || 16 <= kind <= 18
}

/// The field whose entry stands at `at`. One number alone stands in the entry; a number of eight bytes
/// stands where the entry says.
pub open spec fn field_at(bytes: Seq<u8>, at: int) -> TiffField {
    let kind = two_bytes(bytes, at + 2);
    let place = four_bytes(bytes, at + 8);
    if four_bytes(bytes, at + 4) != 1 {
        TiffField::Other
    } else if kind == 1 || kind == 7 {
        TiffField::Number(bytes[at + 8] as u32)
    } else if kind == 3 {
        TiffField::Number(two_bytes(bytes, at + 8) as u32)
    } else if kind == 4 || kind == 13 {
        TiffField::Number(four_bytes(bytes, at + 8) as u32)
    } else if (kind == 16 || kind == 18) && place + 8 <= bytes.len() && eight_bytes(bytes, place) <= u32::MAX {
        TiffField::Number(eight_bytes(bytes, place) as u32)
    } else {
        TiffField::Other
    }
}

/// Where the first directory starts.
pub open spec fn directory(bytes: Seq<u8>) -> int {
    four_bytes(bytes, 4)
}

/// The first directory stands in the file.
pub open spec fn has_directory(bytes: Seq<u8>) -> bool {
    &&& bytes.len() >= 8
    &&& directory(bytes) + 2 <= bytes.len()
    &&& directory(bytes) + 2 + 12 * two_bytes(bytes, directory(bytes)) <= bytes.len()
}

/// The field with this tag, of the first `n` entries of the directory; the last one where there are
/// several.
pub open spec fn field_below(bytes: Seq<u8>, tag: u32, n: int) -> TiffField
    decreases n,
{
    if n <= 0 {
        TiffField::Missing
    } else {
        let at = directory(bytes) + 2 + 12 * (n - 1);
        if two_bytes(bytes, at) == tag && known_kind(two_bytes(bytes, at + 2)) {
            field_at(bytes, at)
        } else {
            field_below(bytes, tag, n - 1)
        }
    }
}

/// The field with this tag.
pub open spec fn field(bytes: Seq<u8>, tag: u32) -> TiffField {
    field_below(bytes, tag, two_bytes(bytes, directory(bytes)))
}

/// How many parts of a size cover a length.
pub open spec fn parts_of(length: int, size: int) -> int {
    if length == 0 {
        0
    } else {
        (length - 1) / size + 1
    }
}

impl TiffField {
    /// The number that the field holds, or another where it is missing.
    pub open spec fn or(self, other: int) -> int {
        match self {
            TiffField::Number(n) => n as int,
            _ => other,
        }
    }
}

/// How many planes an image has: one for each sample, or one for all of them.
pub open spec fn planes(bytes: Seq<u8>) -> int {
    if field(bytes, PLANAR_CONFIGURATION) == TiffField::Number(2) {
        field(bytes, SAMPLES_PER_PIXEL).or(1)
    } else {
        1
    }
}

/// The strips of an image, if it has any, are not more than a `u32` can count.
pub open spec fn strips_fit(bytes: Seq<u8>) -> bool {
    let height = field(bytes, IMAGE_LENGTH);
    let rows = field(bytes, ROWS_PER_STRIP);
    field(bytes, STRIP_OFFSETS) != TiffField::Missing && height is Number && rows.or(0) > 0 ==> parts_of(
        height.or(0),
        rows.or(0),
    ) * planes(bytes) <= u32::MAX
}

/// The tiles of an image, if it has any, are not more than a `u32` can count.
pub open spec fn tiles_fit(bytes: Seq<u8>) -> bool {
    let width = field(bytes, IMAGE_WIDTH);
    let height = field(bytes, IMAGE_LENGTH);
    let tile_width = field(bytes, TILE_WIDTH);
    let tile_height = field(bytes, TILE_LENGTH);
    field(bytes, TILE_OFFSETS) != TiffField::Missing && width is Number && height is Number && tile_width.or(0)
        > 0 && tile_height.or(0) > 0 ==> parts_of(height.or(0), tile_height.or(0)) * parts_of(
        width.or(0),
        tile_width.or(0),
    ) * planes(bytes) <= u32::MAX
}

/// The strips and the tiles of a TIFF file can be counted, as far as its first directory can be read.
pub open spec fn tiff_counts_fit(bytes: Seq<u8>) -> bool {
    has_directory(bytes) ==> strips_fit(bytes) && tiles_fit(bytes)
}

fn read_two(bytes: &Vec<u8>, at: usize) -> (n: u32)
    requires
        at + 2 <= bytes@.len(),
    ensures
        n == two_bytes(bytes@, at as int),
        n < 65536,
{
    assert(bytes@.len() == bytes.len());
    let (first, second): (u32, u32) = (bytes[at] as u32, bytes[at + 1] as u32);
    if bytes[0] == 0x4d {
        first * 256 + second
    } else {
        first + second * 256
    }
}

fn read_four(bytes: &Vec<u8>, at: usize) -> (n: u32)
    requires
        at + 4 <= bytes@.len(),
    ensures
        n == four_bytes(bytes@, at as int),
{
    assert(bytes@.len() == bytes.len());
    let first: u32 = read_two(bytes, at);
    let second: u32 = read_two(bytes, at + 2);
    if bytes[0] == 0x4d {
        first * 65536 + second
    } else {
        first + second * 65536
    }
}

/// The number that eight bytes hold, where a `u32` holds it.
fn read_eight(bytes: &Vec<u8>, at: usize) -> (n: Option<u32>)
    requires
        at + 8 <= bytes@.len(),
    ensures
        n == if eight_bytes(bytes@, at as int) <= u32::MAX {
            Some(eight_bytes(bytes@, at as int) as u32)
        } else {
            None::<u32>
        },
{
    assert(bytes@.len() == bytes.len());
    let first: u32 = read_four(bytes, at);
    let second: u32 = read_four(bytes, at + 4);
    let (high, low): (u32, u32) = if bytes[0] == 0x4d {
        (first, second)
    } else {
        (second, first)
    };
    if high == 0 {
        Some(low)
    } else {
        None
    }
}

fn read_field_at(bytes: &Vec<u8>, at: usize) -> (r: TiffField)
    requires
        at + 12 <= bytes@.len(),
    ensures
        r == field_at(bytes@, at as int),
{
    assert(bytes@.len() == bytes.len());
    let kind: u32 = read_two(bytes, at + 2);
    if read_four(bytes, at + 4) != 1 {
        TiffField::Other
    } else if kind == 1 || kind == 7 {
        TiffField::Number(bytes[at + 8] as u32)
    } else if kind == 3 {
        TiffField::Number(read_two(bytes, at + 8))
    } else if kind == 4 || kind == 13 {
        TiffField::Number(read_four(bytes, at + 8))
    } else if kind == 16 || kind == 18 {
        let place: u32 = read_four(bytes, at + 8);
        let len: usize = bytes.len();
        if place as u64 + 8 > len as u64 {
            return TiffField::Other;
        }
        match read_eight(bytes, place as usize) {
            Some(n) => TiffField::Number(n),
            None => TiffField::Other,
        }
    } else {
        TiffField::Other
    }
}

fn read_field(bytes: &Vec<u8>, tag: u32, start: usize, count: usize) -> (r: TiffField)
    requires
        start == directory(bytes@),
        start + 2 + 12 * count <= bytes@.len(),
    ensures
        r == field_below(bytes@, tag, count as int),
{
    let mut n: usize = count;
    while n > 0
        invariant
            n <= count,
            start == directory(bytes@),
            start + 2 + 12 * count <= bytes@.len(),
            field_below(bytes@, tag, count as int) == field_below(bytes@, tag, n as int),
        decreases n,
    {
        assert(bytes@.len() == bytes.len());
        let at: usize = start + 2 + 12 * (n - 1);
        let kind: u32 = read_two(bytes, at + 2);
        if read_two(bytes, at) == tag && ((1 <= kind && kind <= 13) || (16 <= kind && kind <= 18)) {
            return read_field_at(bytes, at);
        }
        n = n - 1;
    }
    TiffField::Missing
}

fn count_parts(length: u32, size: u32) -> (n: u32)
    requires
        size > 0,
    ensures
        n == parts_of(length as int, size as int),
{
    if length == 0 {
        0
    } else {
        proof {
            assert((length - 1) / size as int <= length - 1) by (nonlinear_arith)
                requires
                    length >= 1,
                    size > 0,
            ;
        }
        (length - 1) / size + 1
    }
}

fn product_fits(a: u32, b: u32, c: u32) -> (r: bool)
    ensures
        r == (a * b * c <= u32::MAX),
{
    proof {
        assert(a * b <= u32::MAX * u32::MAX) by (nonlinear_arith)
            requires
                a <= u32::MAX,
                b <= u32::MAX,
        ;
        assert(a * b * c <= u32::MAX * u32::MAX * u32::MAX) by (nonlinear_arith)
            requires
                0 <= a * b <= u32::MAX * u32::MAX,
                c <= u32::MAX,
        ;
    }
    let ab: u128 = a as u128 * b as u128;
    ab * c as u128 <= u32::MAX as u128
}

/// Whether the bytes start as those of a TIFF file do.
pub fn is_tiff(bytes: &Vec<u8>) -> (r: bool)
    ensures
        r == starts_tiff(bytes@),
{
    if bytes.len() < 4 {
        return false;
    }
    let r = (bytes[0] == 0x49 && bytes[1] == 0x49 && bytes[2] == 42 && bytes[3] == 0) || (bytes[0] == 0x4d
        && bytes[1] == 0x4d && bytes[2] == 0 && bytes[3] == 42);
    proof {
        let start = bytes@.take(4);
        assert(start[0] == bytes@[0] && start[1] == bytes@[1] && start[2] == bytes@[2] && start[3] == bytes@[3]);
        if r {
            if bytes@[0] == 0x49 {
                assert(start =~= seq![0x49u8, 0x49u8, 42u8, 0u8]);
            } else {
                assert(start =~= seq![0x4du8, 0x4du8, 0u8, 42u8]);
            }
        }
    }
    r
}

/// Whether the strips and the tiles of a TIFF file can be counted.
pub fn tiff_counts_are_small(bytes: &Vec<u8>) -> (r: bool)
    ensures
        r == tiff_counts_fit(bytes@),
{
    if bytes.len() < 8 {
        return true;
    }
    let len: u64 = bytes.len() as u64;
    let start: u32 = read_four(bytes, 4);
    if start as u64 + 2 > len {
        return true;
    }
    let start: usize = start as usize;
    let count: u32 = read_two(bytes, start);
    if start as u64 + 2 + 12 * count as u64 > len {
        return true;
    }
    let count: usize = count as usize;
    let each: u32 = match (
        read_field(bytes, PLANAR_CONFIGURATION, start, count),
        read_field(bytes, SAMPLES_PER_PIXEL, start, count),
    ) {
        (TiffField::Number(2), TiffField::Number(samples)) => samples,
        _ => 1,
    };
    let width = read_field(bytes, IMAGE_WIDTH, start, count);
    let height = read_field(bytes, IMAGE_LENGTH, start, count);
    let rows = read_field(bytes, ROWS_PER_STRIP, start, count);
    let tile_width = read_field(bytes, TILE_WIDTH, start, count);
    let tile_height = read_field(bytes, TILE_LENGTH, start, count);
    let in_strips = read_field(bytes, STRIP_OFFSETS, start, count) != TiffField::Missing;
    let in_tiles = read_field(bytes, TILE_OFFSETS, start, count) != TiffField::Missing;
    let few_strips = match (height, rows) {
        (TiffField::Number(height), TiffField::Number(rows)) => rows == 0 || product_fits(
            count_parts(height, rows),
            1,
            each,
        ),
        _ => true,
    };
    let few_tiles = match (width, height, tile_width, tile_height) {
        (
            TiffField::Number(width),
            TiffField::Number(height),
            TiffField::Number(tile_width),
            TiffField::Number(tile_height),
        ) => tile_width == 0 || tile_height == 0 || product_fits(
            count_parts(height, tile_height),
            count_parts(width, tile_width),
            each,
        ),
        _ => true,
    };
    (few_strips || !in_strips) && (few_tiles || !in_tiles)
}

/// So many parts cover a length, and one less would not.
pub proof fn parts_cover_the_length(length: int, size: int)
    requires
        0 <= length,
        0 < size,
    ensures
        parts_of(length, size) * size >= length,
        length > 0 ==> (parts_of(length, size) - 1) * size < length,
        length == 0 ==> parts_of(length, size) == 0,
{
    if length > 0 {
        let n = (length - 1) / size;
        vstd::arithmetic::div_mod::lemma_fundamental_div_mod(length - 1, size);
        vstd::arithmetic::div_mod::lemma_mod_bound(length - 1, size);
        assert(size * n == n * size) by (nonlinear_arith);
        assert((n + 1) * size == n * size + size) by (nonlinear_arith);
    }
}

/// Numbers are read the same either way round, once their bytes are turned round: the first byte is the
/// greatest in one kind of file and the least in the other.
pub proof fn both_ways_round_read_the_same(a: Seq<u8>, b: Seq<u8>, at: int)
    requires
        0 <= at,
        at + 4 <= a.len() == b.len(),
        a[0] == 0x4d,
        b[0] != 0x4d,
        a[at] == b[at + 3] && a[at + 1] == b[at + 2] && a[at + 2] == b[at + 1] && a[at + 3] == b[at],
    ensures
        four_bytes(a, at) == four_bytes(b, at),
        two_bytes(a, at) == two_bytes(b, at + 2),
        four_bytes(a, at) == a[at] * 0x100_0000 + a[at + 1] * 0x1_0000 + a[at + 2] * 0x100 + a[at + 3],
        0 <= four_bytes(a, at) <= u32::MAX,
{
}

/// The entry at `n` is for this tag, and of a kind that is not passed over.
pub open spec fn entry_counts(bytes: Seq<u8>, tag: u32, n: int) -> bool {
    let at = directory(bytes) + 2 + 12 * n;
    two_bytes(bytes, at) == tag && (1 <= two_bytes(bytes, at + 2) <= 13 || 16 <= two_bytes(bytes, at + 2) <= 18)
}

/// The field with a tag is what the last entry for it says, and is missing exactly if there is none.
pub proof fn the_last_entry_counts(bytes: Seq<u8>, tag: u32, n: int, k: int)
    requires
        0 <= k < n,
        entry_counts(bytes, tag, k),
        forall|j: int| k < j < n ==> !#[trigger] entry_counts(bytes, tag, j),
    ensures
        field_below(bytes, tag, n) == field_at(bytes, directory(bytes) + 2 + 12 * k),
    decreases n,
{
    if k < n - 1 {
        assert(!entry_counts(bytes, tag, n - 1));
        the_last_entry_counts(bytes, tag, n - 1, k);
    }
}

/// A field that no entry is for is missing.
pub proof fn fields_without_an_entry_are_missing(bytes: Seq<u8>, tag: u32, n: int)
    requires
        forall|j: int| 0 <= j < n ==> !#[trigger] entry_counts(bytes, tag, j),
    ensures
        field_below(bytes, tag, n) is Missing,
    decreases n,
{
    if n > 0 {
        assert(!entry_counts(bytes, tag, n - 1));
        fields_without_an_entry_are_missing(bytes, tag, n - 1);
    }
}

/// An image without its samples in planes of their own has one plane; one with them has as many as it has
/// samples, and one where their number is not said.
pub proof fn planes_go_by_the_samples(bytes: Seq<u8>)
    ensures
        field(bytes, PLANAR_CONFIGURATION) != TiffField::Number(2) ==> planes(bytes) == 1,
        field(bytes, PLANAR_CONFIGURATION) == TiffField::Number(2) ==> (field(bytes, SAMPLES_PER_PIXEL)
            matches TiffField::Number(samples) ==> planes(bytes) == samples),
        !(field(bytes, SAMPLES_PER_PIXEL) is Number) ==> planes(bytes) == 1,
{
}

/// A TIFF file starts with the mark of either way round, and no other.
pub proof fn tiff_files_start_with_their_mark(bytes: Seq<u8>)
    requires
        bytes.len() >= 4,
    ensures
        starts_tiff(bytes) <==> (bytes[0] == 0x49 && bytes[1] == 0x49 && bytes[2] == 42 && bytes[3] == 0) || (bytes[0]
            == 0x4d && bytes[1] == 0x4d && bytes[2] == 0 && bytes[3] == 42),
{
    let start = bytes.take(4);
    if bytes[0] == 0x49 && bytes[1] == 0x49 && bytes[2] == 42 && bytes[3] == 0 {
        assert(start =~= seq![0x49u8, 0x49u8, 42u8, 0u8]);
    }
    if bytes[0] == 0x4d && bytes[1] == 0x4d && bytes[2] == 0 && bytes[3] == 42 {
        assert(start =~= seq![0x4du8, 0x4du8, 0u8, 42u8]);
    }
    assert(start[0] == bytes[0] && start[1] == bytes[1] && start[2] == bytes[2] && start[3] == bytes[3]);
}

} // verus!
