//! How far the header of a JPEG file reaches: up to the start of its first scan.

use vstd::prelude::*;

verus! {

pub const START_OF_SCAN: u8 = 0xda;

/// The segment that tells how to show the image.
pub const APP_0: u8 = 0xe0;

/// The bytes start as those of a JPEG file do.
pub open spec fn starts_jpeg(bytes: Seq<u8>) -> bool {
    bytes.len() >= 3 && bytes[0] == 0xff && bytes[1] == 0xd8 && bytes[2] == 0xff
}

/// Where the first scan starts, seen from a segment at `at`; `None` where the segments do not follow
/// each other closely up to there. A first segment of an application that is too short to hold its
/// name is none of these.
pub open spec fn scan_after(bytes: Seq<u8>, at: int) -> Option<int>
    decreases bytes.len() - at,
{
    if at < 0 || at + 4 > bytes.len() {
        None
    } else {
        let marker = bytes[at + 1];
        let length = bytes[at + 2] * 256 + bytes[at + 3];
        if bytes[at] != 0xff || marker == 0 || marker == 0xff {
            None
        } else if marker == START_OF_SCAN {
            Some(at)
        } else if length < 2 || (marker == APP_0 && length == 6) || at + 2 + length > bytes.len() {
            None
        } else {
            scan_after(bytes, at + 2 + length)
        }
    }
}

/// The bytes of the header can be counted with an `i32`: the file is short, or its first scan starts
/// early.
pub open spec fn jpeg_counts_fit(bytes: Seq<u8>) -> bool {
    bytes.len() <= i32::MAX || (scan_after(bytes, 2) matches Some(at) && at <= i32::MAX)
}

/// Whether the bytes start as those of a JPEG file do.
pub fn is_jpeg(bytes: &Vec<u8>) -> (r: bool)
    ensures
        r == starts_jpeg(bytes@),
{
    bytes.len() >= 3 && bytes[0] == 0xff && bytes[1] == 0xd8 && bytes[2] == 0xff
}

/// Where the first scan starts, where the segments before it follow each other closely.
pub fn scan_start(bytes: &Vec<u8>) -> (r: Option<usize>)
    ensures
        match r {
            Some(at) => scan_after(bytes@, 2) == Some(at as int),
            None => scan_after(bytes@, 2) == None::<int>,
        },
{
    let len: usize = bytes.len();
    let mut at: usize = 2;
    while at <= len && len - at >= 4
        invariant
            len == bytes@.len(),
            at == 2 || at <= len,
            scan_after(bytes@, at as int) == scan_after(bytes@, 2),
        decreases len - at,
    {
        let marker: u8 = bytes[at + 1];
        let length: usize = bytes[at + 2] as usize * 256 + bytes[at + 3] as usize;
        if bytes[at] != 0xff || marker == 0 || marker == 0xff {
            return None;
        }
        if marker == START_OF_SCAN {
            return Some(at);
        }
        if length < 2 || (marker == APP_0 && length == 6) || length > len - at - 2 {
            return None;
        }
        at = at + 2 + length;
    }
    None
}

/// Whether the bytes of the header can be counted.
pub fn jpeg_counts_are_small(bytes: &Vec<u8>) -> (r: bool)
    ensures
        r == jpeg_counts_fit(bytes@),
{
    let len: usize = bytes.len();
    if len as u64 <= i32::MAX as u64 {
        return true;
    }
    match scan_start(bytes) {
        Some(at) => at as u64 <= i32::MAX as u64,
        None => false,
    }
}

/// The first scan starts at its marker, no sooner than the segments that were looked at; behind a segment
/// it starts where it does from the next one.
pub proof fn scans_start_at_their_marker(bytes: Seq<u8>, at: int)
    requires
        0 <= at,
    ensures
        scan_after(bytes, at) matches Some(found) ==> {
            &&& at <= found && found + 4 <= bytes.len()
            &&& bytes[found] == 0xff && bytes[found + 1] == START_OF_SCAN
        },
    decreases bytes.len() - at,
{
    if at + 4 <= bytes.len() {
        let length = bytes[at + 2] * 256 + bytes[at + 3];
        if length >= 2 && at + 2 + length <= bytes.len() {
            scans_start_at_their_marker(bytes, at + 2 + length);
        }
    }
}

/// A segment that is whole is passed over by its own length, and the scan is looked for behind it.
pub proof fn whole_segments_are_passed_over(bytes: Seq<u8>, at: int, length: int)
    requires
        0 <= at,
        at + 4 <= bytes.len(),
        bytes[at] == 0xff,
        bytes[at + 1] != 0 && bytes[at + 1] != 0xff && bytes[at + 1] != START_OF_SCAN && bytes[at + 1] != APP_0,
        length == bytes[at + 2] * 256 + bytes[at + 3],
        2 <= length,
        at + 2 + length <= bytes.len(),
    ensures
        scan_after(bytes, at) == scan_after(bytes, at + 2 + length),
{
}

/// The bytes of a short file can always be counted, and those of any file whose scan starts early.
pub proof fn short_headers_can_be_counted(bytes: Seq<u8>)
    ensures
        bytes.len() <= i32::MAX ==> jpeg_counts_fit(bytes),
        jpeg_counts_fit(bytes) && bytes.len() > i32::MAX ==> scan_after(bytes, 2) is Some && scan_after(bytes, 2)->0
            <= i32::MAX,
{
}

} // verus!
