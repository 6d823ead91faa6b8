//! Images in tabs: which files are images, and the caption below one.

use vstd::prelude::*;
use vstd::arithmetic::div_mod::{lemma_div_denominator, lemma_fundamental_div_mod, lemma_mod_bound};
use vstd::string::*;
use crate::jpeg::{is_jpeg, jpeg_counts_are_small, jpeg_counts_fit, starts_jpeg};
use crate::paths::{extension, extension_of, file_name, name_of};
use crate::text::{chars_of, decimal, decimal_reads_back, decimal_text, digits_value, same_text};
use crate::tiff::{is_tiff, starts_tiff, tiff_counts_are_small, tiff_counts_fit};

verus! {

#[derive(Clone, Copy, PartialEq, Eq, Structural, Debug)]
pub enum ImageFormat {
    Png,
    Jpeg,
    Gif,
    Webp,
    Bmp,
    Ico,
    Tiff,
    Svg,
}

/// An ASCII capital as its small letter, anything else as it is.
pub open spec fn lower(c: char) -> char {
    if 'A' <= c <= 'Z' {
        (c as u8 + 32) as char
    } else {
        c
    }
}

/// A text with its ASCII capitals as small letters.
pub open spec fn lowered(s: Seq<char>) -> Seq<char> {
    s.map_values(|c: char| lower(c))
}

/// The format that an extension stands for.
pub open spec fn format_of(extension: Seq<char>) -> Option<ImageFormat> {
    let e = lowered(extension);
    if e == "png"@ {
        Some(ImageFormat::Png)
    } else if e == "jpg"@ || e == "jpeg"@ {
        Some(ImageFormat::Jpeg)
    } else if e == "gif"@ {
        Some(ImageFormat::Gif)
    } else if e == "webp"@ {
        Some(ImageFormat::Webp)
    } else if e == "bmp"@ {
        Some(ImageFormat::Bmp)
    } else if e == "ico"@ {
        Some(ImageFormat::Ico)
    } else if e == "tif"@ || e == "tiff"@ {
        Some(ImageFormat::Tiff)
    } else if e == "svg"@ {
        Some(ImageFormat::Svg)
    } else {
        None
    }
}

/// The format of the image that a path names, by its extension.
pub open spec fn path_format(path: Seq<char>) -> Option<ImageFormat> {
    match name_of(path) {
        Some(name) => match extension(name) {
            Some(e) => format_of(e),
            None => None,
        },
        None => None,
    }
}

/// The path names an image.
pub open spec fn image_path(path: Seq<char>) -> bool {
    path_format(path) is Some
}

fn lower_of(s: &str) -> (r: String)
    ensures
        r@ == lowered(s@),
{
    let chars = chars_of(s);
    let mut out = String::new();
    let mut i: usize = 0;
    assert(out@ =~= lowered(chars@.take(0)));
    while i < chars.len()
        invariant
            i <= chars@.len(),
            out@ == lowered(chars@.take(i as int)),
        decreases chars@.len() - i,
    {
        let c: char = chars[i];
        let small: char = if 'A' <= c && c <= 'Z' {
            (c as u8 + 32) as char
        } else {
            c
        };
        assert(lowered(chars@.take(i + 1)) =~= lowered(chars@.take(i as int)).push(lower(c)));
        out.push(small);
        i = i + 1;
    }
    assert(chars@.take(chars@.len() as int) =~= s@);
    out
}

/// The format of the image that a path names.
pub fn image_format_for(path: &str) -> (r: Option<ImageFormat>)
    ensures
        r == path_format(path@),
{
    let name = file_name(path);
    let Some(name) = name else {
        return None;
    };
    let Some(ext) = extension_of(name.as_str()) else {
        return None;
    };
    let e = lower_of(ext.as_str());
    let e = e.as_str();
    if same_text(e, "png") {
        Some(ImageFormat::Png)
    } else if same_text(e, "jpg") || same_text(e, "jpeg") {
        Some(ImageFormat::Jpeg)
    } else if same_text(e, "gif") {
        Some(ImageFormat::Gif)
    } else if same_text(e, "webp") {
        Some(ImageFormat::Webp)
    } else if same_text(e, "bmp") {
        Some(ImageFormat::Bmp)
    } else if same_text(e, "ico") {
        Some(ImageFormat::Ico)
    } else if same_text(e, "tif") || same_text(e, "tiff") {
        Some(ImageFormat::Tiff)
    } else if same_text(e, "svg") {
        Some(ImageFormat::Svg)
    } else {
        None
    }
}

/// Whether a path names a file that is shown as an image.
pub fn is_image_path(path: &str) -> (b: bool)
    ensures
        b == image_path(path@),
{
    image_format_for(path).is_some()
}

/// `num / den` to the nearest whole number; halfway to the even one.
pub open spec fn rounded(num: nat, den: nat) -> nat {
    let down = num / den;
    let rest = num % den;
    if 2 * rest < den || (2 * rest == den && down % 2 == 0) {
        down
    } else {
        down + 1
    }
}

/// How far apart the double precision numbers around `n` are.
pub open spec fn double_step(n: nat) -> nat
    decreases n,
{
    if n < 0x20_0000_0000_0000 {
        1
    } else {
        2 * double_step(n / 2)
    }
}

/// The double precision number nearest to `n`.
pub open spec fn as_double(n: nat) -> nat {
    rounded(n, double_step(n)) * double_step(n)
}

/// A count of bytes in a unit, with one decimal.
pub open spec fn in_units(bytes: nat, unit: nat) -> Seq<char> {
    let tenths = rounded(10 * as_double(bytes), unit);
    decimal(tenths / 10) + "."@ + decimal(tenths % 10)
}

/// A count of bytes as people write it.
pub open spec fn size_text(bytes: nat) -> Seq<char> {
    if bytes < 1024 {
        decimal(bytes) + " B"@
    } else if bytes < 1024 * 1024 {
        in_units(bytes, 1024) + " KB"@
    } else {
        in_units(bytes, 1024 * 1024) + " MB"@
    }
}

fn round_to_even(num: u128, den: u128) -> (r: u128)
    requires
        0 < den <= 0x1000_0000,
        num < 0x100_0000_0000_0000_0000_0000,
    ensures
        r == rounded(num as nat, den as nat),
{
    let down: u128 = num / den;
    let rest: u128 = num % den;
    proof {
        assert(down <= num) by (nonlinear_arith)
            requires
                down == num / den,
                den > 0,
        ;
    }
    if 2 * rest < den || (2 * rest == den && down % 2 == 0) {
        down
    } else {
        down + 1
    }
}

proof fn double_step_small(n: nat)
    requires
        n <= u64::MAX,
    ensures
        1 <= double_step(n) <= 2048,
{
    reveal_with_fuel(double_step, 13);
}

fn double_of(n: u64) -> (r: u128)
    ensures
        r == as_double(n as nat),
        r <= n + 4096,
{
    let mut rest: u64 = n;
    let mut step: u64 = 1;
    proof {
        double_step_small(n as nat);
    }
    while rest >= 0x20_0000_0000_0000
        invariant
            1 <= double_step(n as nat) <= 2048,
            1 <= step,
            1 <= double_step(rest as nat),
            double_step(n as nat) == step * double_step(rest as nat),
        decreases rest,
    {
        proof {
            assert(double_step(rest as nat) == 2 * double_step((rest / 2) as nat));
            double_step_small((rest / 2) as nat);
            assert(step * (2 * double_step((rest / 2) as nat)) == (2 * step) * double_step((rest / 2) as nat))
                by (nonlinear_arith);
            assert(2 * step <= 2048) by (nonlinear_arith)
                requires
                    (2 * step) * double_step((rest / 2) as nat) <= 2048,
                    double_step((rest / 2) as nat) >= 1,
            ;
        }
        rest = rest / 2;
        step = step * 2;
    }
    proof {
        assert(step * 1 == step);
        assert(step == double_step(n as nat));
    }
    let times: u128 = round_to_even(n as u128, step as u128);
    proof {
        let s = step as int;
        let down = n as int / s;
        assert(down * s <= n && (down + 1) * s <= n + s && down * s >= 0) by (nonlinear_arith)
            requires
                down == n as int / s,
                s >= 1,
        ;
        assert(times * s <= (down + 1) * s) by (nonlinear_arith)
            requires
                times <= down + 1,
                s >= 1,
        ;
    }
    times * step as u128
}

fn units_text(bytes: u64, unit: u128) -> (r: String)
    requires
        1024 <= unit <= 0x10_0000,
    ensures
        r@ == in_units(bytes as nat, unit as nat),
{
    let double: u128 = double_of(bytes);
    let tenths: u128 = round_to_even(10 * double, unit);
    proof {
        let down = (10 * double) / unit as int;
        assert(down <= 10 * double / 1024) by (nonlinear_arith)
            requires
                down == (10 * double) / unit as int,
                unit >= 1024,
        ;
        assert(tenths <= down + 1);
    }
    let whole: u64 = (tenths / 10) as u64;
    let part: u64 = (tenths % 10) as u64;
    let mut out = decimal_text(whole);
    out.append(".");
    out.append(decimal_text(part).as_str());
    out
}

/// A count of bytes as people write it: in bytes, or in KB or MB with one decimal.
pub fn human_size(bytes: u64) -> (r: String)
    ensures
        r@ == size_text(bytes as nat),
{
    if bytes < 1024 {
        let mut out = decimal_text(bytes);
        out.append(" B");
        out
    } else if bytes < 1024 * 1024 {
        let mut out = units_text(bytes, 1024);
        out.append(" KB");
        out
    } else {
        let mut out = units_text(bytes, 1024 * 1024);
        out.append(" MB");
        out
    }
}

/// The fewest bytes that a part of a PNG file takes of which the decoder keeps count.
pub const COUNTED_CHUNK: u64 = 38;

/// The bytes start as those of a PNG file, or of an icon, which may hold one.
pub open spec fn may_hold_png(bytes: Seq<u8>) -> bool {
    bytes.len() > 0 && (bytes[0] == 0x89 || bytes[0] == 0)
}

/// Everything that is counted while a header is read can be counted: the strips and the tiles of a
/// TIFF file, the bytes of the header of a JPEG file, and the parts of a PNG file.
pub open spec fn header_counts_fit(bytes: Seq<u8>) -> bool {
    if starts_tiff(bytes) {
        tiff_counts_fit(bytes)
    } else if starts_jpeg(bytes) {
        jpeg_counts_fit(bytes)
    } else if may_hold_png(bytes) {
        bytes.len() / COUNTED_CHUNK as nat <= u32::MAX
    } else {
        true
    }
}

/// Whether everything that is counted while a header is read can be counted.
pub fn header_counts_are_small(bytes: &Vec<u8>) -> (r: bool)
    ensures
        r == header_counts_fit(bytes@),
{
    if is_tiff(bytes) {
        return tiff_counts_are_small(bytes);
    }
    if is_jpeg(bytes) {
        return jpeg_counts_are_small(bytes);
    }
    let len: usize = bytes.len();
    if len > 0 && (bytes[0] == 0x89 || bytes[0] == 0) {
        len as u64 / COUNTED_CHUNK <= u32::MAX as u64
    } else {
        true
    }
}

/// The width and the height that the header of an image gives, as the crate `image` reads it where
/// addresses have so many bits; `None` where it refuses the image.
pub uninterp spec fn image_dimensions(bytes: Seq<u8>, address_bits: nat) -> Option<(u32, u32)>;

/// `image::guess_format` and, in that format, `image::ImageReader::into_dimensions`: the width and the
/// height that the header of an image gives, or `None`. Claimed is that the result is a function of the
/// bytes and of how wide the addresses are that the crate was built for: the format is looked up in a
/// table of the crate, a reader that was given its format consults none of the formats that a program
/// registers with the crate, and the decoders read nothing but the bytes. How wide addresses are matters
/// because the decoders refuse what would not fit into the address space or into their limits.
///
/// The numbers that the decoders multiply and count up without a check are those that `requires` keeps
/// small.
#[verifier::external_body]
fn guessed_dimensions(bytes: &[u8]) -> (r: Option<(u32, u32)>)
    requires
        header_counts_fit(bytes@),
    ensures
        r == image_dimensions(bytes@, usize::BITS as nat),
{
    let format = image::guess_format(bytes).ok()?;
    image::ImageReader::with_format(std::io::Cursor::new(bytes), format).into_dimensions().ok()
}

/// An image in a tab.
pub struct ImageView {
    /// Width and height; `None` where they are not known.
    pub dimensions: Option<(u32, u32)>,
    pub byte_len: u64,
}

/// What is shown of the size that was read from an image of this format. A vector image has none.
pub open spec fn shown(format: ImageFormat, read: Option<(u32, u32)>) -> Option<(u32, u32)> {
    if format == ImageFormat::Svg {
        None
    } else {
        read
    }
}

/// What is shown of the size that was read from an image.
pub fn shown_size(format: ImageFormat, read: Option<(u32, u32)>) -> (r: Option<(u32, u32)>)
    ensures
        r == shown(format, read),
{
    if format == ImageFormat::Svg {
        None
    } else {
        read
    }
}

/// What is known of the size of an image of this format without decoding it: what its header gives.
/// There is none of a vector image, nor where the header counts too far.
pub open spec fn probed(format: ImageFormat, bytes: Seq<u8>) -> Option<(u32, u32)> {
    if header_counts_fit(bytes) {
        shown(format, image_dimensions(bytes, usize::BITS as nat))
    } else {
        None
    }
}

/// The format of the image that a path names; a path that names no image is taken for a PNG.
pub open spec fn format_or_png(path: Seq<char>) -> ImageFormat {
    match path_format(path) {
        Some(format) => format,
        None => ImageFormat::Png,
    }
}

/// What stands below an image: its width and height where they are known, and its size.
pub open spec fn caption_text(dimensions: Option<(u32, u32)>, byte_len: nat) -> Seq<char> {
    match dimensions {
        Some((width, height)) => decimal(width as nat) + " × "@ + decimal(height as nat) + " · "@
            + size_text(byte_len),
        None => size_text(byte_len),
    }
}

impl ImageView {
    /// What is known of an image without decoding it: its width and height, and its size.
    pub fn probe(format: ImageFormat, bytes: &Vec<u8>) -> (r: (Option<(u32, u32)>, u64))
        ensures
            r.0 == probed(format, bytes@),
            r.1 == bytes@.len(),
    {
        let read = if format != ImageFormat::Svg && header_counts_are_small(bytes) {
            guessed_dimensions(bytes.as_slice())
        } else {
            None
        };
        let len: usize = bytes.len();
        (shown_size(format, read), len as u64)
    }

    /// The image that a file holds. A path that names no image is taken for a PNG.
    pub fn new(path: &str, bytes: &Vec<u8>) -> (view: ImageView)
        ensures
            view.byte_len == bytes@.len(),
            view.dimensions == probed(format_or_png(path@), bytes@),
    {
        let format = match image_format_for(path) {
            Some(format) => format,
            None => ImageFormat::Png,
        };
        let (dimensions, byte_len) = ImageView::probe(format, bytes);
        ImageView { dimensions, byte_len }
    }

    /// The file has changed.
    pub fn set_bytes(&mut self, path: &str, bytes: &Vec<u8>)
        ensures
            final(self).byte_len == bytes@.len(),
            final(self).dimensions == probed(format_or_png(path@), bytes@),
    {
        *self = ImageView::new(path, bytes);
    }

    /// What stands below the image.
    pub fn caption(&self) -> (r: String)
        ensures
            r@ == caption_text(self.dimensions, self.byte_len as nat),
    {
        match self.dimensions {
            Some((width, height)) => {
                let mut out = decimal_text(width as u64);
                out.append(" × ");
                out.append(decimal_text(height as u64).as_str());
                out.append(" · ");
                out.append(human_size(self.byte_len).as_str());
                out
            },
            None => human_size(self.byte_len),
        }
    }
}

/// Only ASCII capitals change, each into its small letter; so the case of an extension does not matter.
pub proof fn the_case_of_an_extension_does_not_matter(a: Seq<char>, b: Seq<char>)
    requires
        a.len() == b.len(),
        forall|i: int|
            0 <= i < a.len() ==> #[trigger] a[i] == b[i] || ('A' <= a[i] <= 'Z' && b[i] as u32 == a[i] as u32 + 32),
    ensures
        lowered(a) == lowered(b),
        format_of(a) == format_of(b),
        lowered(lowered(a)) == lowered(a),
{
    assert forall|i: int| 0 <= i < a.len() implies lower(#[trigger] a[i]) == lower(b[i]) by {
        if a[i] != b[i] {
            assert(b[i] as u32 == a[i] as u32 + 32);
        }
    }
    assert(lowered(a) =~= lowered(b));
    assert forall|c: char| lower(#[trigger] lower(c)) == lower(c) by {}
    assert(lowered(lowered(a)) =~= lowered(a));
}

/// Which extensions stand for which format, and that no other stands for an image.
pub proof fn formats_go_by_the_extension(e: Seq<char>)
    ensures
        ({
            let s = lowered(e);
            &&& format_of(e) == Some(ImageFormat::Png) <==> s == seq!['p', 'n', 'g']
            &&& format_of(e) == Some(ImageFormat::Jpeg) <==> s == seq!['j', 'p', 'g'] || s == seq!['j', 'p', 'e', 'g']
            &&& format_of(e) == Some(ImageFormat::Gif) <==> s == seq!['g', 'i', 'f']
            &&& format_of(e) == Some(ImageFormat::Webp) <==> s == seq!['w', 'e', 'b', 'p']
            &&& format_of(e) == Some(ImageFormat::Bmp) <==> s == seq!['b', 'm', 'p']
            &&& format_of(e) == Some(ImageFormat::Ico) <==> s == seq!['i', 'c', 'o']
            &&& format_of(e) == Some(ImageFormat::Tiff) <==> s == seq!['t', 'i', 'f'] || s == seq!['t', 'i', 'f', 'f']
            &&& format_of(e) == Some(ImageFormat::Svg) <==> s == seq!['s', 'v', 'g']
        }),
{
    reveal_strlit("png");
    reveal_strlit("jpg");
    reveal_strlit("jpeg");
    reveal_strlit("gif");
    reveal_strlit("webp");
    reveal_strlit("bmp");
    reveal_strlit("ico");
    reveal_strlit("tif");
    reveal_strlit("tiff");
    reveal_strlit("svg");
    let png = seq!['p', 'n', 'g'];
    let jpg = seq!['j', 'p', 'g'];
    let jpeg = seq!['j', 'p', 'e', 'g'];
    let gif = seq!['g', 'i', 'f'];
    let webp = seq!['w', 'e', 'b', 'p'];
    let bmp = seq!['b', 'm', 'p'];
    let ico = seq!['i', 'c', 'o'];
    let tif = seq!['t', 'i', 'f'];
    let tiff = seq!['t', 'i', 'f', 'f'];
    let svg = seq!['s', 'v', 'g'];
    assert("png"@ =~= png);
    assert("jpg"@ =~= jpg);
    assert("jpeg"@ =~= jpeg);
    assert("gif"@ =~= gif);
    assert("webp"@ =~= webp);
    assert("bmp"@ =~= bmp);
    assert("ico"@ =~= ico);
    assert("tif"@ =~= tif);
    assert("tiff"@ =~= tiff);
    assert("svg"@ =~= svg);
    assert(png[0] == 'p' && jpg[0] == 'j' && jpeg[0] == 'j' && gif[0] == 'g' && webp[0] == 'w' && bmp[0] == 'b');
    assert(ico[0] == 'i' && tif[0] == 't' && tiff[0] == 't' && svg[0] == 's');
}

/// A number is rounded to the nearest whole one; of two that are as near, to the even one.
pub proof fn rounding_goes_to_the_nearest(num: nat, den: nat)
    requires
        den > 0,
    ensures
        ({
            let r = rounded(num, den);
            &&& 2 * (r * den) <= 2 * num + den
            &&& 2 * num <= 2 * (r * den) + den
            &&& (2 * (r * den) == 2 * num + den || 2 * num == 2 * (r * den) + den) ==> r % 2 == 0
        }),
{
    let down = num / den;
    let rest = num % den;
    let r = rounded(num, den);
    lemma_fundamental_div_mod(num as int, den as int);
    lemma_mod_bound(num as int, den as int);
    assert(den * down == down * den) by (nonlinear_arith);
    assert((down + 1) * den == down * den + den) by (nonlinear_arith);
}

/// A count of bytes is shown in bytes below a kilobyte, in kilobytes below a megabyte, and else in
/// megabytes; the bytes are exact, and the others have one decimal.
pub proof fn sizes_have_their_unit(bytes: nat)
    ensures
        bytes < 1024 ==> size_text(bytes) == decimal(bytes) + seq![' ', 'B'],
        1024 <= bytes < 1048576 ==> seq![' ', 'K', 'B'].is_suffix_of(size_text(bytes)),
        bytes >= 1048576 ==> seq![' ', 'M', 'B'].is_suffix_of(size_text(bytes)),
        bytes >= 1024 ==> {
            let unit: nat = if bytes < 1048576 { 1024 } else { 1048576 };
            let tenths = rounded(10 * as_double(bytes), unit);
            let text = size_text(bytes);
            &&& text[text.len() - 5] == '.'
            &&& digits_value(text.take(text.len() - 5)) == tenths / 10
            &&& digits_value(text.subrange(text.len() - 4, text.len() - 3)) == tenths % 10
        },
{
    reveal_strlit(" B");
    reveal_strlit(" KB");
    reveal_strlit(" MB");
    reveal_strlit(".");
    let text = size_text(bytes);
    if bytes < 1024 {
        assert(text =~= decimal(bytes) + seq![' ', 'B']);
    } else {
        let unit: nat = if bytes < 1048576 { 1024 } else { 1048576 };
        let tenths = rounded(10 * as_double(bytes), unit);
        decimal_reads_back(tenths / 10);
        decimal_reads_back(tenths % 10);
        assert(decimal(tenths % 10).len() == 1);
        assert(text.take(text.len() - 5) =~= decimal(tenths / 10));
        assert(text.subrange(text.len() - 4, text.len() - 3) =~= decimal(tenths % 10));
        if bytes < 1048576 {
            assert(text.skip(text.len() - 3) =~= seq![' ', 'K', 'B']);
        } else {
            assert(text.skip(text.len() - 3) =~= seq![' ', 'M', 'B']);
        }
    }
}

/// A count that a double precision number holds exactly stays what it is.
pub proof fn small_counts_are_exact(n: nat)
    requires
        n <= 0x20_0000_0000_0000,
    ensures
        as_double(n) == n,
{
    if n < 0x20_0000_0000_0000 {
        assert(double_step(n) == 1);
        assert(rounded(n, 1) == n);
        assert(n * 1 == n);
    } else {
        reveal_with_fuel(double_step, 2);
        assert(double_step(n) == 2);
        assert(rounded(n, 2) == n / 2);
    }
}

/// A greater count is held to the nearest number that a double holds: the numbers it falls between are as
/// far apart as fifty-three binary digits allow.
pub proof fn great_counts_are_rounded(n: nat)
    ensures
        double_step(n) > 0,
        double_step(n) == 1 || 2 * double_step(n) == double_step(2 * n),
        n / double_step(n) < 0x20_0000_0000_0000,
        n >= 0x20_0000_0000_0000 ==> n / double_step(n) >= 0x10_0000_0000_0000,
        2 * as_double(n) <= 2 * n + double_step(n),
        2 * n <= 2 * as_double(n) + double_step(n),
    decreases n,
{
    step_fits(n);
    let s = double_step(n);
    rounding_goes_to_the_nearest(n, s);
    if n >= 0x20_0000_0000_0000 {
        assert((2 * n) / 2 == n);
        assert(double_step(2 * n) == 2 * double_step((2 * n) / 2));
    }
}

proof fn step_fits(n: nat)
    ensures
        double_step(n) > 0,
        n / double_step(n) < 0x20_0000_0000_0000,
        n >= 0x20_0000_0000_0000 ==> n / double_step(n) >= 0x10_0000_0000_0000,
    decreases n,
{
    if n >= 0x20_0000_0000_0000 {
        let half = n / 2;
        step_fits(half);
        let s = double_step(half);
        lemma_div_denominator(n as int, 2, s as int);
        assert(n / (2 * s) == half / s);
        if half < 0x20_0000_0000_0000 {
            assert(s == 1);
            assert(half / 1 == half);
        }
    } else {
        assert(n / 1 == n);
    }
}

/// A caption ends with the size of the file; where the width and the height are known, they stand before
/// it, in this order.
pub proof fn captions_tell_width_height_and_size(dimensions: Option<(u32, u32)>, byte_len: nat)
    ensures
        size_text(byte_len).is_suffix_of(caption_text(dimensions, byte_len)),
        dimensions is None ==> caption_text(dimensions, byte_len) == size_text(byte_len),
        dimensions matches Some((width, height)) ==> {
            let text = caption_text(dimensions, byte_len);
            let w = decimal(width as nat).len() as int;
            let h = decimal(height as nat).len() as int;
            &&& digits_value(text.take(w)) == width
            &&& digits_value(text.subrange(w + 3, w + 3 + h)) == height
            &&& text.len() == w + h + 6 + size_text(byte_len).len()
        },
{
    reveal_strlit(" × ");
    reveal_strlit(" · ");
    let text = caption_text(dimensions, byte_len);
    let size = size_text(byte_len);
    assert(text.skip(text.len() - size.len()) =~= size);
    if let Some((width, height)) = dimensions {
        decimal_reads_back(width as nat);
        decimal_reads_back(height as nat);
        let w = decimal(width as nat).len() as int;
        let h = decimal(height as nat).len() as int;
        assert(text.take(w) =~= decimal(width as nat));
        assert(text.subrange(w + 3, w + 3 + h) =~= decimal(height as nat));
    }
}

/// A vector image has no size of its own, and any other shows what was read.
pub proof fn vector_images_have_no_size(format: ImageFormat, read: Option<(u32, u32)>, bytes: Seq<u8>, path: Seq<char>)
    ensures
        shown(ImageFormat::Svg, read) is None,
        format != ImageFormat::Svg ==> shown(format, read) == read,
        probed(ImageFormat::Svg, bytes) is None,
        format != ImageFormat::Svg && header_counts_fit(bytes) ==> probed(format, bytes) == image_dimensions(
            bytes,
            usize::BITS as nat,
        ),
        image_path(path) ==> Some(format_or_png(path)) == path_format(path),
        !image_path(path) ==> format_or_png(path) == ImageFormat::Png,
{
}

/// Whether a path names an image goes by the extension of its name alone.
pub proof fn images_are_known_by_their_extension(path: Seq<char>)
    ensures
        image_path(path) <==> name_of(path) is Some && extension(name_of(path)->0) is Some && format_of(
            extension(name_of(path)->0)->0,
        ) is Some,
        image_path(path) ==> path_format(path) == format_of(extension(name_of(path)->0)->0),
{
}

} // verus!
