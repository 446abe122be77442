//! The frame pipeline: decode an image into frames, bound the frame count,
//! shrink oversized frames, run a transform, and encode the result as a GIF
//! (several frames) or a PNG (one frame).

use vstd::prelude::*;
use ril::FrameIterator;
use crate::error;

verus! {

#[verifier::external_type_specification]
pub struct ExImageFormat(ril::ImageFormat);

/// The decoded frames of an image, in display order: a ril image sequence,
/// held opaquely.
#[verifier::external_body]
pub struct Frames {
    pub sequence: ril::ImageSequence<ril::Rgba>,
}

/// The dimensions (width, height) of a sequence's frames, in order.
pub uninterp spec fn frame_sizes(s: Frames) -> Seq<(u32, u32)>;

/// The pixels (red, green, blue, alpha) of a sequence's frames, each frame
/// row by row, in order.
pub uninterp spec fn frame_pixels(s: Frames) -> Seq<Seq<(u8, u8, u8, u8)>>;

/// The timing of a sequence's frames, in order: the delay in nanoseconds, and
/// the disposal (0 for none, 1 for background, 2 for previous).
pub uninterp spec fn frame_timings(s: Frames) -> Seq<(u128, u8)>;

/// The default frame-count cap.
pub const DEFAULT_MAX_FRAMES: usize = 200;

/// The default height cap; the width is left free.
pub const DEFAULT_MAX_DIM: u32 = 500;

/// The frame sizes ril decodes from these bytes; none where decoding fails.
pub uninterp spec fn decoded_sizes(b: Seq<u8>) -> Option<Seq<(u32, u32)>>;

/// The frame pixels ril decodes from these bytes; none where decoding fails.
pub uninterp spec fn decoded_pixels(b: Seq<u8>) -> Option<Seq<Seq<(u8, u8, u8, u8)>>>;

/// The frame timings ril decodes from these bytes; none where decoding
/// fails.
pub uninterp spec fn decoded_timings(b: Seq<u8>) -> Option<Seq<(u128, u8)>>;

/// ril's message for its failure to decode these bytes.
pub uninterp spec fn decode_error_text(b: Seq<u8>) -> Seq<char>;

/// Relies on ril's `ImageSequence::from_bytes_inferred` and
/// `FrameIterator::into_sequence`: the format is read from the bytes and all
/// frames are decoded; a failure comes back as ril's message for it. The
/// result depends on the bytes alone, and ril keeps every side non-zero. Left
/// out: bytes that ril would hand to a missing decoder or read past their end
/// while sniffing, a GIF with a zero-sized frame, on which ril's GIF decoder
/// panics (the other decoders refuse zero sides themselves), and a PNG with a
/// zero delay denominator, which ril's animated PNG decoder divides by.
#[verifier::external_body]
fn decode_frames(bytes: &Vec<u8>) -> (r: Result<Frames, String>)
    requires
        !sniff_refused(bytes@),
        !gif_empty_frame(bytes@),
        !png_zero_delay(bytes@),
    ensures
        r is Ok <==> decoded_sizes(bytes@) is Some,
        r matches Ok(f) ==> decoded_sizes(bytes@) == Some(frame_sizes(f)),
        r matches Ok(f) ==> decoded_pixels(bytes@) == Some(frame_pixels(f)),
        r matches Ok(f) ==> decoded_timings(bytes@) == Some(frame_timings(f)),
        r matches Ok(f) ==> valid_sizes(frame_sizes(f)),
        r matches Err(t) ==> t@ == decode_error_text(bytes@),
{
    ril::ImageSequence::<ril::Rgba>::from_bytes_inferred(bytes.as_slice()).and_then(
        |frames| frames.into_sequence(),
    ).map(|sequence| Frames { sequence }).map_err(|e| e.to_string())
}

/// Relies on ril's `ImageSequence::len`: the number of frames, of which each
/// has a size, pixels and a timing.
#[verifier::external_body]
pub(crate) fn frame_count(s: &Frames) -> (r: usize)
    ensures
        r == frame_sizes(*s).len(),
        r == frame_pixels(*s).len(),
        r == frame_timings(*s).len(),
{
    s.sequence.len()
}

/// Relies on ril's `ImageSequence::first_frame` and `Image::dimensions`:
/// the first frame's width and height, which ril keeps non-zero.
#[verifier::external_body]
fn first_size(s: &Frames) -> (r: Option<(u32, u32)>)
    ensures
        frame_sizes(*s).len() == 0 ==> r is None,
        frame_sizes(*s).len() > 0 ==> r == Some(frame_sizes(*s)[0]),
        r matches Some(d) ==> d.0 > 0 && d.1 > 0,
{
    s.sequence.first_frame().map(|frame| frame.dimensions())
}

/// Relies on ril's `Image::resize` (reached through
/// `ImageSequence::iter_mut`): the frame at `i` takes the given dimensions,
/// resampled with Lanczos3; its delay and disposal stay. ril panics on a zero
/// dimension.
#[verifier::external_body]
fn resize_frame(s: &mut Frames, i: usize, width: u32, height: u32)
    requires
        i < frame_sizes(*old(s)).len(),
        width > 0,
        height > 0,
    ensures
        frame_sizes(*final(s)) == frame_sizes(*old(s)).update(i as int, (width, height)),
        frame_timings(*final(s)) == frame_timings(*old(s)),
{
    if let Some(frame) = s.sequence.iter_mut().nth(i) {
        frame.resize(width, height, ril::ResizeAlgorithm::Lanczos3);
    }
}

/// What ril's `ImageSequence::encode` writes for a sequence set to loop
/// forever, as a GIF or else as a PNG; none where it fails.
pub uninterp spec fn encoding_of(s: Frames, gif: bool) -> Option<Seq<u8>>;

/// The largest width or height a GIF frame can have.
pub const GIF_MAX_SIDE: u32 = 65535;

/// Every frame fits in a GIF.
pub open spec fn gif_fits(sizes: Seq<(u32, u32)>) -> bool {
    forall|i: int|
        0 <= i < sizes.len() ==> #[trigger] sizes[i].0 <= GIF_MAX_SIDE && sizes[i].1 <= GIF_MAX_SIDE
}

/// Relies on ril's `ImageSequence::looped_infinitely` and
/// `ImageSequence::encode`: the sequence, set to loop forever, is written in
/// the given format into a buffer; a failure comes back as ril's message for
/// it. The output depends on the frames alone. ril panics on a sequence
/// without frames, and its GIF encoder on a frame side above 65535 (it casts
/// sides to `u16`).
#[verifier::external_body]
fn encode_looped(s: Frames, format: ril::ImageFormat) -> (r: Result<Vec<u8>, String>)
    requires
        frame_sizes(s).len() > 0,
        format == ril::ImageFormat::Gif || format == ril::ImageFormat::Png,
        format == ril::ImageFormat::Gif ==> gif_fits(frame_sizes(s)),
    ensures
        r is Ok <==> encoding_of(s, format == ril::ImageFormat::Gif) is Some,
        r matches Ok(b) ==> encoding_of(s, format == ril::ImageFormat::Gif) == Some(b@),
{
    let mut out: Vec<u8> = Vec::new();
    s.sequence.looped_infinitely().encode(format, &mut out).map(|_| out).map_err(|e| e.to_string())
}

/// Relies on ril's `ImageSequence::iter` and `Image::dimensions`: the width
/// and height of frame `i`.
#[verifier::external_body]
fn size_at(s: &Frames, i: usize) -> (r: (u32, u32))
    requires
        i < frame_sizes(*s).len(),
    ensures
        r == frame_sizes(*s)[i as int],
{
    s.sequence.iter().nth(i).map(|frame| frame.dimensions()).unwrap_or((0, 0))
}

pub open spec fn starts_with_bytes(b: Seq<u8>, p: Seq<u8>) -> bool {
    p.len() <= b.len() && b.subrange(0, p.len() as int) == p
}

/// Bytes on which ril's format sniffing picks a format without a decoder
/// here (BMP, TIFF), or reads past the end of a short TIFF-like header.
pub open spec fn sniff_refused(b: Seq<u8>) -> bool {
    let png = starts_with_bytes(b, seq![0x89u8, 0x50, 0x4E, 0x47, 0x0D, 0x0A, 0x1A, 0x0A]);
    let jpeg = starts_with_bytes(b, seq![0xFFu8, 0xD8, 0xFF]);
    let gif = starts_with_bytes(b, seq![0x47u8, 0x49, 0x46]);
    let bmp = starts_with_bytes(b, seq![0x42u8, 0x4D]);
    let webp = b.len() > 11 && b.subrange(8, 12) == seq![0x57u8, 0x45, 0x42, 0x50];
    let tiff = starts_with_bytes(b, seq![0x49u8, 0x49, 0x2A, 0x00]) || starts_with_bytes(
        b,
        seq![0x4Du8, 0x4D, 0x00, 0x2A],
    );
    !png && !jpeg && !gif && (bmp || (!webp && tiff && (b.len() <= 8 || (b[8] != 0x43 && (b.len()
        <= 9 || b[9] != 0x52)))))
}

fn bytes_at(b: &Vec<u8>, i: usize, p: &[u8]) -> (r: bool)
    ensures
        r == (i + p@.len() <= b@.len() && b@.subrange(i as int, i + p@.len()) == p@),
{
    let n = b.len();
    if i > n || p.len() > n - i {
        return false;
    }
    let mut k: usize = 0;
    while k < p.len()
        invariant
            n == b@.len(),
            i + p@.len() <= n,
            k <= p@.len(),
            forall|m: int| 0 <= m < k ==> #[trigger] b@[i + m] == p@[m],
        decreases p@.len() - k,
    {
        if b[i + k] != p[k] {
            assert(b@.subrange(i as int, i + p@.len())[k as int] != p@[k as int]);
            return false;
        }
        k = k + 1;
    }
    assert forall|m: int| 0 <= m < p@.len() implies b@.subrange(i as int, i + p@.len())[m]
        == p@[m] by {
        assert(b@[i + m] == p@[m]);
    }
    assert(b@.subrange(i as int, i + p@.len()) =~= p@);
    true
}

/// Whether ril's sniffing would refuse these bytes (see `sniff_refused`).
pub fn refused_format(b: &Vec<u8>) -> (r: bool)
    ensures
        r == sniff_refused(b@),
{
    let png_magic: [u8; 8] = [0x89, 0x50, 0x4E, 0x47, 0x0D, 0x0A, 0x1A, 0x0A];
    let jpeg_magic: [u8; 3] = [0xFF, 0xD8, 0xFF];
    let gif_magic: [u8; 3] = [0x47, 0x49, 0x46];
    let bmp_magic: [u8; 2] = [0x42, 0x4D];
    let webp_tag: [u8; 4] = [0x57, 0x45, 0x42, 0x50];
    let tiff_le: [u8; 4] = [0x49, 0x49, 0x2A, 0x00];
    let tiff_be: [u8; 4] = [0x4D, 0x4D, 0x00, 0x2A];
    let png = bytes_at(b, 0, png_magic.as_slice());
    let jpeg = bytes_at(b, 0, jpeg_magic.as_slice());
    let gif = bytes_at(b, 0, gif_magic.as_slice());
    let bmp = bytes_at(b, 0, bmp_magic.as_slice());
    let webp = b.len() > 11 && bytes_at(b, 8, webp_tag.as_slice());
    let tiff = bytes_at(b, 0, tiff_le.as_slice()) || bytes_at(b, 0, tiff_be.as_slice());
    proof {
        assert(png_magic@ =~= seq![0x89u8, 0x50, 0x4E, 0x47, 0x0D, 0x0A, 0x1A, 0x0A]);
        assert(jpeg_magic@ =~= seq![0xFFu8, 0xD8, 0xFF]);
        assert(gif_magic@ =~= seq![0x47u8, 0x49, 0x46]);
        assert(bmp_magic@ =~= seq![0x42u8, 0x4D]);
        assert(webp_tag@ =~= seq![0x57u8, 0x45, 0x42, 0x50]);
        assert(tiff_le@ =~= seq![0x49u8, 0x49, 0x2A, 0x00]);
        assert(tiff_be@ =~= seq![0x4Du8, 0x4D, 0x00, 0x2A]);
    }
    !png && !jpeg && !gif && (bmp || (!webp && tiff && (b.len() <= 8 || (b[8] != 0x43 && (b.len()
        <= 9 || b[9] != 0x52)))))
}

/// The number of bytes of a GIF colour table announced by a flags byte: none
/// without bit 7, else three for each of 2 to the (low three bits + 1)
/// entries.
pub open spec fn color_table_len(flags: u8) -> int {
    if flags < 128 {
        0
    } else {
        let k = flags % 8;
        3 * if k == 0 {
            2int
        } else if k == 1 {
            4
        } else if k == 2 {
            8
        } else if k == 3 {
            16
        } else if k == 4 {
            32
        } else if k == 5 {
            64
        } else if k == 6 {
            128
        } else {
            256
        }
    }
}

/// A little-endian 16-bit value.
pub open spec fn le16(b: Seq<u8>, i: int) -> int {
    b[i] as int + 256 * b[i + 1] as int
}

/// Walks GIF blocks from `p`: at a block start (`in_blocks` false) an image
/// descriptor (0x2C) with a zero width or height is found, or else skipped
/// with its colour table and data sub-blocks; an extension (0x21) is skipped
/// with its sub-blocks; anything else (the trailer, an unknown block) ends the
/// walk, as the end of the bytes does.
pub open spec fn empty_frame_from(b: Seq<u8>, p: int, in_blocks: bool) -> bool
    decreases b.len() + 1000 - p,
{
    if p < 0 || p >= b.len() {
        false
    } else if in_blocks {
        if b[p] == 0 {
            empty_frame_from(b, p + 1, false)
        } else {
            empty_frame_from(b, p + 1 + b[p], true)
        }
    } else if b[p] == 0x2C {
        if p + 10 > b.len() {
            false
        } else if le16(b, p + 5) == 0 || le16(b, p + 7) == 0 {
            true
        } else {
            empty_frame_from(b, p + 11 + color_table_len(b[p + 9]), true)
        }
    } else if b[p] == 0x21 {
        empty_frame_from(b, p + 2, true)
    } else {
        false
    }
}

/// A GIF (header `GIF87a` or `GIF89a`) with a frame of zero width or height,
/// which ril's decoder cannot hold (it keeps sides non-zero and panics).
pub open spec fn gif_empty_frame(b: Seq<u8>) -> bool {
    &&& b.len() >= 13
    &&& (starts_with_bytes(b, seq![0x47u8, 0x49, 0x46, 0x38, 0x37, 0x61]) || starts_with_bytes(
        b,
        seq![0x47u8, 0x49, 0x46, 0x38, 0x39, 0x61],
    ))
    &&& empty_frame_from(b, 13 + color_table_len(b[10]), false)
}

fn table_len(flags: u8) -> (r: usize)
    ensures
        r == color_table_len(flags),
{
    if flags < 128 {
        0
    } else {
        let k = flags % 8;
        3 * if k == 0 {
            2
        } else if k == 1 {
            4
        } else if k == 2 {
            8
        } else if k == 3 {
            16
        } else if k == 4 {
            32
        } else if k == 5 {
            64
        } else if k == 6 {
            128
        } else {
            256
        }
    }
}

/// Whether the bytes are a GIF with a frame of zero width or height (see
/// `gif_empty_frame`).
pub fn has_empty_gif_frame(b: &Vec<u8>) -> (r: bool)
    ensures
        r == gif_empty_frame(b@),
{
    let n = b.len();
    let gif87: [u8; 6] = [0x47, 0x49, 0x46, 0x38, 0x37, 0x61];
    let gif89: [u8; 6] = [0x47, 0x49, 0x46, 0x38, 0x39, 0x61];
    proof {
        assert(gif87@ =~= seq![0x47u8, 0x49, 0x46, 0x38, 0x37, 0x61]);
        assert(gif89@ =~= seq![0x47u8, 0x49, 0x46, 0x38, 0x39, 0x61]);
    }
    if n < 13 || !(bytes_at(b, 0, gif87.as_slice()) || bytes_at(b, 0, gif89.as_slice())) {
        return false;
    }
    let mut p: usize = 13 + table_len(b[10]);
    let mut in_blocks = false;
    loop
        invariant
            n == b@.len(),
            n >= 13,
            gif_empty_frame(b@) == empty_frame_from(b@, p as int, in_blocks),
        decreases n - p,
    {
        if p >= n {
            return false;
        }
        let c = b[p];
        if in_blocks {
            let step: usize = if c == 0 {
                1
            } else {
                1 + c as usize
            };
            if step >= n - p {
                assert(!empty_frame_from(b@, p + step, c != 0));
                return false;
            }
            if c == 0 {
                in_blocks = false;
            }
            p = p + step;
        } else if c == 0x2C {
            if n - p < 10 {
                return false;
            }
            if (b[p + 5] == 0 && b[p + 6] == 0) || (b[p + 7] == 0 && b[p + 8] == 0) {
                return true;
            }
            let step: usize = 11 + table_len(b[p + 9]);
            if step >= n - p {
                assert(!empty_frame_from(b@, p + step, true));
                return false;
            }
            p = p + step;
            in_blocks = true;
        } else if c == 0x21 {
            if 2 >= n - p {
                assert(!empty_frame_from(b@, p + 2, true));
                return false;
            }
            p = p + 2;
            in_blocks = true;
        } else {
            return false;
        }
    }
}

/// A big-endian 32-bit value.
pub open spec fn be32(b: Seq<u8>, i: int) -> int {
    b[i] as int * 16777216 + b[i + 1] as int * 65536 + b[i + 2] as int * 256 + b[i + 3] as int
}

/// Walks PNG chunks (length, type, data, checksum) from `p`, looking for a
/// frame control chunk (`fcTL`) whose delay denominator, the two bytes at
/// data offset 22, is zero; the walk ends where the bytes cannot hold the
/// next chunk.
pub open spec fn zero_delay_from(b: Seq<u8>, p: int) -> bool
    decreases b.len() - p,
{
    if p < 0 || p + 8 > b.len() {
        false
    } else {
        let fctl = b[p + 4] == 0x66 && b[p + 5] == 0x63 && b[p + 6] == 0x54 && b[p + 7] == 0x4C;
        if fctl && p + 32 <= b.len() && b[p + 30] == 0 && b[p + 31] == 0 {
            true
        } else {
            let next = p + 12 + be32(b, p);
            if next > b.len() {
                false
            } else {
                zero_delay_from(b, next)
            }
        }
    }
}

/// A PNG with an animation frame whose delay has a zero denominator: ril
/// divides by it to build the frame's delay and panics.
pub open spec fn png_zero_delay(b: Seq<u8>) -> bool {
    starts_with_bytes(b, seq![0x89u8, 0x50, 0x4E, 0x47, 0x0D, 0x0A, 0x1A, 0x0A]) && zero_delay_from(
        b,
        8,
    )
}

/// Whether the bytes are a PNG with a zero delay denominator (see
/// `png_zero_delay`).
pub fn has_zero_png_delay(b: &Vec<u8>) -> (r: bool)
    ensures
        r == png_zero_delay(b@),
{
    let n = b.len();
    let png_magic: [u8; 8] = [0x89, 0x50, 0x4E, 0x47, 0x0D, 0x0A, 0x1A, 0x0A];
    proof {
        assert(png_magic@ =~= seq![0x89u8, 0x50, 0x4E, 0x47, 0x0D, 0x0A, 0x1A, 0x0A]);
    }
    if !bytes_at(b, 0, png_magic.as_slice()) {
        return false;
    }
    let mut p: usize = 8;
    loop
        invariant
            n == b@.len(),
            8 <= p <= n,
            png_zero_delay(b@) == zero_delay_from(b@, p as int),
        decreases n - p,
    {
        if n - p < 8 {
            return false;
        }
        let fctl = b[p + 4] == 0x66 && b[p + 5] == 0x63 && b[p + 6] == 0x54 && b[p + 7] == 0x4C;
        if fctl && n - p >= 32 && b[p + 30] == 0 && b[p + 31] == 0 {
            return true;
        }
        let len: u64 = b[p] as u64 * 16777216 + b[p + 1] as u64 * 65536 + b[p + 2] as u64 * 256
            + b[p + 3] as u64;
        assert(len == be32(b@, p as int));
        if n - p < 12 || len > (n - p - 12) as u64 {
            return false;
        }
        p = p + 12 + len as usize;
    }
}

/// Bytes that are refused before decoding (see `sniff_refused`,
/// `gif_empty_frame` and `png_zero_delay`).
pub open spec fn refused_input(b: Seq<u8>) -> bool {
    sniff_refused(b) || gif_empty_frame(b) || png_zero_delay(b)
}

/// `a / c` rounded up.
pub open spec fn ceil_div(a: int, c: int) -> int
    recommends
        c > 0,
{
    (a + c - 1) / c
}

/// The dimensions a `w` by `h` image is brought to under the caps: a given
/// cap is taken as it is, and a missing one follows from the other by the
/// image's aspect ratio, rounded up.
pub open spec fn target_size(w: int, h: int, width: Option<u32>, height: Option<u32>) -> (int, int)
    recommends
        w > 0,
        h > 0,
{
    let tw: int = match width {
        Some(x) => x as int,
        None => match height {
            Some(y) => ceil_div(y * w, h),
            None => w,
        },
    };
    let th: int = match height {
        Some(y) => y as int,
        None => match width {
            Some(x) => ceil_div(x * h, w),
            None => h,
        },
    };
    (tw, th)
}

/// Whether a `w` by `h` image is resized under the caps: some cap is set,
/// and the image reaches the target in width or in height.
pub open spec fn needs_resize(w: int, h: int, width: Option<u32>, height: Option<u32>) -> bool {
    let t = target_size(w, h, width, height);
    (width is Some || height is Some) && (w >= t.0 || h >= t.1)
}

/// The frame sizes after the caps are applied: all frames take the target
/// of the first frame when it needs a resize, else nothing changes.
pub open spec fn contained_sizes(sizes: Seq<(u32, u32)>, width: Option<u32>, height: Option<u32>) -> Seq<
    (u32, u32),
> {
    if sizes.len() == 0 {
        sizes
    } else {
        let w = sizes[0].0 as int;
        let h = sizes[0].1 as int;
        if needs_resize(w, h, width, height) {
            let t = target_size(w, h, width, height);
            Seq::new(sizes.len(), |i: int| (t.0 as u32, t.1 as u32))
        } else {
            sizes
        }
    }
}

/// Whether frames of these sizes are resized under the caps: the first frame
/// needs it (see `needs_resize`).
pub open spec fn resizes(sizes: Seq<(u32, u32)>, width: Option<u32>, height: Option<u32>) -> bool {
    sizes.len() > 0 && needs_resize(sizes[0].0 as int, sizes[0].1 as int, width, height)
}

pub open spec fn positive_cap(c: Option<u32>) -> bool {
    match c {
        Some(x) => x > 0,
        None => true,
    }
}

/// Where a resize happens, its target fits the dimensions' type and is not
/// zero.
proof fn lemma_target_fits(w: int, h: int, width: Option<u32>, height: Option<u32>)
    requires
        0 < w <= u32::MAX,
        0 < h <= u32::MAX,
        positive_cap(width),
        positive_cap(height),
        needs_resize(w, h, width, height),
    ensures
        0 < target_size(w, h, width, height).0 <= u32::MAX,
        0 < target_size(w, h, width, height).1 <= u32::MAX,
{
    let t = target_size(w, h, width, height);
    match (width, height) {
        (None, Some(y)) => {
            assert(y * w >= w) by (nonlinear_arith)
                requires
                    y >= 1,
                    w >= 1,
            ;
            assert(ceil_div(y * w, h) >= 1) by (nonlinear_arith)
                requires
                    y * w >= 1,
                    h >= 1,
            ;
            if h >= y {
                assert(ceil_div(y * w, h) <= w) by (nonlinear_arith)
                    requires
                        h >= y,
                        h >= 1,
                        y >= 1,
                        w >= 1,
                ;
            }
        },
        (Some(x), None) => {
            assert(x * h >= h) by (nonlinear_arith)
                requires
                    x >= 1,
                    h >= 1,
            ;
            assert(ceil_div(x * h, w) >= 1) by (nonlinear_arith)
                requires
                    x * h >= 1,
                    w >= 1,
            ;
            if w >= x {
                assert(ceil_div(x * h, w) <= h) by (nonlinear_arith)
                    requires
                        w >= x,
                        w >= 1,
                        x >= 1,
                        h >= 1,
                ;
            }
        },
        _ => {},
    }
}

proof fn lemma_product_fits(a: u32, b: u32)
    ensures
        (a as int) * (b as int) + 0xFFFF_FFFF <= u64::MAX,
{
    assert((a as int) * (b as int) <= 0xFFFF_FFFE_0000_0001) by (nonlinear_arith)
        requires
            a <= 0xFFFF_FFFFu32,
            b <= 0xFFFF_FFFFu32,
    ;
}

pub open spec fn valid_sizes(sizes: Seq<(u32, u32)>) -> bool {
    forall|i: int| 0 <= i < sizes.len() ==> #[trigger] sizes[i].0 > 0 && sizes[i].1 > 0
}

proof fn lemma_ceil_div_exact(a: int, c: int)
    requires
        a >= 0,
        c > 0,
    ensures
        ceil_div(c * a, c) == a,
{
    assert((c * a + c - 1) / c == a) by (nonlinear_arith)
        requires
            a >= 0,
            c > 0,
    ;
}

/// Applying the caps twice gives the frame sizes that applying them once
/// gives.
pub proof fn lemma_resize_idempotent(sizes: Seq<(u32, u32)>, width: Option<u32>, height: Option<u32>)
    requires
        valid_sizes(sizes),
        positive_cap(width),
        positive_cap(height),
    ensures
        contained_sizes(contained_sizes(sizes, width, height), width, height) == contained_sizes(
            sizes,
            width,
            height,
        ),
{
    if sizes.len() > 0 {
        let w = sizes[0].0 as int;
        let h = sizes[0].1 as int;
        if needs_resize(w, h, width, height) {
            lemma_target_fits(w, h, width, height);
            let t = target_size(w, h, width, height);
            let once = contained_sizes(sizes, width, height);
            assert(once[0] == (t.0 as u32, t.1 as u32));
            match (width, height) {
                (None, Some(y)) => {
                    lemma_ceil_div_exact(t.0, y as int);
                    assert(y as int * t.0 == t.0 * y as int) by (nonlinear_arith);
                },
                (Some(x), None) => {
                    lemma_ceil_div_exact(t.1, x as int);
                    assert(x as int * t.1 == t.1 * x as int) by (nonlinear_arith);
                },
                _ => {},
            }
            assert(target_size(t.0, t.1, width, height) == t);
            assert(contained_sizes(once, width, height) =~= once);
        }
    }
}

/// Frames whose first frame is below every cap that is set are left as
/// they are.
pub proof fn lemma_within_caps_unchanged(sizes: Seq<(u32, u32)>, width: Option<u32>, height: Option<u32>)
    requires
        valid_sizes(sizes),
        sizes.len() > 0,
        width matches Some(x) ==> sizes[0].0 < x,
        height matches Some(y) ==> sizes[0].1 < y,
    ensures
        contained_sizes(sizes, width, height) == sizes,
{
    let w = sizes[0].0 as int;
    let h = sizes[0].1 as int;
    match (width, height) {
        (None, Some(y)) => {
            assert(y as int * w > h * w) by (nonlinear_arith)
                requires
                    y > h,
                    w > 0,
            ;
            assert(ceil_div(y as int * w, h) > w) by (nonlinear_arith)
                requires
                    y as int * w > h * w,
                    h > 0,
            ;
        },
        (Some(x), None) => {
            assert(x as int * h > w * h) by (nonlinear_arith)
                requires
                    x > w,
                    h > 0,
            ;
            assert(ceil_div(x as int * h, w) > h) by (nonlinear_arith)
                requires
                    x as int * h > w * h,
                    w > 0,
            ;
        },
        _ => {},
    }
    assert(!needs_resize(w, h, width, height));
}

/// With one cap, the first frame never grows, and one that is within the
/// cap keeps its size exactly.
pub proof fn lemma_single_cap_never_upscales(
    sizes: Seq<(u32, u32)>,
    width: Option<u32>,
    height: Option<u32>,
)
    requires
        valid_sizes(sizes),
        sizes.len() > 0,
        positive_cap(width),
        positive_cap(height),
        width is None || height is None,
    ensures
        contained_sizes(sizes, width, height)[0].0 <= sizes[0].0,
        contained_sizes(sizes, width, height)[0].1 <= sizes[0].1,
        (width matches Some(x) ==> sizes[0].0 <= x) && (height matches Some(y) ==> sizes[0].1 <= y)
            ==> contained_sizes(sizes, width, height)[0] == sizes[0],
{
    let w = sizes[0].0 as int;
    let h = sizes[0].1 as int;
    if needs_resize(w, h, width, height) {
        lemma_target_fits(w, h, width, height);
        let t = target_size(w, h, width, height);
        match (width, height) {
            (None, Some(y)) => {
                if h >= y {
                    assert(ceil_div(y as int * w, h) <= w) by (nonlinear_arith)
                        requires
                            h >= y,
                            y >= 1,
                            w >= 1,
                    ;
                    if h == y {
                        lemma_ceil_div_exact(w, h);
                    }
                } else {
                    assert(y as int * w > h * w) by (nonlinear_arith)
                        requires
                            y > h,
                            w > 0,
                    ;
                    assert(ceil_div(y as int * w, h) > w) by (nonlinear_arith)
                        requires
                            y as int * w > h * w,
                            h > 0,
                    ;
                }
            },
            (Some(x), None) => {
                if w >= x {
                    assert(ceil_div(x as int * h, w) <= h) by (nonlinear_arith)
                        requires
                            w >= x,
                            x >= 1,
                            h >= 1,
                    ;
                    if w == x {
                        lemma_ceil_div_exact(h, w);
                    }
                } else {
                    assert(x as int * h > w * h) by (nonlinear_arith)
                        requires
                            x > w,
                            h > 0,
                    ;
                    assert(ceil_div(x as int * h, w) > h) by (nonlinear_arith)
                        requires
                            x as int * h > w * h,
                            w > 0,
                    ;
                }
            },
            _ => {},
        }
    }
}

/// The frames handed to a transform, with the transform's extra arguments.
pub struct ImageArguments<A> {
    pub frames: Frames,
    pub arguments: Vec<A>,
}

/// Shrinks the frames to the caps when the first frame reaches them (see
/// `contained_sizes`); never enlarges a frame that is below them.
pub fn contain_size(data: ImageArguments<()>, width: Option<u32>, height: Option<u32>) -> (r: Frames)
    requires
        positive_cap(width),
        positive_cap(height),
    ensures
        frame_sizes(r) == contained_sizes(frame_sizes(data.frames), width, height),
        frame_timings(r) == frame_timings(data.frames),
        !resizes(frame_sizes(data.frames), width, height) ==> r == data.frames,
{
    let mut frames = data.frames;
    let ghost sizes = frame_sizes(frames);
    let ghost timings = frame_timings(frames);
    if width.is_none() && height.is_none() {
        return frames;
    }
    let (w, h) = match first_size(&frames) {
        Some(d) => d,
        None => {
            return frames;
        },
    };
    proof {
        lemma_product_fits(w, h);
        if let Some(y) = height {
            lemma_product_fits(y, w);
        }
        if let Some(x) = width {
            lemma_product_fits(x, h);
        }
    }
    let tw: u64 = match width {
        Some(x) => x as u64,
        None => match height {
            Some(y) => (y as u64 * w as u64 + h as u64 - 1) / h as u64,
            None => w as u64,
        },
    };
    let th: u64 = match height {
        Some(y) => y as u64,
        None => match width {
            Some(x) => (x as u64 * h as u64 + w as u64 - 1) / w as u64,
            None => h as u64,
        },
    };
    assert((tw as int, th as int) == target_size(w as int, h as int, width, height));
    if (w as u64) >= tw || (h as u64) >= th {
        proof {
            lemma_target_fits(w as int, h as int, width, height);
        }
        let n = frame_count(&frames);
        let mut i: usize = 0;
        while i < n
            invariant
                n == sizes.len(),
                i <= n,
                0 < tw <= u32::MAX,
                0 < th <= u32::MAX,
                frame_timings(frames) == timings,
                frame_sizes(frames) == Seq::new(
                    n as nat,
                    |j: int|
                        if j < i {
                            (tw as u32, th as u32)
                        } else {
                            sizes[j]
                        },
                ),
            decreases n - i,
        {
            resize_frame(&mut frames, i, tw as u32, th as u32);
            proof {
                assert(frame_sizes(frames) =~= Seq::new(
                    n as nat,
                    |j: int|
                        if j < i + 1 {
                            (tw as u32, th as u32)
                        } else {
                            sizes[j]
                        },
                ));
            }
            i = i + 1;
        }
        assert(frame_sizes(frames) =~= contained_sizes(sizes, width, height));
    } else {
        assert(frame_sizes(frames) =~= sizes);
    }
    frames
}

/// Refuses a sequence with more frames than `max_frames`.
pub fn check_frame_count(frames: &Frames, max_frames: usize) -> (r: Result<(), error::Error>)
    ensures
        frame_sizes(*frames).len() > max_frames ==> (r matches Err(
            error::Error::TooManyFrames(n, m),
        ) && n == frame_sizes(*frames).len() && m == max_frames),
        frame_sizes(*frames).len() <= max_frames ==> r is Ok,
{
    let n = frame_count(frames);
    if n > max_frames {
        Err(error::Error::TooManyFrames(n, max_frames))
    } else {
        Ok(())
    }
}

/// Whether output with `count` frames is animated.
pub open spec fn is_animated(count: nat) -> bool {
    count > 1
}

/// What encoding `f` gives: no frames is `EmptyImage`; several frames are a
/// GIF, marked animated, unless a frame is too large for one; one frame is a
/// PNG. The bytes are ril's encoding, and a failure of ril is a `RilError`.
pub open spec fn output_of(f: Frames, r: Result<(Vec<u8>, bool), error::Error>) -> bool {
    let sizes = frame_sizes(f);
    let animated = is_animated(sizes.len());
    if sizes.len() == 0 {
        r == Err::<(Vec<u8>, bool), error::Error>(error::Error::EmptyImage)
    } else if animated && !gif_fits(sizes) {
        r == Err::<(Vec<u8>, bool), error::Error>(error::Error::FrameTooLarge)
    } else {
        match encoding_of(f, animated) {
            Some(b) => r matches Ok(out) && out.0@ == b && out.1 == animated,
            None => r matches Err(error::Error::RilError(_)),
        }
    }
}

/// Whether every frame fits in a GIF.
fn fits_gif(frames: &Frames) -> (r: bool)
    ensures
        r == gif_fits(frame_sizes(*frames)),
{
    let n = frame_count(frames);
    let mut i: usize = 0;
    while i < n
        invariant
            n == frame_sizes(*frames).len(),
            i <= n,
            forall|k: int|
                0 <= k < i ==> #[trigger] frame_sizes(*frames)[k].0 <= GIF_MAX_SIDE && frame_sizes(
                    *frames,
                )[k].1 <= GIF_MAX_SIDE,
        decreases n - i,
    {
        let (w, h) = size_at(frames, i);
        if w > GIF_MAX_SIDE || h > GIF_MAX_SIDE {
            return false;
        }
        i = i + 1;
    }
    true
}

/// Encodes the frames, set to loop forever (see `output_of`): as a GIF when
/// there are several frames (the result is then marked animated), as a PNG
/// when there is one.
pub fn encode_output(frames: Frames) -> (r: Result<(Vec<u8>, bool), error::Error>)
    ensures
        output_of(frames, r),
{
    let n = frame_count(&frames);
    if n == 0 {
        return Err(error::Error::EmptyImage);
    }
    let animated = n > 1;
    if animated && !fits_gif(&frames) {
        return Err(error::Error::FrameTooLarge);
    }
    let format = if animated {
        ril::ImageFormat::Gif
    } else {
        ril::ImageFormat::Png
    };
    match encode_looped(frames, format) {
        Ok(bytes) => Ok((bytes, animated)),
        Err(text) => Err(error::Error::RilError(text)),
    }
}

/// Pairs each step with a source frame, cycling through the frames: step
/// `k` takes frame `k % frame_count`. A still image thus gives one frame per
/// step, and an animation runs for as many steps as there are, whatever its
/// frame count. Without frames there are no pairs.
pub fn process_gif(frame_count: usize, steps: &Vec<i32>) -> (r: Vec<(usize, i32)>)
    ensures
        frame_count == 0 ==> r@.len() == 0,
        frame_count > 0 ==> r@.len() == steps@.len(),
        forall|k: int|
            0 <= k < r@.len() ==> #[trigger] r@[k] == ((k % frame_count as int) as usize, steps@[k]),
{
    let mut out: Vec<(usize, i32)> = Vec::new();
    if frame_count == 0 {
        return out;
    }
    let mut k: usize = 0;
    let mut f: usize = 0;
    while k < steps.len()
        invariant
            frame_count > 0,
            k <= steps@.len(),
            f as int == k as int % frame_count as int,
            out@.len() == k,
            forall|m: int|
                0 <= m < k ==> #[trigger] out@[m] == ((m % frame_count as int) as usize, steps@[m]),
        decreases steps@.len() - k,
    {
        out.push((f, steps[k]));
        proof {
            assert((k + 1) as int % frame_count as int == if f + 1 == frame_count {
                0
            } else {
                f + 1
            }) by (nonlinear_arith)
                requires
                    f as int == k as int % frame_count as int,
                    frame_count > 0,
            ;
        }
        f = if f + 1 == frame_count {
            0
        } else {
            f + 1
        };
        k = k + 1;
    }
    out
}

/// The frames made ready from bytes that decode to frames of sizes `d`:
/// sized to the caps, with the decoded timing, and with the decoded pixels
/// where no resize was needed.
pub open spec fn prepared(
    f: Frames,
    d: Seq<(u32, u32)>,
    b: Seq<u8>,
    width: Option<u32>,
    height: Option<u32>,
) -> bool {
    &&& frame_sizes(f) == contained_sizes(d, width, height)
    &&& decoded_timings(b) == Some(frame_timings(f))
    &&& !resizes(d, width, height) ==> decoded_pixels(b) == Some(frame_pixels(f))
}

/// A configured image job: the transform to run, the caps on the input,
/// and the transform's extra arguments. Built step by step, then run once.
pub struct ImageExecutor<F, A> {
    /// The transform; `run` needs one.
    pub function: Option<F>,
    /// The width cap, if any.
    pub max_width: Option<u32>,
    /// The height cap, if any.
    pub max_height: Option<u32>,
    /// The frame-count cap; none means the default.
    pub max_frames: Option<usize>,
    /// Extra arguments for the transform.
    pub arguments: Vec<A>,
}

impl<F, A> ImageExecutor<F, A> where F: Fn(ImageArguments<A>) -> Result<Frames, String> {
    /// The frame-count cap in force.
    pub open spec fn frame_cap(&self) -> usize {
        match self.max_frames {
            Some(n) => n,
            None => DEFAULT_MAX_FRAMES,
        }
    }

    /// A job with the default caps (height 500, 200 frames, width free), no
    /// transform yet and no extra arguments.
    pub fn new() -> (r: Self)
        ensures
            r.function is None,
            r.max_width is None,
            r.max_height == Some(DEFAULT_MAX_DIM),
            r.max_frames == Some(DEFAULT_MAX_FRAMES),
            r.arguments@.len() == 0,
    {
        ImageExecutor {
            function: None,
            max_width: None,
            max_height: Some(DEFAULT_MAX_DIM),
            max_frames: Some(DEFAULT_MAX_FRAMES),
            arguments: Vec::new(),
        }
    }

    /// Sets the transform.
    pub fn function(self, function: F) -> (r: Self)
        ensures
            r.function == Some(function),
            r.max_width == self.max_width,
            r.max_height == self.max_height,
            r.max_frames == self.max_frames,
            r.arguments == self.arguments,
    {
        ImageExecutor { function: Some(function), ..self }
    }

    /// Sets the width cap.
    pub fn max_width(self, max_width: u32) -> (r: Self)
        ensures
            r.max_width == Some(max_width),
            r.function == self.function,
            r.max_height == self.max_height,
            r.max_frames == self.max_frames,
            r.arguments == self.arguments,
    {
        ImageExecutor { max_width: Some(max_width), ..self }
    }

    /// Sets the height cap.
    pub fn max_height(self, max_height: u32) -> (r: Self)
        ensures
            r.max_height == Some(max_height),
            r.function == self.function,
            r.max_width == self.max_width,
            r.max_frames == self.max_frames,
            r.arguments == self.arguments,
    {
        ImageExecutor { max_height: Some(max_height), ..self }
    }

    /// Sets the frame-count cap.
    pub fn max_frames(self, max_frames: usize) -> (r: Self)
        ensures
            r.max_frames == Some(max_frames),
            r.function == self.function,
            r.max_width == self.max_width,
            r.max_height == self.max_height,
            r.arguments == self.arguments,
    {
        ImageExecutor { max_frames: Some(max_frames), ..self }
    }

    /// Sets the transform's extra arguments.
    pub fn arguments(self, arguments: Vec<A>) -> (r: Self)
        ensures
            r.arguments == arguments,
            r.function == self.function,
            r.max_width == self.max_width,
            r.max_height == self.max_height,
            r.max_frames == self.max_frames,
    {
        ImageExecutor { arguments, ..self }
    }

    /// Decodes the source and makes it ready for the transform: refuses a
    /// format without decoder or a GIF with an empty frame, a decoding failure, and more frames than the
    /// cap (before any resizing), then shrinks the frames to the caps.
    pub fn prepare(&self, bytes: &Vec<u8>) -> (r: Result<Frames, error::Error>)
        requires
            positive_cap(self.max_width),
            positive_cap(self.max_height),
        ensures
            refused_input(bytes@) ==> r == Err::<Frames, error::Error>(
                error::Error::UnsupportedFormat,
            ),
            !refused_input(bytes@) ==> match decoded_sizes(bytes@) {
                None => r matches Err(error::Error::RilError(t)) && t@ == decode_error_text(bytes@),
                Some(d) => if d.len() > self.frame_cap() {
                    r matches Err(error::Error::TooManyFrames(n, m)) && n == d.len() && m
                        == self.frame_cap()
                } else {
                    r matches Ok(f) && prepared(f, d, bytes@, self.max_width, self.max_height)
                },
            },
    {
        if refused_format(bytes) || has_empty_gif_frame(bytes) || has_zero_png_delay(bytes) {
            return Err(error::Error::UnsupportedFormat);
        }
        let frames = match decode_frames(bytes) {
            Ok(f) => f,
            Err(text) => {
                return Err(error::Error::RilError(text));
            },
        };
        let cap = match self.max_frames {
            Some(n) => n,
            None => DEFAULT_MAX_FRAMES,
        };
        match check_frame_count(&frames, cap) {
            Ok(()) => {},
            Err(e) => {
                return Err(e);
            },
        }
        Ok(contain_size(ImageArguments { frames, arguments: Vec::new() }, self.max_width, self.max_height))
    }

    /// Runs the job on the source bytes: prepares the frames (see
    /// `prepare`), hands them with the extra arguments to the transform, and
    /// encodes what it returns (see `output_of`). A failure before the
    /// transform is returned without calling it; a failure of the transform,
    /// the codec's message, is returned as a `RilError`. Gives the encoded bytes and whether they are
    /// animated.
    pub fn run(self, bytes: Vec<u8>) -> (r: Result<(Vec<u8>, bool), error::Error>)
        requires
            self.function is Some,
            forall|a: ImageArguments<A>| #[trigger] self.function->0.requires((a,)),
            positive_cap(self.max_width),
            positive_cap(self.max_height),
        ensures
            refused_input(bytes@) ==> r == Err::<(Vec<u8>, bool), error::Error>(
                error::Error::UnsupportedFormat,
            ),
            !refused_input(bytes@) ==> match decoded_sizes(bytes@) {
                None => r matches Err(error::Error::RilError(t)) && t@ == decode_error_text(bytes@),
                Some(d) => if d.len() > self.frame_cap() {
                    r matches Err(error::Error::TooManyFrames(n, m)) && n == d.len() && m
                        == self.frame_cap()
                } else {
                    exists|a: ImageArguments<A>, res: Result<Frames, String>|
                        #![trigger self.function->0.ensures((a,), res)]
                        self.function->0.ensures((a,), res) && prepared(
                            a.frames,
                            d,
                            bytes@,
                            self.max_width,
                            self.max_height,
                        ) && a.arguments == self.arguments && match res {
                            Ok(out) => output_of(out, r),
                            Err(e) => r == Err::<(Vec<u8>, bool), error::Error>(
                                error::Error::RilError(e),
                            ),
                        }
                },
            },
    {
        let frames = match self.prepare(&bytes) {
            Ok(f) => f,
            Err(e) => {
                return Err(e);
            },
        };
        let ghost frames_ready = frames;
        let ghost given = self.arguments;
        let ImageExecutor { function, arguments, .. } = self;
        let transform = function.unwrap();
        let data = ImageArguments { frames, arguments };
        let ghost handed = data;
        let result = transform(data);
        let ghost returned = result;
        let r = match result {
            Ok(out) => encode_output(out),
            Err(e) => Err(error::Error::RilError(e)),
        };
        assert(transform.ensures((handed,), returned));
        assert(handed.frames == frames_ready && handed.arguments == given);
        r
    }
}

} // verus!
