//! Transforms run by the image commands.

use vstd::prelude::*;
use crate::imaging::{
    Frames, ImageArguments, frame_count, frame_pixels, frame_sizes, frame_timings, process_gif,
};

verus! {

/// A pixel with its colour channels inverted and its alpha kept.
pub open spec fn inverted(px: (u8, u8, u8, u8)) -> (u8, u8, u8, u8) {
    ((255 - px.0) as u8, (255 - px.1) as u8, (255 - px.2) as u8, px.3)
}

/// A frame's pixels with their colours inverted.
pub open spec fn inverted_frame(p: Seq<(u8, u8, u8, u8)>) -> Seq<(u8, u8, u8, u8)> {
    p.map_values(|px: (u8, u8, u8, u8)| inverted(px))
}

/// Two frames' pixels with the same count and the same alpha at each place.
pub open spec fn same_alpha(p: Seq<(u8, u8, u8, u8)>, q: Seq<(u8, u8, u8, u8)>) -> bool {
    p.len() == q.len() && forall|k: int| 0 <= k < p.len() ==> #[trigger] p[k].3 == q[k].3
}

/// Relies on ril's `Image::map_rgb_pixels` with `!` on `Rgb`, which inverts
/// each colour bit: the colour channels of frame `i` are inverted; alpha,
/// delay, disposal and size stay.
#[verifier::external_body]
fn invert_frame(s: &mut Frames, i: usize)
    requires
        i < frame_sizes(*old(s)).len(),
    ensures
        frame_sizes(*final(s)) == frame_sizes(*old(s)),
        frame_timings(*final(s)) == frame_timings(*old(s)),
        frame_pixels(*final(s)) == frame_pixels(*old(s)).update(
            i as int,
            inverted_frame(frame_pixels(*old(s))[i as int]),
        ),
{
    if let Some(frame) = s.sequence.iter_mut().nth(i) {
        let image = frame.image().clone().map_rgb_pixels(|px| !px);
        *frame.image_mut() = image;
    }
}

/// Relies on ril's `ImageSequence::new`: a sequence without frames.
#[verifier::external_body]
fn empty_frames() -> (r: Frames)
    ensures
        frame_sizes(r).len() == 0,
        frame_pixels(r).len() == 0,
        frame_timings(r).len() == 0,
{
    Frames { sequence: ril::ImageSequence::new() }
}

/// Relies on ril's `Image::hue_rotate` and `ImageSequence::push_frame`: a
/// copy of frame `i` of `src`, its hue turned by `degrees`, is added at the
/// end of `dst`; its size, delay, disposal and alpha are those of the source
/// frame. The colours come from floating-point sines and cosines, whose last
/// bits the platform decides, so nothing is said of them.
#[verifier::external_body]
fn push_hue_rotated(dst: &mut Frames, src: &Frames, i: usize, degrees: i32)
    requires
        i < frame_sizes(*src).len(),
    ensures
        frame_sizes(*final(dst)) == frame_sizes(*old(dst)).push(frame_sizes(*src)[i as int]),
        frame_timings(*final(dst)) == frame_timings(*old(dst)).push(frame_timings(*src)[i as int]),
        frame_pixels(*final(dst)).len() == frame_pixels(*old(dst)).len() + 1,
        frame_pixels(*final(dst)).subrange(0, frame_pixels(*old(dst)).len() as int)
            == frame_pixels(*old(dst)),
        same_alpha(
            frame_pixels(*final(dst))[frame_pixels(*old(dst)).len() as int],
            frame_pixels(*src)[i as int],
        ),
{
    if let Some(frame) = src.sequence.iter().nth(i) {
        let mut frame = frame.clone();
        frame.hue_rotate(degrees);
        dst.sequence.push_frame(frame);
    }
}

/// Inverts the colours of every frame, keeping alpha, timing and size.
pub fn invert_func(data: ImageArguments<()>) -> (r: Result<Frames, String>)
    ensures
        r matches Ok(f) && frame_sizes(f) == frame_sizes(data.frames) && frame_timings(f)
            == frame_timings(data.frames) && frame_pixels(f) == frame_pixels(data.frames).map_values(
            |p: Seq<(u8, u8, u8, u8)>| inverted_frame(p),
        ),
{
    let mut frames = data.frames;
    let ghost sizes = frame_sizes(frames);
    let ghost timings = frame_timings(frames);
    let ghost pixels = frame_pixels(frames);
    let n = frame_count(&frames);
    let mut i: usize = 0;
    while i < n
        invariant
            n == sizes.len(),
            n == pixels.len(),
            i <= n,
            frame_sizes(frames) == sizes,
            frame_timings(frames) == timings,
            frame_pixels(frames) == Seq::new(
                n as nat,
                |j: int|
                    if j < i {
                        inverted_frame(pixels[j])
                    } else {
                        pixels[j]
                    },
            ),
        decreases n - i,
    {
        invert_frame(&mut frames, i);
        assert(frame_pixels(frames) =~= Seq::new(
            n as nat,
            |j: int|
                if j < i + 1 {
                    inverted_frame(pixels[j])
                } else {
                    pixels[j]
                },
        ));
        i = i + 1;
    }
    assert(frame_pixels(frames) =~= pixels.map_values(
        |p: Seq<(u8, u8, u8, u8)>| inverted_frame(p),
    ));
    Ok(frames)
}

/// The number of hue steps of `huerotate_func`: a full turn in steps of 10
/// degrees.
pub const HUE_STEPS: usize = 36;

/// Turns the hue through a full circle in steps of 10 degrees, one output
/// frame per step: output frame `k` is source frame `k % n` (of `n`) turned
/// by `10 * k` degrees, with that frame's size, timing and alpha. The source frames
/// are taken in a cycle, so a still image becomes a 36-frame animation.
pub fn huerotate_func(data: ImageArguments<()>) -> (r: Result<Frames, String>)
    ensures
        r matches Ok(f) && ({
            let n = frame_sizes(data.frames).len() as int;
            if n == 0 {
                frame_sizes(f).len() == 0 && frame_pixels(f).len() == 0 && frame_timings(f).len()
                    == 0
            } else {
                &&& frame_sizes(f) == Seq::new(
                    HUE_STEPS as nat,
                    |k: int| frame_sizes(data.frames)[k % n],
                )
                &&& frame_timings(f) == Seq::new(
                    HUE_STEPS as nat,
                    |k: int| frame_timings(data.frames)[k % n],
                )
                &&& frame_pixels(f).len() == HUE_STEPS
                &&& forall|k: int|
                    0 <= k < HUE_STEPS ==> same_alpha(
                        #[trigger] frame_pixels(f)[k],
                        frame_pixels(data.frames)[k % n],
                    )
            }
        }),
{
    let src = data.frames;
    let ghost sizes = frame_sizes(src);
    let ghost timings = frame_timings(src);
    let ghost pixels = frame_pixels(src);
    let n = frame_count(&src);
    let mut steps: Vec<i32> = Vec::new();
    let mut k: usize = 0;
    while k < HUE_STEPS
        invariant
            k <= HUE_STEPS,
            steps@.len() == k,
            forall|m: int| 0 <= m < k ==> #[trigger] steps@[m] == (m * 10) as i32,
        decreases HUE_STEPS - k,
    {
        steps.push((k * 10) as i32);
        k = k + 1;
    }
    let pairs = process_gif(n, &steps);
    let mut out = empty_frames();
    let mut j: usize = 0;
    while j < pairs.len()
        invariant
            n == sizes.len(),
            n == pixels.len(),
            n == timings.len(),
            sizes == frame_sizes(src),
            timings == frame_timings(src),
            pixels == frame_pixels(src),
            steps@.len() == HUE_STEPS,
            forall|m: int| 0 <= m < HUE_STEPS ==> #[trigger] steps@[m] == (m * 10) as i32,
            n > 0 ==> pairs@.len() == HUE_STEPS,
            n == 0 ==> pairs@.len() == 0,
            forall|m: int|
                0 <= m < pairs@.len() ==> #[trigger] pairs@[m] == ((m % n as int) as usize, steps@[m]),
            j <= pairs@.len(),
            frame_sizes(out) == Seq::new(j as nat, |m: int| sizes[m % n as int]),
            frame_timings(out) == Seq::new(j as nat, |m: int| timings[m % n as int]),
            frame_pixels(out).len() == j,
            forall|m: int|
                0 <= m < j ==> same_alpha(#[trigger] frame_pixels(out)[m], pixels[m % n as int]),
        decreases pairs@.len() - j,
    {
        let (i, degrees) = pairs[j];
        assert(pairs@[j as int] == ((j as int % n as int) as usize, steps@[j as int]));
        assert(n > 0);
        assert(i < n);
        assert(degrees == (j * 10) as i32);
        let ghost old_pixels = frame_pixels(out);
        push_hue_rotated(&mut out, &src, i, degrees);
        assert(frame_sizes(out) =~= Seq::new((j + 1) as nat, |m: int| sizes[m % n as int]));
        assert(frame_timings(out) =~= Seq::new((j + 1) as nat, |m: int| timings[m % n as int]));
        assert forall|m: int| 0 <= m < j + 1 implies same_alpha(
            #[trigger] frame_pixels(out)[m],
            pixels[m % n as int],
        ) by {
            if m < j {
                assert(frame_pixels(out)[m] == old_pixels[m]);
            }
        }
        j = j + 1;
    }
    Ok(out)
}

} // verus!
