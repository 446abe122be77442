use std::sync::atomic::{AtomicUsize, Ordering};

use imagebot::error::Error;
use imagebot::functions::{huerotate_func, invert_func};
use imagebot::imaging::{
    check_frame_count, contain_size, encode_output, has_empty_gif_frame, has_zero_png_delay,
    process_gif, refused_format, Frames, ImageArguments, ImageExecutor,
};
use ril::{Frame, Image, ImageFormat, ImageSequence, Rgba};

fn sequence(count: usize, w: u32, h: u32) -> ImageSequence<Rgba> {
    let mut seq = ImageSequence::<Rgba>::new();
    for i in 0..count {
        let shade = (i as u8).wrapping_mul(40);
        seq.push_frame(Frame::from_image(Image::new(w, h, Rgba::new(shade, 10, 200, 255))));
    }
    seq
}

fn gif_bytes(count: usize, w: u32, h: u32) -> Vec<u8> {
    let mut out = Vec::new();
    sequence(count, w, h).encode(ImageFormat::Gif, &mut out).unwrap();
    out
}

fn png_bytes(w: u32, h: u32) -> Vec<u8> {
    let mut out = Vec::new();
    Image::new(w, h, Rgba::new(1, 2, 3, 255)).encode(ImageFormat::Png, &mut out).unwrap();
    out
}

fn decode(bytes: &[u8]) -> ImageSequence<Rgba> {
    ImageSequence::<Rgba>::from_bytes_inferred(bytes).unwrap().into_sequence().unwrap()
}

fn frames(seq: ImageSequence<Rgba>) -> Frames {
    Frames { sequence: seq }
}

fn args(seq: ImageSequence<Rgba>) -> ImageArguments<()> {
    ImageArguments { frames: frames(seq), arguments: Vec::new() }
}

fn identity(data: ImageArguments<()>) -> Result<Frames, String> {
    Ok(data.frames)
}

fn first_frame_only(data: ImageArguments<()>) -> Result<Frames, String> {
    let first = data.frames.sequence.into_frames().into_iter().next().unwrap();
    Ok(Frames { sequence: ImageSequence::new().with_frame(first) })
}

static TRANSFORM_CALLS: AtomicUsize = AtomicUsize::new(0);

fn counting(data: ImageArguments<()>) -> Result<Frames, String> {
    TRANSFORM_CALLS.fetch_add(1, Ordering::SeqCst);
    Ok(data.frames)
}

fn failing(_data: ImageArguments<()>) -> Result<Frames, String> {
    Err("transform failed".to_string())
}

#[test]
fn too_many_frames_stops_before_the_transform() {
    let before = TRANSFORM_CALLS.load(Ordering::SeqCst);
    let job = ImageExecutor::new().max_frames(3).function(counting);
    let r = job.run(gif_bytes(5, 8, 8));
    assert_eq!(r, Err(Error::TooManyFrames(5, 3)));
    assert_eq!(TRANSFORM_CALLS.load(Ordering::SeqCst), before);
}

#[test]
fn frame_cap_allows_the_cap_itself() {
    let job = ImageExecutor::new().max_frames(3).function(identity);
    let (bytes, animated) = job.run(gif_bytes(3, 8, 8)).unwrap();
    assert!(animated);
    assert_eq!(decode(&bytes).len(), 3);
}

#[test]
fn single_frame_output_is_a_still_png() {
    let job = ImageExecutor::new().function(identity);
    let (bytes, animated) = job.run(png_bytes(12, 7)).unwrap();
    assert!(!animated);
    assert!(bytes.starts_with(b"\x89PNG"));
}

#[test]
fn several_frames_give_an_animated_gif() {
    let job = ImageExecutor::new().function(identity);
    let (bytes, animated) = job.run(gif_bytes(2, 6, 6)).unwrap();
    assert!(animated);
    assert!(bytes.starts_with(b"GIF"));
    let job = ImageExecutor::new().function(first_frame_only);
    let (_, animated) = job.run(gif_bytes(4, 6, 6)).unwrap();
    assert!(!animated);
}

#[test]
fn encode_output_marks_animation() {
    let (_, animated) = encode_output(frames(sequence(1, 4, 4))).unwrap();
    assert!(!animated);
    let (_, animated) = encode_output(frames(sequence(3, 4, 4))).unwrap();
    assert!(animated);
    assert_eq!(encode_output(frames(ImageSequence::new())), Err(Error::EmptyImage));
}

#[test]
fn image_within_caps_keeps_its_dimensions() {
    let job = ImageExecutor::new().function(identity);
    let (bytes, _) = job.run(png_bytes(120, 80)).unwrap();
    let out = decode(&bytes);
    assert_eq!(out.first_frame().unwrap().dimensions(), (120, 80));
}

#[test]
fn tall_image_is_shrunk_to_the_default_height() {
    let job = ImageExecutor::new().function(identity);
    let (bytes, _) = job.run(png_bytes(300, 1000)).unwrap();
    let out = decode(&bytes);
    assert_eq!(out.first_frame().unwrap().dimensions(), (150, 500));
}

#[test]
fn contain_size_rounds_up_and_is_idempotent() {
    let once = contain_size(args(sequence(2, 301, 1000)), None, Some(500));
    let dims: Vec<(u32, u32)> = once.sequence.iter().map(|f| f.dimensions()).collect();
    assert_eq!(dims, vec![(151, 500), (151, 500)]);
    let twice = contain_size(ImageArguments { frames: once, arguments: Vec::new() }, None, Some(500));
    let dims2: Vec<(u32, u32)> = twice.sequence.iter().map(|f| f.dimensions()).collect();
    assert_eq!(dims2, dims);
}

#[test]
fn contain_size_with_width_cap_and_without_caps() {
    let out = contain_size(args(sequence(1, 400, 100)), Some(200), None);
    assert_eq!(out.sequence.first_frame().unwrap().dimensions(), (200, 50));
    let out = contain_size(args(sequence(1, 40, 10)), Some(200), None);
    assert_eq!(out.sequence.first_frame().unwrap().dimensions(), (40, 10));
    let out = contain_size(args(sequence(1, 4000, 1000)), None, None);
    assert_eq!(out.sequence.first_frame().unwrap().dimensions(), (4000, 1000));
}

#[test]
fn contain_size_with_both_caps_sets_both() {
    let out = contain_size(args(sequence(1, 100, 800)), Some(300), Some(500));
    assert_eq!(out.sequence.first_frame().unwrap().dimensions(), (300, 500));
}

#[test]
fn frame_count_check() {
    assert_eq!(check_frame_count(&frames(sequence(5, 2, 2)), 3), Err(Error::TooManyFrames(5, 3)));
    assert_eq!(check_frame_count(&frames(sequence(3, 2, 2)), 3), Ok(()));
}

#[test]
fn transform_failure_is_returned_unchanged() {
    let job = ImageExecutor::new().function(failing);
    assert_eq!(job.run(png_bytes(5, 5)), Err(Error::RilError("transform failed".to_string())));
}

#[test]
fn unknown_and_refused_formats() {
    let job = ImageExecutor::new().function(identity);
    assert_eq!(job.run(b"BMxxxxxxxxxxxx".to_vec()), Err(Error::UnsupportedFormat));
    let job = ImageExecutor::new().function(identity);
    assert_eq!(job.run(b"II*\0".to_vec()), Err(Error::UnsupportedFormat));
    let job = ImageExecutor::new().function(identity);
    assert!(matches!(job.run(b"plain text".to_vec()), Err(Error::RilError(_))));
    assert!(refused_format(&b"MM\0*\0\0\0\0\0\0".to_vec()));
    assert!(!refused_format(&png_bytes(1, 1)));
}

#[test]
fn cyclic_pairs_of_frames_and_steps() {
    let steps = vec![0, 10, 20, 30, 40];
    assert_eq!(process_gif(2, &steps), vec![(0, 0), (1, 10), (0, 20), (1, 30), (0, 40)]);
    assert_eq!(process_gif(1, &steps).len(), 5);
    assert!(process_gif(0, &steps).is_empty());
}

#[test]
fn hue_rotation_turns_a_still_into_an_animation() {
    let out = huerotate_func(args(sequence(1, 6, 4))).unwrap();
    assert_eq!(out.sequence.len(), 36);
    assert!(out.sequence.iter().all(|f| f.dimensions() == (6, 4)));
}

#[test]
fn invert_keeps_sizes_and_flips_colours() {
    let out = invert_func(args(sequence(2, 3, 3))).unwrap();
    assert_eq!(out.sequence.len(), 2);
    let px = out.sequence.first_frame().unwrap().pixel(0, 0);
    assert_eq!((px.r, px.g, px.b, px.a), (255, 245, 55, 255));
}

#[test]
fn builder_defaults_and_setters() {
    let job: ImageExecutor<fn(ImageArguments<String>) -> Result<Frames, String>, String> =
        ImageExecutor::new();
    assert_eq!(job.max_height, Some(500));
    assert_eq!(job.max_frames, Some(200));
    assert_eq!(job.max_width, None);
    let job = job.max_width(64).max_height(32).max_frames(9).arguments(vec!["hi".to_string()]);
    assert_eq!((job.max_width, job.max_height, job.max_frames), (Some(64), Some(32), Some(9)));
    assert_eq!(job.arguments, vec!["hi".to_string()]);
    assert!(job.function.is_none());
}

#[test]
fn frames_wider_than_a_gif_allows_are_refused() {
    assert_eq!(encode_output(frames(sequence(2, 70_000, 2))), Err(Error::FrameTooLarge));
    let (_, animated) = encode_output(frames(sequence(1, 70_000, 2))).unwrap();
    assert!(!animated);
}

#[test]
fn wide_still_through_hue_rotation_is_refused_not_panicking() {
    let job = ImageExecutor::new().function(huerotate_func);
    assert_eq!(job.run(png_bytes(70_000, 2)), Err(Error::FrameTooLarge));
}

#[test]
fn decode_failure_is_a_codec_error() {
    let job = ImageExecutor::new().function(counting);
    let before = TRANSFORM_CALLS.load(Ordering::SeqCst);
    assert!(matches!(job.run(b"GIF89a broken".to_vec()), Err(Error::RilError(_))));
    assert_eq!(TRANSFORM_CALLS.load(Ordering::SeqCst), before);
}

fn gif_with_frame(width: u16, height: u16) -> Vec<u8> {
    let mut b = b"GIF89a".to_vec();
    b.extend_from_slice(&[1, 0, 1, 0, 0, 0, 0]);
    b.push(0x21);
    b.extend_from_slice(&[0xF9, 4, 0, 0, 0, 0, 0]);
    b.push(0x2C);
    b.extend_from_slice(&[0, 0, 0, 0]);
    b.extend_from_slice(&width.to_le_bytes());
    b.extend_from_slice(&height.to_le_bytes());
    b.push(0);
    b.extend_from_slice(&[2, 2, 0x4C, 0x01, 0]);
    b.push(0x3B);
    b
}

#[test]
fn gif_with_a_zero_sized_frame_is_refused_before_decoding() {
    assert!(has_empty_gif_frame(&gif_with_frame(0, 1)));
    assert!(has_empty_gif_frame(&gif_with_frame(1, 0)));
    assert!(!has_empty_gif_frame(&gif_with_frame(1, 1)));
    assert!(!has_empty_gif_frame(&gif_bytes(3, 5, 5)));
    assert!(!has_empty_gif_frame(&png_bytes(5, 5)));
    let job = ImageExecutor::new().function(identity);
    assert_eq!(job.run(gif_with_frame(0, 1)), Err(Error::UnsupportedFormat));
}

fn png_chunk(kind: &[u8; 4], data: &[u8]) -> Vec<u8> {
    let mut c = (data.len() as u32).to_be_bytes().to_vec();
    c.extend_from_slice(kind);
    c.extend_from_slice(data);
    c.extend_from_slice(&[0, 0, 0, 0]);
    c
}

fn png_with_frame_delay(den: u16) -> Vec<u8> {
    let mut b = b"\x89PNG\x0D\x0A\x1A\x0A".to_vec();
    b.extend(png_chunk(b"IHDR", &[0, 0, 0, 1, 0, 0, 0, 1, 8, 6, 0, 0, 0]));
    b.extend(png_chunk(b"acTL", &[0, 0, 0, 1, 0, 0, 0, 0]));
    let mut fctl = vec![0u8; 26];
    fctl[7] = 1;
    fctl[11] = 1;
    fctl[21] = 1;
    fctl[22..24].copy_from_slice(&den.to_be_bytes());
    b.extend(png_chunk(b"fcTL", &fctl));
    b.extend(png_chunk(b"IEND", &[]));
    b
}

#[test]
fn png_with_a_zero_delay_denominator_is_refused_before_decoding() {
    assert!(has_zero_png_delay(&png_with_frame_delay(0)));
    assert!(!has_zero_png_delay(&png_with_frame_delay(100)));
    assert!(!has_zero_png_delay(&png_bytes(4, 4)));
    assert!(!has_zero_png_delay(&gif_bytes(2, 4, 4)));
    let job = ImageExecutor::new().function(identity);
    assert_eq!(job.run(png_with_frame_delay(0)), Err(Error::UnsupportedFormat));
}

#[test]
fn frames_within_the_caps_come_back_unchanged() {
    let out = contain_size(args(sequence(2, 30, 20)), None, Some(500));
    assert_eq!(out.sequence.len(), 2);
    let px = out.sequence.iter().nth(1).unwrap().pixel(0, 0);
    assert_eq!((px.r, px.g, px.b, px.a), (40, 10, 200, 255));
}
