use imagebot::error::Error;
use imagebot::helpers::{output_filename, process_time_text, resolve_extra_arg};
use imagebot::humanize::humanize_bytes;
use imagebot::resolver::{ImageResolver, DEFAULT_MAX_SIZE};
use imagebot::text::first_word;

#[test]
fn humanize_size_ceiling_in_megabytes() {
    assert_eq!(humanize_bytes(16_000_000), "15.26 MB");
}

#[test]
fn humanize_small_and_unit_edges() {
    assert_eq!(humanize_bytes(0), "0.00 B");
    assert_eq!(humanize_bytes(1023), "1023.00 B");
    assert_eq!(humanize_bytes(1024), "1.00 KB");
    assert_eq!(humanize_bytes(1536), "1.50 KB");
    assert_eq!(humanize_bytes(1_048_576), "1.00 MB");
}

#[test]
fn humanize_rounds_ties_to_even() {
    assert_eq!(humanize_bytes(1152), "1.12 KB");
    assert_eq!(humanize_bytes(1_048_575), "1024.00 KB");
}

#[test]
fn humanize_largest_value() {
    assert_eq!(humanize_bytes(u64::MAX), "16.00 EB");
}

#[test]
fn size_ceiling_rejects_exactly_the_ceiling() {
    let r = ImageResolver::new();
    assert_eq!(r.max_size, DEFAULT_MAX_SIZE);
    let at = r.admit_bytes(Some(16_000_000), vec![1, 2, 3]);
    assert_eq!(at, Err(Error::ImageTooLarge(16_000_000, 16_000_000)));
    let below = r.admit_bytes(Some(15_999_999), vec![1, 2, 3]);
    assert_eq!(below, Ok(vec![1, 2, 3]));
    assert_eq!(r.admit_attachment(16_000_000), Err(Error::ImageTooLarge(16_000_000, 16_000_000)));
    assert_eq!(r.admit_attachment(15_999_999), Ok(()));
}

#[test]
fn size_judged_by_the_larger_of_declared_and_body() {
    let r = ImageResolver { max_size: 4, arg_resolved: true };
    assert_eq!(r.admit_bytes(None, vec![0; 4]), Err(Error::ImageTooLarge(4, 4)));
    assert_eq!(r.admit_bytes(Some(2), vec![0; 3]), Ok(vec![0; 3]));
    assert_eq!(r.admit_bytes(Some(9), vec![0; 1]), Err(Error::ImageTooLarge(9, 4)));
}

#[test]
fn too_large_message_uses_humanized_sizes() {
    let e = Error::ImageTooLarge(16_000_000, 16_000_000);
    assert_eq!(
        e.message(),
        "Provided Image has a size of `15.26 MB` which exceeds the limit of `15.26 MB`"
    );
}

#[test]
fn error_messages() {
    assert_eq!(
        Error::TooManyFrames(5, 3).message(),
        "The provided image has a frame count of `5` which exceeds the limit of `3`"
    );
    assert_eq!(
        Error::EmojiParseError("hello".to_string()).message(),
        "An emoji could not be parsed from the provided argument: `hello`"
    );
    assert_eq!(
        Error::FetchUrlError.message(),
        "Something went wrong during the HTTP request to the provided URL"
    );
    assert_eq!(
        Error::InvalidContentType.message(),
        "Only content types of `image/*` are supported"
    );
    assert_eq!(Error::RilError("bad gif".to_string()).message(), "bad gif");
}

#[test]
fn extra_argument_choice() {
    assert_eq!(resolve_extra_arg(true, "top text", "https://x top text"), "top text");
    assert_eq!(resolve_extra_arg(false, "text", "all the text"), "all the text");
    assert_eq!(resolve_extra_arg(true, "", "x"), " ");
}

#[test]
fn output_names_and_timing() {
    assert_eq!(output_filename(true), "output.gif");
    assert_eq!(output_filename(false), "output.png");
    assert_eq!(process_time_text(42), "**Process Time:** `42 ms`");
    assert_eq!(process_time_text(0), "**Process Time:** `0 ms`");
}

#[test]
fn first_word_stops_at_white_space() {
    assert_eq!(first_word("hello world"), "hello");
    assert_eq!(first_word(" lead"), "");
    assert_eq!(first_word("one\ttwo"), "one");
    assert_eq!(first_word("solo"), "solo");
}
