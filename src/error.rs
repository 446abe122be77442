//! The error kinds raised while resolving a source image and running the
//! frame pipeline, and the text shown to users for each.

use vstd::prelude::*;
use vstd::string::*;
use crate::humanize::{humanize_bytes, humanized, decimal, push_decimal};

verus! {

/// An error raised while resolving or processing an image.
///
/// Errors of the collaborators (the HTTP client, the chat platform and the
/// image codec) are carried as their own message text.
#[derive(Debug, Clone, PartialEq, Eq)]
pub enum Error {
    /// The decoded image has more frames than allowed: (frames, limit).
    TooManyFrames(usize, usize),
    /// The image is at least as large as the size ceiling: (size, limit).
    ImageTooLarge(u64, u64),
    /// No emoji could be read from the given token.
    EmojiParseError(String),
    /// The URL could not be fetched, or answered with a failure status.
    FetchUrlError,
    /// The source is not an image.
    InvalidContentType,
    /// The bytes are in an image format that no decoder here reads.
    UnsupportedFormat,
    /// The transform left no frame to encode.
    EmptyImage,
    /// An output frame is wider or taller than a GIF can hold (65535).
    FrameTooLarge,
    /// A failure of the HTTP client, with its message.
    RequestError(String),
    /// A failure of the chat platform, with its message.
    SerenityError(String),
    /// A failure of the image codec, with its message.
    RilError(String),
}

pub open spec fn frames_message(count: nat, limit: nat) -> Seq<char> {
    "The provided image has a frame count of `"@ + decimal(count) + "` which exceeds the limit of `"@
        + decimal(limit) + "`"@
}

pub open spec fn size_message(size: nat, limit: nat) -> Seq<char> {
    "Provided Image has a size of `"@ + humanized(size) + "` which exceeds the limit of `"@
        + humanized(limit) + "`"@
}

pub open spec fn emoji_message(token: Seq<char>) -> Seq<char> {
    "An emoji could not be parsed from the provided argument: `"@ + token + "`"@
}

/// The text shown to a user for each error.
pub open spec fn error_message(e: Error) -> Seq<char> {
    match e {
        Error::TooManyFrames(count, limit) => frames_message(count as nat, limit as nat),
        Error::ImageTooLarge(size, limit) => size_message(size as nat, limit as nat),
        Error::EmojiParseError(token) => emoji_message(token@),
        Error::FetchUrlError => "Something went wrong during the HTTP request to the provided URL"@,
        Error::InvalidContentType => "Only content types of `image/*` are supported"@,
        Error::UnsupportedFormat => "The provided image is in a format that cannot be decoded"@,
        Error::EmptyImage => "The processed image has no frames"@,
        Error::FrameTooLarge => "The processed image is too large to be encoded as a GIF"@,
        Error::RequestError(text) => text@,
        Error::SerenityError(text) => text@,
        Error::RilError(text) => text@,
    }
}

impl Error {
    /// The text shown to a user for this error.
    pub fn message(&self) -> (r: String)
        ensures
            r@ == error_message(*self),
    {
        match self {
            Error::TooManyFrames(count, limit) => {
                let mut s = String::from_str("The provided image has a frame count of `");
                push_decimal(&mut s, *count as u128);
                s.append("` which exceeds the limit of `");
                push_decimal(&mut s, *limit as u128);
                s.append("`");
                s
            },
            Error::ImageTooLarge(size, limit) => {
                let mut s = String::from_str("Provided Image has a size of `");
                let a = humanize_bytes(*size);
                s.append(a.as_str());
                s.append("` which exceeds the limit of `");
                let b = humanize_bytes(*limit);
                s.append(b.as_str());
                s.append("`");
                s
            },
            Error::EmojiParseError(token) => {
                let mut s = String::from_str(
                    "An emoji could not be parsed from the provided argument: `",
                );
                s.append(token.as_str());
                s.append("`");
                s
            },
            Error::FetchUrlError => String::from_str(
                "Something went wrong during the HTTP request to the provided URL",
            ),
            Error::InvalidContentType => String::from_str(
                "Only content types of `image/*` are supported",
            ),
            Error::UnsupportedFormat => String::from_str(
                "The provided image is in a format that cannot be decoded",
            ),
            Error::EmptyImage => String::from_str("The processed image has no frames"),
            Error::FrameTooLarge => String::from_str(
                "The processed image is too large to be encoded as a GIF",
            ),
            Error::RequestError(text) => text.clone(),
            Error::SerenityError(text) => text.clone(),
            Error::RilError(text) => text.clone(),
        }
    }
}

} // verus!
