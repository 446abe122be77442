//! Image source resolution and a bounded frame pipeline for a chat bot's
//! image commands.

pub mod humanize;
pub mod error;
pub mod emoji;
pub mod text;
pub mod links;
pub mod chain;
pub mod resolver;
pub mod imaging;
pub mod functions;
pub mod helpers;
