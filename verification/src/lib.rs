//! A YouTube downloader's core: turning download requests into yt-dlp
//! arguments, checking pasted links, reading yt-dlp's output, and running the
//! download queue.
use vstd::prelude::*;

pub mod analysis;
pub mod bin;
pub mod job;
pub mod pot;
pub mod probe;
pub mod queue;
pub mod runtime;
pub mod settings;
pub mod spec;
pub mod text;
