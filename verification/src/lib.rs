//! Verified core of a terminal front end for yt-dlp: download options and
//! presets, the exact yt-dlp and mpv argument vectors, command previews with
//! secret redaction, queue state, output parsing, display detection parsing,
//! format choices for search results, and the text editing used by the UI.
#![allow(unused_imports)]

pub mod text;
pub mod editor;
pub mod model;
pub mod argv;
pub mod ytdlp;
pub mod player;
pub mod output;
pub mod display;
pub mod jobs;
pub mod links;
pub mod screen;
pub mod labels;
pub mod formats;
pub mod search;
pub mod builder;
pub mod storage;
pub mod panel;
