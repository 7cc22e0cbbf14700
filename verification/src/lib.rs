//! Track browsing and playback logic for a terminal player of CNN English
//! Express audio files: number-prefix handling of track names, grouping of
//! tracks that share a title, list navigation and playback bookkeeping.

pub mod names;
pub mod files;
pub mod text;
pub mod player;
pub mod app;
pub mod scan;
pub mod keys;
pub mod nav;
