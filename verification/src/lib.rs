//! Verified core of the Porrima music player: the play-queue state machine
//! and its bridge to the playback engine, CUE sheet parsing, the media and
//! settings models, and the decision logic of the library catalogue,
//! scanning, lyrics, covers and online lookups.

// Text and paths.
pub mod paths;
pub mod text;

// Models.
pub mod error;
pub mod models;
pub mod settings;
pub mod track;

// Playback.
pub mod clock;
pub mod controls;
pub mod engine;
pub mod player;
pub mod shuffle;

// Library.
pub mod browse;
pub mod catalog;
pub mod cover;
pub mod cue;
pub mod cue_lines;
pub mod library;
pub mod lyrics;
pub mod media;
pub mod metadata;
pub mod online;
pub mod payloads;
