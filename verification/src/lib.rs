//! A terminal status line in the powerline style: two lines of colored,
//! glyph-separated segments showing the working directory, version,
//! version-control state and remaining context budget, laid out to fit the
//! terminal's width.
//!
//! The segment texts, the escape-laced output, the width-aware layout ladder,
//! the theme registry and the version-control output parsers are all
//! specified over sequences of characters and verified. Reading standard
//! input, probing the file system and spawning the version-control binaries
//! are left to the surrounding program, which hands their results in as plain
//! values.

pub mod cli;
pub mod render;
pub mod text;
pub mod theme;
pub mod types;
pub mod vcs;
