//! Arena memory for a terminal editor, and the editor pieces built on it.
//!
//! The core is the arena: `release` is the base bump arena that reserves a
//! fixed capacity and commits it chunk by chunk; `debug` is the checked
//! wrapper that owns an arena or borrows a pool slot under a generation
//! count; `scratch` is the two-slot scratch pool and its scoped handles;
//! `string` is a growable UTF-8 string stored in an arena, with lossy repair
//! of invalid input (`utf8`).
//!
//! Around it: error codes (`apperr`, `sys`), colors and the palette
//! (`oklab`, `framebuffer`), the TUI's persistent state (`tui`, `clipboard`,
//! `coords`, `input`), documents (`buffer`, `documents`, `state`), and the
//! byte-level terminal protocol pieces (`term`, `osc`, `title`, `base64`),
//! and the command line (`args`).

pub mod release;
pub mod debug;
pub mod scratch;
pub mod helpers;
pub mod utf8;
pub mod string;

pub mod apperr;
pub mod sys;
pub mod oklab;
pub mod coords;
pub mod framebuffer;
pub mod clipboard;
pub mod input;
pub mod tui;
pub mod buffer;
pub mod documents;
pub mod state;

pub mod term;
pub mod osc;
pub mod title;
pub mod base64;

pub mod args;
