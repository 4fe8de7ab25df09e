//! Vigilo: the verified core of a webcam proctoring app.
//!
//! Configuration types and their validation rules, the capture-side helpers
//! that turn camera output into tightly packed frames, the preview stream's
//! framing and bookkeeping, and the command-line handling of the desktop
//! shell.

pub mod error;
pub mod text;
pub mod capture;
pub mod coco;
pub mod config;
pub mod preview;
pub mod shell;
