//! The core of a desktop pet that shows what a coding assistant is doing.
//!
//! The assistant runs a hook command at certain points of its work and
//! writes a JSON event to that command's standard input. The command is this
//! program in sender mode: it passes the event to the long-running instance of
//! the program, the relay, over a loopback port, and the relay publishes it to
//! the GUI.
//!
//! - [`hooks`] registers the hook command in the assistant's settings
//!   document, idempotently; [`registration_proofs`] states what registration
//!   guarantees.
//! - [`relay`] decides what the relay does with a connection and what a
//!   sender sends.
//! - [`themes`] reads theme configurations and turns a theme's image into a
//!   data URL.
//! - [`json`] holds JSON documents and reads and writes them with
//!   `serde_json`; [`text`] holds a few helpers on text.
//!
//! Files, sockets and the GUI are left to the program around this library.

pub mod hooks;
pub mod json;
pub mod registration_proofs;
pub mod relay;
pub mod text;
pub mod themes;
