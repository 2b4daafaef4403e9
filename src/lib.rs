//! Signs and verifies byte strings with a keyed BLAKE3 hash or with Ed25519,
//! carries signatures as URL-safe base64 text, and makes fresh key material.
//! Around that engine: base64 encoding in both common variants, random
//! passwords over chosen character classes, and checks on command-line paths.

pub mod args;
pub mod codec;
pub mod csv;
pub mod engine;
pub mod genpass;
pub mod text;
