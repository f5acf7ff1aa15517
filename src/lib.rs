//! Hides a file inside the low bits of an image's pixels and recovers it,
//! optionally behind a passphrase.

pub mod cxifrado;
pub mod kodado;
pub mod komuna;
pub mod sekreto;
pub mod servajxoj;

