//! Transcription of audio by a remote speech service: the key of the service
//! as it is kept at rest, what the client sends and what it does with the
//! answer, and the readable text that is made of a stored answer.
//!
//! Nothing here reads a file or opens a connection. The functions take and
//! give plain values, and each states what it returns.

pub mod client;
pub mod credential;
pub mod encoding;
pub mod formatter;
pub mod seconds;

pub use client::{KEY_FILEPATH, API_URL, URL_API_KEY};
pub use credential::{decrypt_api_key, encrypt_api_key, get_api_key};
pub use formatter::{format_transcription, JSONChunk, JSONResponse};
pub use seconds::Seconds;
