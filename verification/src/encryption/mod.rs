//! The Standard security handler: key derivation and decryption of
//! password-protected documents.
pub mod rc4;
pub mod key;
pub mod standard;
