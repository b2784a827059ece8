//! Verified core of an FHE job backend: input validation, job lifecycle,
//! decoding of decrypted results and the decisions of the KMS client.
pub mod auth;
pub mod config;
pub mod error;
pub mod external;
pub mod hash_words;
pub mod hex;
pub mod ids;
pub mod jobs;
pub mod kms;
pub mod requests;
pub mod session;
