use vstd::prelude::*;

verus! {

/// `std::path::PathBuf`, carried through as the data directory.
#[verifier::external_type_specification]
#[verifier::external_body]
pub struct ExPathBuf(std::path::PathBuf);

/// The settings the backend starts with.
#[derive(Debug)]
pub struct AppConfig {
    pub bind_addr: String,
    pub data_dir: std::path::PathBuf,
    pub external_service_url: String,
    /// Path to CoreClientConfig TOML consumed by the KMS user decryption
    pub kms_config_path: String,
    /// Static KMS key ID for usecase1 UserDecrypt
    pub key_id: String,
}

} // verus!
