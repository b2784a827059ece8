use vstd::prelude::*;

verus! {

/// Credentials of a register or login request.
#[derive(Clone, Debug)]
pub struct AuthBody {
    pub username: String,
    pub password: String,
}

/// The answer to a register or login request: the new session.
#[derive(Clone, Copy, Debug)]
pub struct SessionResponse {
    pub session_id: u128,
}

/// A usecase-1 job request.
#[derive(Clone, Debug)]
pub struct Usecase1Body {
    /// IPv4 addresses as strings, max 256
    pub ips: Vec<String>,
}

/// A usecase-2 job request.
#[derive(Clone, Debug)]
pub struct Usecase2Body {
    /// 32-byte file hash as hex (with or without 0x prefix)
    pub hash: String,
}

/// The answer to a job request: the backend's identifier of the job.
#[derive(Clone, Copy, Debug)]
pub struct SubmitResponse {
    pub job_id: u128,
}

} // verus!
