use vstd::prelude::*;
use crate::error::{AppError, AppErrorView};

verus! {

/// The steps of registering a user, in order.
#[derive(Clone, Copy, Debug, PartialEq, Eq, Structural)]
pub enum RegisterStep {
    /// Registering with the external service.
    ExternalRegister,
    /// Logging in to the external service, for its JWT.
    ExternalLogin,
    /// Generating the user's FHE keys.
    GenerateKeys,
    /// Storing the client and server keys in the user's directory.
    StoreKeys,
    /// Uploading the server key to the external service.
    UploadServerKey,
}

/// The step after `step`, or `None` after the last one (then the session
/// is created).
pub open spec fn next_register_step_spec(step: RegisterStep) -> Option<RegisterStep> {
    match step {
        RegisterStep::ExternalRegister => Some(RegisterStep::ExternalLogin),
        RegisterStep::ExternalLogin => Some(RegisterStep::GenerateKeys),
        RegisterStep::GenerateKeys => Some(RegisterStep::StoreKeys),
        RegisterStep::StoreKeys => Some(RegisterStep::UploadServerKey),
        RegisterStep::UploadServerKey => None,
    }
}

/// Whether a step is done by the external service.
pub open spec fn is_external_step(step: RegisterStep) -> bool {
    step == RegisterStep::ExternalRegister || step == RegisterStep::ExternalLogin || step
        == RegisterStep::UploadServerKey
}

/// The step of registration that follows a successful `step`.
pub fn next_register_step(step: RegisterStep) -> (r: Option<RegisterStep>)
    ensures
        r == next_register_step_spec(step),
{
    match step {
        RegisterStep::ExternalRegister => Some(RegisterStep::ExternalLogin),
        RegisterStep::ExternalLogin => Some(RegisterStep::GenerateKeys),
        RegisterStep::GenerateKeys => Some(RegisterStep::StoreKeys),
        RegisterStep::StoreKeys => Some(RegisterStep::UploadServerKey),
        RegisterStep::UploadServerKey => None,
    }
}

/// The error a failed registration step is answered with: a refusal of
/// the external service is the client's problem (`BadRequest`, with the
/// service's message), a failure of the backend's own work is `Internal`.
pub fn register_failure(step: RegisterStep, message: String) -> (e: AppError)
    ensures
        is_external_step(step) ==> e@ == AppErrorView::BadRequest(message@),
        !is_external_step(step) ==> e@ == AppErrorView::Internal(message@),
{
    match step {
        RegisterStep::ExternalRegister | RegisterStep::ExternalLogin
        | RegisterStep::UploadServerKey => AppError::BadRequest(message),
        RegisterStep::GenerateKeys | RegisterStep::StoreKeys => AppError::Internal(message),
    }
}

pub open spec fn missing_key_msg() -> Seq<char> {
    "No local FHE key found. Register via this backend first."@
}

/// The first decision of a login: the external service must have accepted
/// the credentials (`jwt` is the token it gave, `None` where it refused).
pub fn accept_external_login(jwt: Option<String>) -> (r: Result<String, AppError>)
    ensures
        jwt is None ==> (r matches Err(e) && e@ == AppErrorView::Unauthorized),
        jwt matches Some(t) ==> (r matches Ok(u) && u@ == t@),
{
    match jwt {
        Some(t) => Ok(t),
        None => Err(AppError::Unauthorized),
    }
}

/// The second decision of a login: the user must have registered through
/// this backend, so that the user's client key exists here.
pub fn require_client_key(client_key_exists: bool) -> (r: Result<(), AppError>)
    ensures
        !client_key_exists ==> (r matches Err(e) && e@ == AppErrorView::BadRequest(missing_key_msg())),
        client_key_exists ==> r is Ok,
{
    if !client_key_exists {
        return Err(
            AppError::BadRequest("No local FHE key found. Register via this backend first.".to_string()),
        );
    }
    Ok(())
}

} // verus!
