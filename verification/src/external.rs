use vstd::prelude::*;
use crate::error::{AppError, AppErrorView};
use crate::ids::{parse_uuid, parsed_uuid, uuid_text};

verus! {

/// What the external service's answer to a job-result request means.
#[derive(Clone, Copy, Debug, PartialEq, Eq, Structural)]
pub enum JobResultReply {
    /// Status 200: the body is the encrypted result.
    Ready,
    /// Status 500: the job is not found or not yet finished.
    NotFinished,
    /// Any other status: the request failed.
    Unexpected { status: u16 },
}

/// Reads the HTTP status of the external service's answer to a job-result
/// request.
pub fn job_result_reply(status: u16) -> (r: JobResultReply)
    ensures
        status == 200 ==> r == JobResultReply::Ready,
        status == 500 ==> r == JobResultReply::NotFinished,
        status != 200 && status != 500 ==> r == (JobResultReply::Unexpected { status }),
{
    if status == 200 {
        JobResultReply::Ready
    } else if status == 500 {
        JobResultReply::NotFinished
    } else {
        JobResultReply::Unexpected { status }
    }
}

pub open spec fn invalid_job_id_msg() -> Seq<char> {
    "invalid job_id from external service"@
}

/// Reads the job identifier that the external service gave a new job: it
/// must be a UUID.
pub fn external_job_id(text: &str) -> (r: Result<u128, AppError>)
    ensures
        parsed_uuid(text@) matches Some(id) ==> (r matches Ok(v) && v == id),
        parsed_uuid(text@) is None ==> (r matches Err(e) && e@ == AppErrorView::Internal(
            invalid_job_id_msg(),
        )),
        forall|id: u128| text@ == #[trigger] uuid_text(id) ==> (r matches Ok(v) && v == id),
{
    match parse_uuid(text) {
        Some(id) => Ok(id),
        None => Err(AppError::Internal("invalid job_id from external service".to_string())),
    }
}

} // verus!
