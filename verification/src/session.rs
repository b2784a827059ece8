use vstd::prelude::*;
use crate::error::{AppError, AppErrorView};
use crate::ids::{parse_uuid, parsed_uuid, uuid_text};

verus! {

/// A logged-in user of the backend.
#[derive(Clone, Debug)]
pub struct Session {
    pub username: String,
    /// Bearer JWT for the external service
    pub jwt: String,
}

/// The session a request names, given the text of its `x-session-id`
/// header (`None` where the header is missing or not visible ASCII): a
/// request without a readable UUID there is unauthorized.
pub open spec fn session_id_spec(header: Option<Seq<char>>) -> Result<u128, AppErrorView> {
    match header {
        None => Err(AppErrorView::Unauthorized),
        Some(text) => match parsed_uuid(text) {
            Some(id) => Ok(id),
            None => Err(AppErrorView::Unauthorized),
        },
    }
}

pub open spec fn opt_str_view(s: Option<&str>) -> Option<Seq<char>> {
    match s {
        Some(x) => Some(x@),
        None => None,
    }
}

pub open spec fn id_result_view(r: Result<u128, AppError>) -> Result<u128, AppErrorView> {
    match r {
        Ok(id) => Ok(id),
        Err(e) => Err(e@),
    }
}

/// Reads the session identifier of a request from its `x-session-id`
/// header; the hyphenated text of a session's UUID reads back as it.
pub fn session_id_from_header(header: Option<&str>) -> (r: Result<u128, AppError>)
    ensures
        id_result_view(r) == session_id_spec(opt_str_view(header)),
        forall|id: u128|
            header matches Some(t) && t@ == #[trigger] uuid_text(id) ==> (r matches Ok(v) && v == id),
{
    match header {
        None => Err(AppError::Unauthorized),
        Some(text) => match parse_uuid(text) {
            Some(id) => Ok(id),
            None => Err(AppError::Unauthorized),
        },
    }
}

/// The session of a request, given what the session store holds under its
/// identifier: an unknown session is unauthorized.
pub fn session_or_unauthorized(found: Option<Session>) -> (r: Result<Session, AppError>)
    ensures
        found is None ==> (r matches Err(e) && e@ == AppErrorView::Unauthorized),
        found matches Some(s) ==> (r matches Ok(t) && t.username@ == s.username@ && t.jwt@ == s.jwt@),
{
    match found {
        Some(s) => Ok(s),
        None => Err(AppError::Unauthorized),
    }
}

} // verus!
