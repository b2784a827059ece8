use vstd::prelude::*;

verus! {

/// The errors with which a request to the backend is answered.
#[derive(Debug)]
pub enum AppError {
    /// No valid session, or the session does not own the resource.
    Unauthorized,
    /// The requested resource does not exist.
    NotFound,
    /// The request itself is malformed; the text says why.
    BadRequest(String),
    /// Something failed on the server side; the text says what.
    Internal(String),
}

/// The mathematical value of an [`AppError`].
pub enum AppErrorView {
    Unauthorized,
    NotFound,
    BadRequest(Seq<char>),
    Internal(Seq<char>),
}

impl View for AppError {
    type V = AppErrorView;

    open spec fn view(&self) -> AppErrorView {
        match self {
            AppError::Unauthorized => AppErrorView::Unauthorized,
            AppError::NotFound => AppErrorView::NotFound,
            AppError::BadRequest(m) => AppErrorView::BadRequest(m@),
            AppError::Internal(m) => AppErrorView::Internal(m@),
        }
    }
}

} // verus!
