use vstd::prelude::*;

verus! {

/// Model of the detailed error information of a rejection.
#[verifier::ext_equal]
pub struct ErrorsModelView {
    pub priority: Option<Seq<char>>,
}

/// Model of an error reply.
#[verifier::ext_equal]
pub struct ErrorResponseView {
    pub error_messages: Seq<Seq<char>>,
    pub errors_model: Option<ErrorsModelView>,
    pub status_code: u32,
}

/// Detailed error information inside an error reply.
#[derive(Debug)]
pub struct ErrorsModel {
    pub priority: Option<String>,
}

/// An error reply from the tracker: its messages, optional details, and the
/// status code the service reports.
#[derive(Debug)]
pub struct ErrorResponse {
    pub error_messages: Vec<String>,
    pub errors_model: Option<ErrorsModel>,
    pub status_code: u32,
}

impl View for ErrorsModel {
    type V = ErrorsModelView;

    open spec fn view(&self) -> ErrorsModelView {
        ErrorsModelView { priority: self.priority.deep_view() }
    }
}

pub open spec fn errors_model_views(o: Option<ErrorsModel>) -> Option<ErrorsModelView> {
    match o {
        Some(m) => Some(m@),
        None => None,
    }
}

impl View for ErrorResponse {
    type V = ErrorResponseView;

    open spec fn view(&self) -> ErrorResponseView {
        ErrorResponseView {
            error_messages: self.error_messages.deep_view(),
            errors_model: errors_model_views(self.errors_model),
            status_code: self.status_code,
        }
    }
}

} // verus!
