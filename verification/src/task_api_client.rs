use vstd::prelude::*;

use crate::error_response::ErrorResponse;
use crate::success_response::SuccessResponse;

verus! {

/// Failure modes of a remote call: a transport failure, a reply body that
/// did not parse as the expected shape, a typed rejection by the service,
/// and a local persistence failure around the call.
#[derive(Debug)]
pub enum HandleResponseError {
    Request(String),
    Parse(String),
    Response(ErrorResponse),
    IO(String),
}

/// The stateless client for the tracker's issue endpoints: it carries the
/// bearer token and the organization id that every request is sent with.
/// The HTTP transport lives outside; this type builds the requests and
/// classifies the replies.
pub struct TaskApiClient {
    pub token: String,
    pub org_id: String,
}

impl TaskApiClient {
    pub fn new(token: String, org_id: String) -> (r: Self)
        ensures
            r.token@ == token@,
            r.org_id@ == org_id@,
    {
        TaskApiClient { token, org_id }
    }

    /// The endpoint that task creations are POSTed to.
    pub fn create_url(&self) -> (r: String)
        ensures
            r@ == "https://api.tracker.yandex.net/v2/issues"@,
    {
        "https://api.tracker.yandex.net/v2/issues".to_owned()
    }

    /// The per-issue endpoint that updates are PATCHed to and deletions are
    /// sent to.
    pub fn issue_url(&self, issue_id: &String) -> (r: String)
        ensures
            r@ == "https://api.tracker.yandex.net/v2/issues/"@ + issue_id@,
    {
        let mut url = "https://api.tracker.yandex.net/v2/issues/".to_owned();
        url.append(issue_id.as_str());
        url
    }

    /// The value of the `Authorization` header of every request.
    pub fn auth_header_value(&self) -> (r: String)
        ensures
            r@ == "OAuth "@ + self.token@,
    {
        let mut v = "OAuth ".to_owned();
        v.append(self.token.as_str());
        v
    }

    /// The value of the `X-Org-ID` header of every request.
    pub fn org_header_value(&self) -> (r: String)
        ensures
            r@ == self.org_id@,
    {
        self.org_id.clone()
    }
}

/// Whether an HTTP status is in the success set of the issue endpoints.
pub fn is_success_status(status: u16) -> (r: bool)
    ensures
        r == (status == 200 || status == 201),
{
    status == 200 || status == 201
}

/// One request against the tracker, ready to be sent: its method, URL and
/// JSON body. The authentication headers come from the client that built
/// it.
pub struct ApiRequest {
    pub method: String,
    pub url: String,
    pub body: String,
}

impl TaskApiClient {
    /// The request that creates a task: the creation body POSTed to the
    /// issues endpoint.
    pub fn create_task(&self, task_data: crate::task::CreatedTaskBody) -> (r: ApiRequest)
        ensures
            r.method@ == "POST"@,
            r.url@ == "https://api.tracker.yandex.net/v2/issues"@,
            r.body@ == crate::json::write_jval(crate::codec::created_body_jval(task_data@)),
    {
        let jv = crate::codec::created_body_to_jval(&task_data);
        let cs = crate::json::jval_to_chars(&jv);
        ApiRequest {
            method: "POST".to_owned(),
            url: self.create_url(),
            body: crate::json::chars_to_string(&cs),
        }
    }

    /// The request that updates a task: the patch PATCHed to the per-issue
    /// endpoint.
    pub fn update_task(&self, issue_id: &String, update_task: crate::task::UpdatedTask) -> (r:
        ApiRequest)
        ensures
            r.method@ == "PATCH"@,
            r.url@ == "https://api.tracker.yandex.net/v2/issues/"@ + issue_id@,
            r.body@ == crate::json::write_jval(crate::codec::updated_body_jval(update_task@)),
    {
        let jv = crate::codec::updated_body_to_jval(&update_task);
        let cs = crate::json::jval_to_chars(&jv);
        ApiRequest {
            method: "PATCH".to_owned(),
            url: self.issue_url(issue_id),
            body: crate::json::chars_to_string(&cs),
        }
    }

    /// The request that deletes a task: a bodiless DELETE to the per-issue
    /// endpoint.
    pub fn delete_task(&self, issue_id: &String) -> (r: ApiRequest)
        ensures
            r.method@ == "DELETE"@,
            r.url@ == "https://api.tracker.yandex.net/v2/issues/"@ + issue_id@,
            r.body@.len() == 0,
    {
        ApiRequest {
            method: "DELETE".to_owned(),
            url: self.issue_url(issue_id),
            body: String::new(),
        }
    }

    /// Classifies a reply from the issue endpoints: on a success status the
    /// body must parse as a successful reply; on any other status it must
    /// parse as an error reply, which is surfaced as a typed rejection. A
    /// body that does not parse as the expected shape is a parse error on
    /// either branch.
    pub fn handle_response(status: u16, body: &str) -> (r: Result<
        SuccessResponse,
        HandleResponseError,
    >)
        ensures
            (status == 200 || status == 201) && crate::codec::success_from_chars(body@) is Some
                ==> (r matches Ok(resp) && resp@ == crate::codec::success_from_chars(body@)->0),
            (status == 200 || status == 201) && crate::codec::success_from_chars(body@) is None
                ==> (r matches Err(HandleResponseError::Parse(m))
                && m@ == "invalid success response body"@),
            !(status == 200 || status == 201) && crate::codec::error_from_chars(body@) is Some
                ==> (r matches Err(HandleResponseError::Response(e))
                && e@ == crate::codec::error_from_chars(body@)->0),
            !(status == 200 || status == 201) && crate::codec::error_from_chars(body@) is None
                ==> (r matches Err(HandleResponseError::Parse(m))
                && m@ == "invalid error response body"@),
    {
        if is_success_status(status) {
            match crate::codec::success_from_json(body) {
                Some(resp) => Ok(resp),
                None => Err(
                    HandleResponseError::Parse("invalid success response body".to_owned()),
                ),
            }
        } else {
            match crate::codec::error_from_json(body) {
                Some(e) => Err(HandleResponseError::Response(e)),
                None => Err(HandleResponseError::Parse("invalid error response body".to_owned())),
            }
        }
    }
}

} // verus!
