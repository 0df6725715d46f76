use vstd::prelude::*;

verus! {

/// Model of a status record in a successful tracker reply.
#[verifier::ext_equal]
pub struct StatusView {
    pub id: Seq<char>,
    pub key: Seq<char>,
    pub display: Seq<char>,
}

/// Model of a user record in a successful tracker reply.
#[verifier::ext_equal]
pub struct UserView {
    pub url: Seq<char>,
    pub id: Seq<char>,
    pub display: Seq<char>,
}

/// Model of a successful tracker reply.
#[verifier::ext_equal]
pub struct SuccessResponseView {
    pub url: Seq<char>,
    pub id: Seq<char>,
    pub key: Seq<char>,
    pub version: u32,
    pub summary: Seq<char>,
    pub description: Option<Seq<char>>,
    pub status: StatusView,
    pub created_by: UserView,
    pub created_at: Seq<char>,
    pub updated_at: Seq<char>,
}

/// The status of an issue as the tracker reports it.
pub struct Status {
    pub id: String,
    pub key: String,
    pub display: String,
}

/// A user as the tracker reports one.
pub struct User {
    pub url: String,
    pub id: String,
    pub display: String,
}

/// A successful reply from the tracker's issue endpoints. `key` is the issue
/// key that parents subsequent subtasks.
pub struct SuccessResponse {
    pub url: String,
    pub id: String,
    pub key: String,
    pub version: u32,
    pub summary: String,
    pub description: Option<String>,
    pub status: Status,
    pub created_by: User,
    pub created_at: String,
    pub updated_at: String,
}

impl View for Status {
    type V = StatusView;

    open spec fn view(&self) -> StatusView {
        StatusView { id: self.id@, key: self.key@, display: self.display@ }
    }
}

impl View for User {
    type V = UserView;

    open spec fn view(&self) -> UserView {
        UserView { url: self.url@, id: self.id@, display: self.display@ }
    }
}

impl View for SuccessResponse {
    type V = SuccessResponseView;

    open spec fn view(&self) -> SuccessResponseView {
        SuccessResponseView {
            url: self.url@,
            id: self.id@,
            key: self.key@,
            version: self.version,
            summary: self.summary@,
            description: self.description.deep_view(),
            status: self.status@,
            created_by: self.created_by@,
            created_at: self.created_at@,
            updated_at: self.updated_at@,
        }
    }
}

} // verus!
