pub mod auth_error;
pub mod authorization;
pub mod codec;
pub mod error_response;
pub mod json;
pub mod json_laws;
pub mod json_parse;
pub mod success_response;
pub mod task;
pub mod task_api_client;
pub mod task_batch;
pub mod task_manager;
pub mod token_response;

use vstd::prelude::*;

verus! {

/// Settings for talking to the tracker service and its OAuth provider.
/// Loading and saving these settings is the surrounding program's concern;
/// the library takes the values it needs as plain arguments.
pub struct Config {
    pub organization_id: String,
    pub yandex_client_id: String,
    pub yandex_client_secret: String,
    pub redirect_uri: String,
}

impl Default for Config {
    /// A template configuration whose fields carry their own descriptions.
    fn default() -> (r: Self)
        ensures
            r.organization_id@ == "default_org_id: The ID of the organization"@,
            r.yandex_client_id@ == "default_client_id: The client ID for Yandex"@,
            r.yandex_client_secret@ == "default_client_secret: The client secret for Yandex"@,
            r.redirect_uri@ == "http://localhost:8000: The redirect URI for the application"@,
    {
        Config {
            organization_id: "default_org_id: The ID of the organization".to_owned(),
            yandex_client_id: "default_client_id: The client ID for Yandex".to_owned(),
            yandex_client_secret: "default_client_secret: The client secret for Yandex".to_owned(),
            redirect_uri: "http://localhost:8000: The redirect URI for the application".to_owned(),
        }
    }
}

} // verus!
