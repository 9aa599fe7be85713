use vstd::prelude::*;

verus! {

/// The body of a request that starts or promotes a staging repository.
#[derive(Default, Debug, Clone, PartialEq)]
pub struct PromoteRequest {
    pub data: PromoteRequestData,
}

#[derive(Default, Debug, Clone, PartialEq)]
pub struct PromoteRequestData {
    pub staged_repository_id: Option<String>,
    pub description: Option<String>,
    pub target_repository_id: Option<String>,
}

/// One child of a remote directory, as the one-level listing reports it.
///
/// `leaf` tells a file from a directory; `size_on_disk` is the byte length
/// of a file and -1 for a directory; `last_modified` is passed through for
/// display.
#[derive(Default, Debug, Clone, PartialEq)]
pub struct DirEntry {
    pub resource_uri: String,
    pub relative_path: String,
    pub text: String,
    pub leaf: bool,
    pub last_modified: String,
    pub size_on_disk: i64,
}

#[derive(Default, Debug, Clone, PartialEq)]
pub struct PromoteResponse {
    pub data: PromoteResponseData,
}

#[derive(Default, Debug, Clone, PartialEq)]
pub struct PromoteResponseData {
    pub staged_repository_id: Option<String>,
    pub description: Option<String>,
}

/// The envelope in which the service returns a list.
#[derive(Default, Debug, Clone, PartialEq)]
pub struct ListOfObjects<T> {
    pub data: Vec<T>,
}

#[derive(Default, Debug, Clone, PartialEq)]
pub struct StagingProfileRepository {
    pub profile_id: String,
    pub profile_name: String,
    pub profile_type: String,
    pub repository_id: String,
    pub repository_type: String,
    pub policy: String,
    pub user_id: String,
    pub user_agent: String,
    pub ip_address: String,
    pub repository_uri: String,
    pub created: String,
    pub created_date: String,
    pub created_timestamp: i64,
    pub updated: String,
    pub updated_date: String,
    pub updated_timestamp: i64,
    pub description: String,
    pub provider: String,
    pub release_repository_id: String,
    pub release_repository_name: String,
    pub notifications: i64,
    pub transitioning: bool,
}

#[derive(Default, Debug, Clone, PartialEq)]
pub struct Properties {
    pub class: String,
}

#[derive(Default, Debug, Clone, PartialEq)]
pub struct StagingActivity {
    pub name: String,
    pub started: String,
    pub stopped: String,
    pub events: Vec<StagingActivityEvent>,
}

#[derive(Default, Debug, Clone, PartialEq)]
pub struct StagingActivityEvent {
    pub timestamp: String,
    pub name: String,
    pub severity: i32,
    pub properties: Vec<StagingProperty>,
}

#[derive(Default, Debug, Clone, PartialEq)]
pub struct StagingProperty {
    pub name: String,
    pub value: String,
}

} // verus!
