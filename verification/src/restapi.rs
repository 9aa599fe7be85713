use crate::model::{PromoteRequest, PromoteRequestData};
use crate::text::{chars_of, concat2, concat3, has_prefix, slice_string, starts_with};
use vstd::prelude::*;

verus! {

pub const APPLICATION_JSON: &'static str = "application/json";

pub const APPLICATION_XML: &'static str = "application/xml";

/// The method of a request.
#[derive(Copy, Clone, Debug, PartialEq, Eq, Structural)]
pub enum HttpMethod {
    Get,
    Put,
    Post,
    Delete,
}

/// How the body of a response is read.
#[derive(Copy, Clone, Debug, PartialEq, Eq, Structural)]
pub enum Extractor {
    /// As JSON, of which the value under `data` is taken.
    JsonData,
    /// As JSON.
    Json,
    /// As XML.
    Xml,
    /// As it stands.
    Text,
    /// Not at all.
    Nothing,
}

/// A request to the service, as plain values: what is asked, where, with
/// which body, and how the answer is read.
#[derive(Clone, Debug, PartialEq)]
pub struct NexusRequest {
    pub method: HttpMethod,
    pub url_suffix: String,
    pub body: String,
    pub content_type: &'static str,
    pub accept: &'static str,
    pub extractor: Extractor,
}

/// The requests on staging profiles.
#[derive(Default)]
pub struct StagingProfiles;

/// The requests on staging repositories.
pub struct StagingRepositories;

/// The requests on the content of one repository.
pub struct NexusRepository {
    pub repo_path: String,
}

/// What marks the id of a staging repository.
pub open spec fn staging_prefix() -> Seq<char> {
    "@staging:"@
}

/// The id of a repository without the mark of a staging repository.
pub open spec fn bare_repository_id(repository_id: Seq<char>) -> Seq<char> {
    if has_prefix(repository_id, staging_prefix()) {
        repository_id.skip(staging_prefix().len() as int)
    } else {
        repository_id
    }
}

/// The path under which a repository is read.
pub open spec fn readonly_path(repository_id: Seq<char>) -> Seq<char> {
    "/service/local/repositories/"@ + bare_repository_id(repository_id) + "/content"@
}

/// The path under which a repository is written: a staging repository is
/// written through the staging service.
pub open spec fn readwrite_path(repository_id: Seq<char>) -> Seq<char> {
    if has_prefix(repository_id, staging_prefix()) {
        "/service/local/staging/deployByRepositoryId/"@ + bare_repository_id(repository_id)
    } else {
        "/service/local/repositories/"@ + repository_id + "/content"@
    }
}

/// What stands for one character in a quoted text: a backslash goes
/// before a double quote.
pub open spec fn escaped_char(c: char) -> Seq<char> {
    if c == '"' {
        seq!['\\', '"']
    } else {
        seq![c]
    }
}

/// A text with a backslash before each of its double quotes.
pub open spec fn escaped(s: Seq<char>) -> Seq<char>
    decreases s.len(),
{
    if s.len() == 0 {
        Seq::empty()
    } else {
        escaped(s.drop_last()) + escaped_char(s.last())
    }
}

/// The member that carries a description in the body of a request, or
/// nothing where there is no description.
pub open spec fn description_member(description: Seq<char>) -> Seq<char> {
    if description.len() == 0 {
        Seq::empty()
    } else {
        ", \"description\":\""@ + escaped(description) + "\""@
    }
}

/// The body that names a repository under `key`, with its description.
pub open spec fn described_body(key: Seq<char>, repository_id: Seq<char>, description: Seq<char>)
    -> Seq<char> {
    "{\"data\": {\""@ + key + "\":\""@ + repository_id + "\""@ + description_member(description)
        + "}}"@
}

/// The body that names a staged repository and nothing else.
pub open spec fn staged_body(repository_id: Seq<char>) -> Seq<char> {
    "{\"data\": {\"stagedRepositoryId\":\""@ + repository_id + "\"} }"@
}

pub open spec fn profiles_path() -> Seq<char> {
    "/service/local/staging/profiles"@
}

pub open spec fn profile_path(profile_id_key: Seq<char>) -> Seq<char> {
    "/service/local/staging/profiles/"@ + profile_id_key
}

pub open spec fn staging_repository_path(staged_repository_id: Seq<char>) -> Seq<char> {
    "/service/local/staging/repository/"@ + staged_repository_id
}

/// A request as plain values, for contracts.
pub open spec fn is_request(
    r: NexusRequest,
    method: HttpMethod,
    url_suffix: Seq<char>,
    body: Seq<char>,
    media: Seq<char>,
    extractor: Extractor,
) -> bool {
    &&& r.method == method
    &&& r.url_suffix@ == url_suffix
    &&& r.body@ == body
    &&& r.content_type@ == media
    &&& r.accept@ == media
    &&& r.extractor == extractor
}

proof fn lemma_escaped_push(s: Seq<char>, c: char)
    ensures
        escaped(s.push(c)) == escaped(s) + escaped_char(c),
{
    assert(s.push(c).drop_last() =~= s);
}

/// `text` with a backslash before each of its double quotes.
pub fn json_escape(text: &str) -> (out: String)
    ensures
        out@ == escaped(text@),
{
    let chars = chars_of(text);
    let n = chars.len();
    let mut out = String::new();
    let mut start: usize = 0;
    let mut i: usize = 0;
    assert(text@.take(0) =~= Seq::<char>::empty());
    assert(out@ + text@.subrange(0, 0) =~= Seq::<char>::empty());
    while i < n
        invariant
            n == text@.len(),
            chars@ == text@,
            start <= i <= n,
            forall|k: int| start <= k < i ==> text@[k] != '"',
            out@ + text@.subrange(start as int, i as int) == escaped(text@.take(i as int)),
        decreases n - i,
    {
        let ghost run = text@.subrange(start as int, i as int);
        proof {
            assert(text@.take(i + 1) =~= text@.take(i as int).push(text@[i as int]));
            lemma_escaped_push(text@.take(i as int), text@[i as int]);
        }
        if chars[i] == '"' {
            proof {
                reveal_strlit("\\\"");
                assert("\\\""@ =~= seq!['\\', '"']);
            }
            out.append(text.substring_char(start, i));
            out.append("\\\"");
            start = i + 1;
            assert(out@ + text@.subrange(start as int, i + 1) =~= escaped(text@.take(i + 1)));
        } else {
            assert(out@ + text@.subrange(start as int, i + 1) =~= (out@ + run) + seq![
                text@[i as int],
            ]);
        }
        i += 1;
    }
    out.append(text.substring_char(start, n));
    assert(text@.take(n as int) =~= text@);
    out
}

impl NexusRequest {
    /// A request that sends and accepts JSON.
    pub fn json_json(method: HttpMethod, url_suffix: String, body: String, extractor: Extractor)
        -> (r: Self)
        ensures
            is_request(r, method, url_suffix@, body@, APPLICATION_JSON@, extractor),
    {
        NexusRequest {
            method,
            url_suffix,
            body,
            content_type: APPLICATION_JSON,
            accept: APPLICATION_JSON,
            extractor,
        }
    }

    /// A request that sends and accepts XML.
    pub fn xml_xml(method: HttpMethod, url_suffix: String, body: String, extractor: Extractor)
        -> (r: Self)
        ensures
            is_request(r, method, url_suffix@, body@, APPLICATION_XML@, extractor),
    {
        NexusRequest {
            method,
            url_suffix,
            body,
            content_type: APPLICATION_XML,
            accept: APPLICATION_XML,
            extractor,
        }
    }
}

/// The member that carries `description` in the body of a request.
fn description_json(description: &str) -> (out: String)
    ensures
        out@ == description_member(description@),
{
    if description.unicode_len() == 0 {
        String::new()
    } else {
        concat3(", \"description\":\"", json_escape(description).as_str(), "\"")
    }
}

/// The body that names a repository under `key`, with its description.
fn described_json(key: &str, repository_id: &str, description: &str) -> (out: String)
    ensures
        out@ == described_body(key@, repository_id@, description@),
{
    let mut out = concat3("{\"data\": {\"", key, "\":\"");
    out.append(repository_id);
    out.append("\"");
    out.append(description_json(description).as_str());
    out.append("}}");
    out
}

impl StagingProfiles {
    /// Asks for all staging profiles.
    pub fn list() -> (r: NexusRequest)
        ensures
            is_request(
                r,
                HttpMethod::Get,
                profiles_path(),
                Seq::empty(),
                APPLICATION_JSON@,
                Extractor::JsonData,
            ),
    {
        NexusRequest::json_json(
            HttpMethod::Get,
            "/service/local/staging/profiles".to_owned(),
            String::new(),
            Extractor::JsonData,
        )
    }

    /// Asks for one staging profile.
    pub fn get(profile_id_key: &str) -> (r: NexusRequest)
        ensures
            is_request(
                r,
                HttpMethod::Get,
                profile_path(profile_id_key@),
                Seq::empty(),
                APPLICATION_JSON@,
                Extractor::JsonData,
            ),
    {
        NexusRequest::json_json(
            HttpMethod::Get,
            concat2("/service/local/staging/profiles/", profile_id_key),
            String::new(),
            Extractor::JsonData,
        )
    }

    /// The body of the request that starts a staging repository: it
    /// carries the description, if there is one, and nothing else.
    pub fn start_body(description: &str) -> (body: PromoteRequest)
        ensures
            body.data.staged_repository_id is None,
            body.data.target_repository_id is None,
            body.data.description is Some == (description@.len() > 0),
            body.data.description is Some ==> body.data.description->0@ == description@,
    {
        let description = if description.unicode_len() == 0 {
            None
        } else {
            Some(description.to_owned())
        };
        PromoteRequest {
            data: PromoteRequestData {
                staged_repository_id: None,
                description,
                target_repository_id: None,
            },
        }
    }

    /// Starts a staging repository under a profile; `xml_body` is the
    /// body of `start_body` as XML.
    pub fn start(profile_id_key: &str, xml_body: String) -> (r: NexusRequest)
        ensures
            is_request(
                r,
                HttpMethod::Post,
                profile_path(profile_id_key@) + "/start"@,
                xml_body@,
                APPLICATION_XML@,
                Extractor::Xml,
            ),
    {
        NexusRequest::xml_xml(
            HttpMethod::Post,
            concat3("/service/local/staging/profiles/", profile_id_key, "/start"),
            xml_body,
            Extractor::Xml,
        )
    }

    /// Sets the description of a staging repository.
    pub fn describe(profile_id_key: &str, repository_id: &str, description: &str) -> (r:
        NexusRequest)
        ensures
            is_request(
                r,
                HttpMethod::Put,
                profile_path(profile_id_key@),
                described_body("repositoryId"@, repository_id@, description@),
                APPLICATION_JSON@,
                Extractor::Text,
            ),
    {
        NexusRequest::json_json(
            HttpMethod::Put,
            concat2("/service/local/staging/profiles/", profile_id_key),
            described_json("repositoryId", repository_id, description),
            Extractor::Text,
        )
    }

    /// Finishes (closes) a staging repository.
    pub fn finish(profile_id_key: &str, repository_id: &str, description: &str) -> (r:
        NexusRequest)
        ensures
            is_request(
                r,
                HttpMethod::Post,
                profile_path(profile_id_key@) + "/finish"@,
                described_body("stagedRepositoryId"@, repository_id@, description@),
                APPLICATION_JSON@,
                Extractor::Text,
            ),
    {
        NexusRequest::json_json(
            HttpMethod::Post,
            concat3("/service/local/staging/profiles/", profile_id_key, "/finish"),
            described_json("stagedRepositoryId", repository_id, description),
            Extractor::Text,
        )
    }

    /// Promotes (releases) a staging repository.
    pub fn promote(profile_id_key: &str, repository_id: &str) -> (r: NexusRequest)
        ensures
            is_request(
                r,
                HttpMethod::Post,
                profile_path(profile_id_key@) + "/promote"@,
                staged_body(repository_id@),
                APPLICATION_JSON@,
                Extractor::Text,
            ),
    {
        NexusRequest::json_json(
            HttpMethod::Post,
            concat3("/service/local/staging/profiles/", profile_id_key, "/promote"),
            concat3("{\"data\": {\"stagedRepositoryId\":\"", repository_id, "\"} }"),
            Extractor::Text,
        )
    }

    /// Drops a staging repository.
    pub fn drop(profile_id_key: &str, repository_id: &str) -> (r: NexusRequest)
        ensures
            is_request(
                r,
                HttpMethod::Post,
                profile_path(profile_id_key@) + "/drop"@,
                staged_body(repository_id@),
                APPLICATION_JSON@,
                Extractor::Nothing,
            ),
    {
        NexusRequest::json_json(
            HttpMethod::Post,
            concat3("/service/local/staging/profiles/", profile_id_key, "/drop"),
            concat3("{\"data\": {\"stagedRepositoryId\":\"", repository_id, "\"} }"),
            Extractor::Nothing,
        )
    }
}

impl StagingRepositories {
    /// Asks for all staging repositories.
    pub fn list() -> (r: NexusRequest)
        ensures
            is_request(
                r,
                HttpMethod::Get,
                "/service/local/staging/profile_repositories"@,
                Seq::empty(),
                APPLICATION_JSON@,
                Extractor::JsonData,
            ),
    {
        NexusRequest::json_json(
            HttpMethod::Get,
            "/service/local/staging/profile_repositories".to_owned(),
            String::new(),
            Extractor::JsonData,
        )
    }

    /// Asks for one staging repository.
    pub fn get(staged_repository_id: &str) -> (r: NexusRequest)
        ensures
            is_request(
                r,
                HttpMethod::Get,
                staging_repository_path(staged_repository_id@),
                Seq::empty(),
                APPLICATION_JSON@,
                Extractor::Json,
            ),
    {
        NexusRequest::json_json(
            HttpMethod::Get,
            concat2("/service/local/staging/repository/", staged_repository_id),
            String::new(),
            Extractor::Json,
        )
    }

    /// Asks for what has happened to a staging repository.
    pub fn activity(staged_repository_id: &str) -> (r: NexusRequest)
        ensures
            is_request(
                r,
                HttpMethod::Get,
                staging_repository_path(staged_repository_id@) + "/activity"@,
                Seq::empty(),
                APPLICATION_JSON@,
                Extractor::Json,
            ),
    {
        NexusRequest::json_json(
            HttpMethod::Get,
            concat3("/service/local/staging/repository/", staged_repository_id, "/activity"),
            String::new(),
            Extractor::Json,
        )
    }

    /// Asks for what has happened to a staging repository, as XML text.
    pub fn activity_xml(staged_repository_id: &str) -> (r: NexusRequest)
        ensures
            is_request(
                r,
                HttpMethod::Get,
                staging_repository_path(staged_repository_id@) + "/activity"@,
                Seq::empty(),
                APPLICATION_XML@,
                Extractor::Text,
            ),
    {
        NexusRequest::xml_xml(
            HttpMethod::Get,
            concat3("/service/local/staging/repository/", staged_repository_id, "/activity"),
            String::new(),
            Extractor::Text,
        )
    }
}

impl NexusRepository {
    /// The repository as it is written: a staging repository, whose id
    /// bears the mark, is written through the staging service.
    pub fn nexus_readwrite(repository_id: &str) -> (r: Self)
        ensures
            r.repo_path@ == readwrite_path(repository_id@),
    {
        proof {
            reveal_strlit("@staging:");
        }
        let id = chars_of(repository_id);
        let mark = chars_of("@staging:");
        let repo_path = if starts_with(&id, &mark) {
            let bare = slice_string(repository_id, mark.len(), id.len());
            concat2("/service/local/staging/deployByRepositoryId/", bare.as_str())
        } else {
            concat3("/service/local/repositories/", repository_id, "/content")
        };
        NexusRepository { repo_path }
    }

    /// The repository as it is read; the mark of a staging repository is
    /// taken off its id.
    pub fn nexus_readonly(repository_id: &str) -> (r: Self)
        ensures
            r.repo_path@ == readonly_path(repository_id@),
    {
        proof {
            reveal_strlit("@staging:");
        }
        let id = chars_of(repository_id);
        let mark = chars_of("@staging:");
        let bare = if starts_with(&id, &mark) {
            slice_string(repository_id, mark.len(), id.len())
        } else {
            repository_id.to_owned()
        };
        let repo_path = concat3("/service/local/repositories/", bare.as_str(), "/content");
        NexusRepository { repo_path }
    }

    /// Deletes what lies at `path` in the repository.
    pub fn delete(&self, path: &str) -> (r: NexusRequest)
        ensures
            is_request(
                r,
                HttpMethod::Delete,
                self.repo_path@ + path@,
                Seq::empty(),
                Seq::empty(),
                Extractor::Nothing,
            ),
    {
        proof {
            reveal_strlit("");
            assert(""@ =~= Seq::<char>::empty());
        }
        NexusRequest {
            method: HttpMethod::Delete,
            url_suffix: concat2(self.repo_path.as_str(), path),
            body: String::new(),
            content_type: "",
            accept: "",
            extractor: Extractor::Nothing,
        }
    }

    /// Asks for the entries of the directory at `path` in the repository.
    pub fn list(&self, path: &str) -> (r: NexusRequest)
        ensures
            is_request(
                r,
                HttpMethod::Get,
                self.repo_path@ + path@,
                Seq::empty(),
                APPLICATION_JSON@,
                Extractor::JsonData,
            ),
    {
        NexusRequest::json_json(
            HttpMethod::Get,
            concat2(self.repo_path.as_str(), path),
            String::new(),
            Extractor::JsonData,
        )
    }
}

} // verus!
