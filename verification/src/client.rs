use crate::restapi::{NexusRequest, APPLICATION_JSON};
use crate::text::{chars_of, concat2, decimal_nat, decimal_u64, has_prefix, starts_with};
use vstd::prelude::*;

verus! {

/// `url::ParseError`, carried through as it is: nothing is known of a
/// value of it.
#[verifier::external_type_specification]
#[verifier::external_body]
pub struct ExParseError(url::ParseError);

/// The URL that `url::Url::parse` reads from `input`, as the text that the
/// parsed URL serializes to; `None` where it reads none.
pub uninterp spec fn url_parsed(input: Seq<char>) -> Option<Seq<char>>;

/// The URL that `url::Url::join` makes of `input` on the URL that `base`
/// parses to, as text; `None` where `base` is no URL or `input` cannot be
/// joined to it.
pub uninterp spec fn url_joined(base: Seq<char>, input: Seq<char>) -> Option<Seq<char>>;

/// The host of the URL that `url` parses to, as `url::Url::host` gives it
/// and as it is written; `None` where `url` is no URL or has no host.
pub uninterp spec fn url_host(url: Seq<char>) -> Option<Seq<char>>;

/// Why a text is no URL.
#[derive(Clone, Debug, PartialEq)]
pub struct UrlError {
    pub message: String,
}

/// Calls `url::Url::parse` and hands back the serialization of the URL
/// that it read. The contract only gives that result its name.
#[verifier::external_body]
fn parse_url(input: &str) -> (r: Result<String, url::ParseError>)
    ensures
        r is Ok == url_parsed(input@) is Some,
        r is Ok ==> r->Ok_0@ == url_parsed(input@)->0,
{
    url::Url::parse(input).map(String::from)
}

/// Calls `url::Url::join` on the URL that `base` parses to and hands back
/// the serialization of the joined URL. The contract only gives that
/// result its name.
#[verifier::external_body]
fn join_url(base: &str, input: &str) -> (r: Result<String, url::ParseError>)
    ensures
        r is Ok == url_joined(base@, input@) is Some,
        r is Ok ==> r->Ok_0@ == url_joined(base@, input@)->0,
{
    url::Url::parse(base)?.join(input).map(String::from)
}

/// Calls `url::Url::host` on the URL that `url` parses to and hands back
/// the host as it is written. The contract only gives that result its
/// name.
#[verifier::external_body]
fn host_of_url(url: &str) -> (r: Option<String>)
    ensures
        r is Some == url_host(url@) is Some,
        r is Some ==> r->0@ == url_host(url@)->0,
{
    let parsed = url::Url::parse(url).ok()?;
    let host = parsed.host()?;
    Some(host.to_string())
}

/// The text of a `url::ParseError`, as its `Display` writes it. Nothing
/// is claimed of the text.
#[verifier::external_body]
fn parse_error_text(error: &url::ParseError) -> (text: String) {
    error.to_string()
}

/// Where the service is asked when nothing else is said.
pub open spec fn default_server() -> Seq<char> {
    "https://oss.sonatype.org"@
}

/// The path to which a file of a staged repository is uploaded.
pub open spec fn upload_suffix(staged_repository_id: Seq<char>, path: Seq<char>) -> Seq<char> {
    "/service/local/staging/deployByRepositoryId/"@ + staged_repository_id + path
}

/// The path from which a file of a repository is downloaded.
pub open spec fn download_suffix(repository_id: Seq<char>, path: Seq<char>) -> Seq<char> {
    "/service/local/repositories/"@ + repository_id + "/content"@ + path
}

/// What an outcome of the URL library means to a caller of this library.
pub open spec fn is_url_result(r: Result<String, UrlError>, named: Option<Seq<char>>) -> bool {
    match named {
        Some(url) => r is Ok && r->Ok_0@ == url,
        None => r is Err,
    }
}

/// The library's own result for an outcome of the URL library: the URL
/// where there is one, else the text of the error.
fn url_result(outcome: Result<String, url::ParseError>) -> (r: Result<String, UrlError>)
    ensures
        r is Ok == outcome is Ok,
        r is Ok ==> r->Ok_0 == outcome->Ok_0,
{
    match outcome {
        Ok(url) => Ok(url),
        Err(error) => Err(UrlError { message: parse_error_text(&error) }),
    }
}

/// The URL of the server: what `configured` says, or the default server
/// where nothing is configured.
pub fn nexus_url(configured: Option<String>) -> (r: Result<String, UrlError>)
    ensures
        is_url_result(
            r,
            url_parsed(
                match configured {
                    Some(text) => text@,
                    None => default_server(),
                },
            ),
        ),
{
    let text = match configured {
        Some(text) => text,
        None => "https://oss.sonatype.org".to_owned(),
    };
    url_result(parse_url(text.as_str()))
}

/// The host of the server at `url`, where it has one.
pub fn server_host(url: &str) -> (r: Option<String>)
    ensures
        r is Some == url_host(url@) is Some,
        r is Some ==> r->0@ == url_host(url@)->0,
{
    host_of_url(url)
}

/// The URL to which a request goes on the server at `base_url`.
pub fn request_url(base_url: &str, request: &NexusRequest) -> (r: Result<String, UrlError>)
    ensures
        is_url_result(r, url_joined(base_url@, request.url_suffix@)),
{
    url_result(join_url(base_url, request.url_suffix.as_str()))
}

/// Whether a request carries a body, and with it a content type.
pub fn sends_body(request: &NexusRequest) -> (r: bool)
    ensures
        r == (request.body@.len() > 0),
{
    request.body.as_str().unicode_len() > 0
}

/// The URL to which a file of a staged repository is uploaded.
pub fn upload_url(base_url: &str, staged_repository_id: &str, path: &str) -> (r: Result<
    String,
    UrlError,
>)
    ensures
        is_url_result(r, url_joined(base_url@, upload_suffix(staged_repository_id@, path@))),
{
    let mut suffix = concat2("/service/local/staging/deployByRepositoryId/", staged_repository_id);
    suffix.append(path);
    url_result(join_url(base_url, suffix.as_str()))
}

/// The URL from which a file of a repository is downloaded.
pub fn download_url(base_url: &str, repository_id: &str, path: &str) -> (r: Result<
    String,
    UrlError,
>)
    ensures
        is_url_result(r, url_joined(base_url@, download_suffix(repository_id@, path@))),
{
    let mut suffix = concat2("/service/local/repositories/", repository_id);
    suffix.append("/content");
    suffix.append(path);
    url_result(join_url(base_url, suffix.as_str()))
}

/// A status that stands for success: one from 200 to 299.
pub open spec fn success_status(status: u16) -> bool {
    200 <= status < 300
}

/// The text that reports a response without success: the status and its
/// reason, and what the body says, marked where the body is JSON.
pub open spec fn status_error_text(
    status: u16,
    reason: Seq<char>,
    content_type: Option<Seq<char>>,
    body: Seq<char>,
) -> Seq<char> {
    let head = "HTTP "@ + decimal_nat(status as nat) + " "@ + reason;
    if content_type is Some && has_prefix(content_type->0, APPLICATION_JSON@) {
        head + ": with this JSON info: "@ + body
    } else {
        head + ": "@ + body
    }
}

/// Whether a response with this status is taken as it is.
pub fn is_success(status: u16) -> (r: bool)
    ensures
        r == success_status(status),
{
    200 <= status && status < 300
}

/// The text that reports a response without success.
pub fn status_error(status: u16, reason: &str, content_type: Option<&str>, body: &str) -> (out:
    String)
    ensures
        out@ == status_error_text(
            status,
            reason@,
            match content_type {
                Some(media) => Some(media@),
                None => None,
            },
            body@,
        ),
{
    let mut out = concat2("HTTP ", decimal_u64(status as u64).as_str());
    out.append(" ");
    out.append(reason);
    let json = match content_type {
        Some(media) => {
            let media = chars_of(media);
            let wanted = chars_of(APPLICATION_JSON);
            starts_with(&media, &wanted)
        },
        None => false,
    };
    if json {
        out.append(": with this JSON info: ");
    } else {
        out.append(": ");
    }
    out.append(body);
    out
}

} // verus!
