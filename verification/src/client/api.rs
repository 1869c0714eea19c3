//! Addressing the server's API: base URL, endpoints, request bodies and the
//! reading of response statuses. The HTTP exchange itself happens around
//! these functions.
use vstd::prelude::*;
use crate::client::config::ServerConnectionConfig;
use crate::client::error::{ClientError, ClientResult};
use crate::shared::encoding::{b64_standard_decode_spec, b64_standard_encode, b64_standard_encode_spec};
use crate::shared::types::{uuid_text, uuid_text_spec};
use crate::text::{concat_str, decimal_spec, decimal_text, str_eq, trim_end_chars, trim_end_spec, TrimSet};

pub use crate::server::handlers::{HealthResponse, RegisterClientRequest, RegisterClientResponse, UploadFileRequest};

verus! {

/// The serialisation of a URL as `url::Url::parse` gives it, when the text parses.
pub uninterp spec fn url_serialization_spec(input: Seq<char>) -> Option<Seq<char>>;

/// `url::Url::parse` followed by `Url::as_str`: the named serialisation of
/// the text. The error's text is not stated.
#[verifier::external_body]
fn parse_url(input: &str) -> (r: Result<String, String>)
    ensures
        match r {
            Ok(s) => url_serialization_spec(input@) == Some(s@),
            Err(_) => url_serialization_spec(input@) is None,
        },
{
    url::Url::parse(input).map(|u| u.as_str().to_string()).map_err(|e| e.to_string())
}

/// The base URL used for a server: its parsed serialisation without trailing `/`.
pub open spec fn base_url_spec(input: Seq<char>) -> Option<Seq<char>> {
    match url_serialization_spec(input) {
        Some(s) => Some(trim_end_spec(TrimSet::Slash, s)),
        None => None,
    }
}

/// Parses a server URL and drops its trailing slashes; a text that is not a
/// URL is an invalid server URL, reported with the parser's message.
pub fn normalize_base_url(url: &str) -> (r: ClientResult<String>)
    ensures
        match base_url_spec(url@) {
            Some(b) => r matches Ok(s) && s@ == b,
            None => r matches Err(ClientError::InvalidServerUrl(m)) && (url@ + " ("@).is_prefix_of(m@),
        },
{
    match parse_url(url) {
        Ok(serialized) => Ok(trim_end_chars(serialized.as_str(), TrimSet::Slash)),
        Err(detail) => {
            let a = concat_str(url, " (");
            let b = concat_str(a.as_str(), detail.as_str());
            let m = concat_str(b.as_str(), ")");
            assert(m@.subrange(0, a@.len() as int) =~= a@);
            Err(ClientError::InvalidServerUrl(m))
        },
    }
}

/// Where and as whom the client talks to the server.
#[derive(Debug, Clone, PartialEq, Eq)]
pub struct ServerApi {
    pub base_url: String,
    pub api_key: String,
}

impl ServerApi {
    /// The API of the configured server.
    pub fn new(config: &ServerConnectionConfig) -> (r: ClientResult<ServerApi>)
        ensures
            match base_url_spec(config.url@) {
                Some(b) => r matches Ok(api) && api.base_url@ == b && api.api_key@ == config.api_key@,
                None => r matches Err(ClientError::InvalidServerUrl(_)),
            },
    {
        let base_url = match normalize_base_url(config.url.as_str()) {
            Ok(b) => b,
            Err(e) => {
                return Err(e);
            },
        };
        Ok(ServerApi { base_url, api_key: config.api_key.clone() })
    }

    /// The URL of an API path.
    pub fn endpoint(&self, path: &str) -> (r: String)
        ensures
            r@ == self.base_url@ + path@,
    {
        concat_str(self.base_url.as_str(), path)
    }

    /// The URL of a stored file: `/api/files/<uuid>`.
    pub fn file_endpoint(&self, id: u128) -> (r: String)
        ensures
            r@ == self.base_url@ + "/api/files/"@ + uuid_text_spec(id),
    {
        let head = self.endpoint("/api/files/");
        let id_text = uuid_text(id);
        concat_str(head.as_str(), id_text.as_str())
    }

    /// The URL of a stored file's content: `/api/files/<uuid>/download`.
    pub fn download_endpoint(&self, id: u128) -> (r: String)
        ensures
            r@ == self.base_url@ + "/api/files/"@ + uuid_text_spec(id) + "/download"@,
    {
        let head = self.file_endpoint(id);
        concat_str(head.as_str(), "/download")
    }

    /// The URL of the client's log entries: `/api/logs?limit=<n>`.
    pub fn logs_endpoint(&self, limit: u32) -> (r: String)
        ensures
            r@ == self.base_url@ + "/api/logs?limit="@ + decimal_spec(limit as nat),
    {
        let head = self.endpoint("/api/logs?limit=");
        let n = decimal_text(limit);
        concat_str(head.as_str(), n.as_str())
    }
}

/// The registration URL of a server.
pub fn registration_endpoint(server_url: &str) -> (r: ClientResult<String>)
    ensures
        match base_url_spec(server_url@) {
            Some(b) => r matches Ok(s) && s@ == b + "/api/clients/register"@,
            None => r matches Err(ClientError::InvalidServerUrl(_)),
        },
{
    let base = match normalize_base_url(server_url) {
        Ok(b) => b,
        Err(e) => {
            return Err(e);
        },
    };
    Ok(concat_str(base.as_str(), "/api/clients/register"))
}

/// The body of a registration: the name and the public key in standard base64.
pub fn registration_request(name: &str, public_key: &[u8]) -> (r: RegisterClientRequest)
    ensures
        r.name@ == name@,
        r.public_key@ == b64_standard_encode_spec(public_key@),
        b64_standard_decode_spec(r.public_key@) == Some(public_key@),
{
    RegisterClientRequest { name: name.to_owned(), public_key: b64_standard_encode(public_key) }
}

/// The body of an upload: the server path and the content in standard base64.
pub fn upload_request(remote_path: &str, content: &[u8]) -> (r: UploadFileRequest)
    ensures
        r.path@ == remote_path@,
        r.content_base64@ == b64_standard_encode_spec(content@),
        b64_standard_decode_spec(r.content_base64@) == Some(content@),
{
    UploadFileRequest { path: remote_path.to_owned(), content_base64: b64_standard_encode(content) }
}

/// Whether a status is a success (2xx).
pub fn status_is_success(status: u16) -> (r: bool)
    ensures
        r == (200 <= status && status <= 299),
{
    200 <= status && status <= 299
}

/// Whether a status answers a request that expects no body: `204 No
/// Content` or any other success.
pub fn empty_response_ok(status: u16) -> (r: bool)
    ensures
        r == (status == 204 || (200 <= status && status <= 299)),
{
    status == 204 || status_is_success(status)
}

/// The error for an unexpected status, with the response's text.
pub fn http_status_error(status: u16, body: String) -> (r: ClientError)
    ensures
        r == (ClientError::HttpStatus { status, body }),
{
    ClientError::HttpStatus { status, body }
}

/// Checks the server's health answer: a status other than `ok` is refused.
pub fn check_health(response: &HealthResponse) -> (r: ClientResult<()>)
    ensures
        response.status@ == "ok"@ ==> r is Ok,
        response.status@ != "ok"@ ==> (r matches Err(ClientError::InvalidConfig(m))
            && m@ == "Server health endpoint returned unexpected status '"@ + response.status@ + "'"@),
{
    if str_eq(response.status.as_str(), "ok") {
        Ok(())
    } else {
        let a = concat_str("Server health endpoint returned unexpected status '", response.status.as_str());
        Err(ClientError::InvalidConfig(concat_str(a.as_str(), "'")))
    }
}

} // verus!
