//! How the command line reaches the daemon: over its socket, or over HTTPS.
use vstd::prelude::*;
use vstd::string::StringSliceAdditionalSpecFns;
use vstd::utf8::encode_utf8;

use crate::admin::uds_client::{uds_message, UdsClient, UdsClientError, UdsFault, UdsRequest, UdsRequestView};
use crate::cli::output::{print, shown, Format};
use crate::json::{json_text, member, opt_json, parse, parsed_json, write_compact, Json, JsonView};
use crate::mtls::copy_bytes;
use crate::text::{
    cat, cat3, cat4, decimal, drop_trailing, lossy_text, pair_views, read_lossy, show_u64, starts,
    starts_with, trim_end_char,
};

verus! {

/// Why a command failed.
#[derive(Debug)]
pub enum CliError {
    /// An operator's command without an operator's token.
    MissingOpToken,
    /// An agent's command without an agent's token.
    MissingAgentToken,
    /// An agent's token that has no secret part.
    MalformedAgentToken,
    /// The socket failed.
    Transport(UdsClientError),
    /// HTTPS failed.
    HttpsTransport(String),
    /// The address of the daemon is none.
    InvalidAdminUrl(String),
    /// The daemon refused.
    Server { status: u16, body: String },
    /// The answer could not be read.
    Decode(String),
    /// A file could not be read or written.
    Io(String),
    /// The arguments cannot be used.
    Usage(String),
}

/// What a [`CliError`] says.
pub ghost enum CliFault {
    MissingOpToken,
    MissingAgentToken,
    MalformedAgentToken,
    Transport(UdsFault),
    HttpsTransport(Seq<char>),
    InvalidAdminUrl(Seq<char>),
    Server { status: u16, body: Seq<char> },
    Decode(Seq<char>),
    Io(Seq<char>),
    Usage(Seq<char>),
}

impl View for CliError {
    type V = CliFault;

    open spec fn view(&self) -> CliFault {
        match self {
            CliError::MissingOpToken => CliFault::MissingOpToken,
            CliError::MissingAgentToken => CliFault::MissingAgentToken,
            CliError::MalformedAgentToken => CliFault::MalformedAgentToken,
            CliError::Transport(e) => CliFault::Transport(e@),
            CliError::HttpsTransport(m) => CliFault::HttpsTransport(m@),
            CliError::InvalidAdminUrl(m) => CliFault::InvalidAdminUrl(m@),
            CliError::Server { status, body } => CliFault::Server { status: *status, body: body@ },
            CliError::Decode(m) => CliFault::Decode(m@),
            CliError::Io(m) => CliFault::Io(m@),
            CliError::Usage(m) => CliFault::Usage(m@),
        }
    }
}

/// The exit code of an error: 2 for arguments that cannot be used, 3 for a token
/// that is missing or refused, 4 for something that is not there, 5 for a
/// conflict, 1 for anything else.
pub open spec fn exit_code_of(e: CliFault) -> u8 {
    match e {
        CliFault::MissingOpToken | CliFault::MissingAgentToken | CliFault::MalformedAgentToken => 3,
        CliFault::Server { status, .. } => if status == 401 || status == 403 {
            3
        } else if status == 404 {
            4
        } else if status == 409 {
            5
        } else {
            1
        },
        CliFault::InvalidAdminUrl(_) | CliFault::Usage(_) => 2,
        _ => 1,
    }
}

/// The message of an error.
pub open spec fn cli_message(e: CliFault) -> Seq<char> {
    match e {
        CliFault::MissingOpToken => "LOCKSMITH_OP_TOKEN env var not set"@,
        CliFault::MissingAgentToken => "LOCKSMITH_AGENT_TOKEN env var not set"@,
        CliFault::MalformedAgentToken =>
            "LOCKSMITH_AGENT_TOKEN must be of form `lk_<id>.<secret>`"@,
        CliFault::Transport(u) => "transport: "@ + uds_message(u),
        CliFault::HttpsTransport(m) => "https transport: "@ + m,
        CliFault::InvalidAdminUrl(m) => "invalid admin URL: "@ + m,
        CliFault::Server { status, body } => "daemon returned "@ + decimal(status as nat) + ": "@
            + body,
        CliFault::Decode(m) => "decode response: "@ + m,
        CliFault::Io(m) => "io: "@ + m,
        CliFault::Usage(m) => "usage: "@ + m,
    }
}

impl CliError {
    /// The exit code of the error.
    pub fn exit_code(&self) -> (r: u8)
        ensures
            r == exit_code_of(self@),
    {
        match self {
            CliError::MissingOpToken
            | CliError::MissingAgentToken
            | CliError::MalformedAgentToken => 3,
            CliError::Server { status, .. } => if *status == 401 || *status == 403 {
                3
            } else if *status == 404 {
                4
            } else if *status == 409 {
                5
            } else {
                1
            },
            CliError::InvalidAdminUrl(_) | CliError::Usage(_) => 2,
            _ => 1,
        }
    }

    /// The message of the error.
    pub fn message(&self) -> (r: String)
        ensures
            r@ == cli_message(self@),
    {
        match self {
            CliError::MissingOpToken => "LOCKSMITH_OP_TOKEN env var not set".to_owned(),
            CliError::MissingAgentToken => "LOCKSMITH_AGENT_TOKEN env var not set".to_owned(),
            CliError::MalformedAgentToken =>
                "LOCKSMITH_AGENT_TOKEN must be of form `lk_<id>.<secret>`".to_owned(),
            CliError::Transport(u) => cat("transport: ", u.message().as_str()),
            CliError::HttpsTransport(m) => cat("https transport: ", m.as_str()),
            CliError::InvalidAdminUrl(m) => cat("invalid admin URL: ", m.as_str()),
            CliError::Server { status, body } => cat4(
                "daemon returned ",
                show_u64(*status as u64).as_str(),
                ": ",
                body.as_str(),
            ),
            CliError::Decode(m) => cat("decode response: ", m.as_str()),
            CliError::Io(m) => cat("io: ", m.as_str()),
            CliError::Usage(m) => cat("usage: ", m.as_str()),
        }
    }
}

/// Every command that fails exits with a code of its own kind, and none with the
/// code of success.
pub proof fn law_failure_shows_in_the_exit_code(e: CliFault)
    ensures
        1 <= exit_code_of(e) <= 5,
{
}

/// Whose token goes with a request.
pub enum Auth<'a> {
    Operator(&'a str),
    Agent(&'a str),
}

impl<'a> Auth<'a> {
    /// The token.
    pub open spec fn token(self) -> Seq<char> {
        match self {
            Auth::Operator(t) => t@,
            Auth::Agent(t) => t@,
        }
    }
}

/// `reqwest::Certificate`, carried through unopened.
#[verifier::external_type_specification]
#[verifier::external_body]
pub struct ExCertificate(reqwest::Certificate);

/// The text that a root certificate was read from.
pub uninterp spec fn root_pem(c: reqwest::Certificate) -> Seq<u8>;

/// `reqwest::Certificate::from_pem`: the certificate that a PEM text holds. Nothing
/// is promised on which texts it takes: that rests on the TLS library that
/// `reqwest` was built with.
#[verifier::external_body]
fn read_root(pem: &[u8]) -> (r: Result<reqwest::Certificate, String>)
    ensures
        r matches Ok(c) ==> root_pem(c) == pem@,
{
    reqwest::Certificate::from_pem(pem).map_err(|e| e.to_string())
}

/// The root certificate that a client was asked to trust besides those that it
/// knows.
pub uninterp spec fn extra_root(c: reqwest::Client) -> Option<reqwest::Certificate>;

/// `reqwest::Client::builder`, with `add_root_certificate` where there is one, then
/// `build`. Nothing is promised on whether it can be built: that rests on the
/// machine.
#[verifier::external_body]
fn build_https(root: Option<reqwest::Certificate>) -> (r: Result<reqwest::Client, String>)
    ensures
        r matches Ok(c) ==> extra_root(c) == root,
{
    let builder = reqwest::Client::builder();
    let builder = match root {
        Some(c) => builder.add_root_certificate(c),
        None => builder,
    };
    builder.build().map_err(|e| e.to_string())
}

/// The error of a step on the way to an HTTPS client, which begins with what the step is.
pub open spec fn https_fault(step: Seq<char>, m: Seq<char>) -> CliFault {
    CliFault::HttpsTransport(step + m)
}

/// Whether an error is that of a step on the way to an HTTPS client.
pub open spec fn failed_at(step: Seq<char>, e: CliFault) -> bool {
    exists|m: Seq<char>| e == #[trigger] https_fault(step, m)
}

/// The root certificate that is to be trusted, given what reading its text came to.
pub fn root_or_refuse(read: Result<reqwest::Certificate, String>) -> (r: Result<
    reqwest::Certificate,
    CliError,
>)
    ensures
        match read {
            Ok(c) => r == Ok::<reqwest::Certificate, CliError>(c),
            Err(m) => r matches Err(e) && e@ == https_fault("CA bundle: "@, m@),
        },
{
    match read {
        Ok(c) => Ok(c),
        Err(e) => Err(CliError::HttpsTransport(cat("CA bundle: ", e.as_str()))),
    }
}

enum Transport {
    Uds(UdsClient),
    Https { client: reqwest::Client, base_url: String },
}

/// Where requests go: to a socket, or to an address with a root certificate that is
/// trusted besides.
pub ghost enum Endpoint {
    Socket(Seq<char>),
    Url { base: Seq<char>, root: Option<Seq<u8>> },
}

/// A way to the daemon.
pub struct CliClient {
    transport: Transport,
}

/// A request over HTTPS, with the client that sends it.
pub struct HttpsRequest {
    pub client: reqwest::Client,
    pub method: String,
    pub url: String,
    pub headers: Vec<(String, String)>,
    pub body: Option<Vec<u8>>,
}

/// A request as it is sent.
pub enum Outgoing {
    Uds(UdsRequest),
    Https(HttpsRequest),
}

/// What an [`Outgoing`] says.
pub ghost enum OutgoingView {
    Uds(UdsRequestView),
    Https {
        root: Option<Seq<u8>>,
        method: Seq<char>,
        url: Seq<char>,
        headers: Seq<(Seq<char>, Seq<char>)>,
        body: Option<Seq<u8>>,
    },
}

/// The text of the root certificate that a client trusts besides.
pub open spec fn root_of(c: reqwest::Client) -> Option<Seq<u8>> {
    match extra_root(c) {
        Some(cert) => Some(root_pem(cert)),
        None => None,
    }
}

impl View for Outgoing {
    type V = OutgoingView;

    open spec fn view(&self) -> OutgoingView {
        match self {
            Outgoing::Uds(r) => OutgoingView::Uds(r@),
            Outgoing::Https(r) => OutgoingView::Https {
                root: root_of(r.client),
                method: r.method@,
                url: r.url@,
                headers: pair_views(r.headers@),
                body: match r.body {
                    Some(b) => Some(b@),
                    None => None,
                },
            },
        }
    }
}

/// The headers of a request: the token, and with a body its type.
pub open spec fn request_headers(token: Seq<char>, has_body: bool) -> Seq<(Seq<char>, Seq<char>)> {
    let auth = seq![("authorization"@, "Bearer "@ + token)];
    if has_body {
        auth.push(("content-type"@, "application/json"@))
    } else {
        auth
    }
}

/// The bytes of a body: its JSON text.
pub open spec fn body_bytes(body: Option<JsonView>) -> Option<Seq<u8>> {
    match body {
        Some(j) => Some(encode_utf8(json_text(j))),
        None => None,
    }
}

/// The request that goes to an endpoint.
pub open spec fn sent(
    to: Endpoint,
    method: Seq<char>,
    path: Seq<char>,
    token: Seq<char>,
    body: Option<JsonView>,
) -> OutgoingView {
    let headers = request_headers(token, body is Some);
    match to {
        Endpoint::Socket(socket) => OutgoingView::Uds(
            UdsRequestView {
                socket,
                method,
                path,
                headers: seq![("host"@, "locksmith.local"@)] + headers,
                body: match body_bytes(body) {
                    Some(b) => b,
                    None => Seq::empty(),
                },
            },
        ),
        Endpoint::Url { base, root } => OutgoingView::Https {
            root,
            method,
            url: base + path,
            headers,
            body: body_bytes(body),
        },
    }
}

/// Whether an address can be one of the daemon.
pub open spec fn admin_url(url: Seq<char>) -> bool {
    starts(url, "https://"@) || starts(url, "http://"@)
}

/// The answer to a request whose body is read: the document, or the error.
pub open spec fn answered(status: u16, bytes: Seq<u8>) -> Result<JsonView, CliFault> {
    if !(200 <= status < 300) {
        Err(CliFault::Server { status, body: lossy_text(bytes) })
    } else {
        match parsed_json(bytes) {
            Ok(j) => Ok(j),
            Err(e) => Err(CliFault::Decode(e)),
        }
    }
}

impl CliClient {
    /// Where requests go.
    pub closed spec fn endpoint(self) -> Endpoint {
        match self.transport {
            Transport::Uds(u) => Endpoint::Socket(u.path()),
            Transport::Https { client, base_url } => Endpoint::Url {
                base: base_url@,
                root: root_of(client),
            },
        }
    }

    /// A client of the socket at a path.
    pub fn new(socket: &str) -> (r: CliClient)
        ensures
            r.endpoint() == Endpoint::Socket(socket@),
    {
        CliClient { transport: Transport::Uds(UdsClient::new(socket)) }
    }

    /// The client that the options ask for: with an address it goes there, and
    /// trusts the root certificate whose text was read, where one was named; with
    /// none it goes to the socket. An address that begins neither with `https://`
    /// nor with `http://` is refused, and so is a certificate that could not be
    /// read. Of an address that is taken nothing more is promised than where the
    /// client goes: whether it can be built rests on the machine.
    pub fn from_options(
        socket: &str,
        admin_url: Option<&str>,
        ca_bundle: Option<Result<Vec<u8>, String>>,
    ) -> (r: Result<CliClient, CliError>)
        ensures
            match admin_url {
                None => r matches Ok(c) && c.endpoint() == Endpoint::Socket(socket@),
                Some(url) => if !self::admin_url(url@) {
                    r matches Err(e) && e@ == CliFault::InvalidAdminUrl(
                        "must start with https:// (got "@ + url@ + ")"@,
                    )
                } else {
                    match ca_bundle {
                        Some(Err(io)) => r matches Err(e) && e@ == CliFault::Io(io@),
                        Some(Ok(pem)) => match r {
                            Ok(c) => c.endpoint() == (Endpoint::Url {
                                base: drop_trailing(url@, '/'),
                                root: Some(pem@),
                            }),
                            Err(e) => failed_at("CA bundle: "@, e@) || failed_at(
                                "client build: "@,
                                e@,
                            ),
                        },
                        None => match r {
                            Ok(c) => c.endpoint() == (Endpoint::Url {
                                base: drop_trailing(url@, '/'),
                                root: None,
                            }),
                            Err(e) => failed_at("client build: "@, e@),
                        },
                    }
                },
            },
    {
        let url = match admin_url {
            Some(u) => u,
            None => return Ok(CliClient::new(socket)),
        };
        if !(starts_with(url, "https://") || starts_with(url, "http://")) {
            return Err(
                CliError::InvalidAdminUrl(cat3("must start with https:// (got ", url, ")")),
            );
        }
        let root = match ca_bundle {
            Some(Ok(pem)) => match root_or_refuse(read_root(pem.as_slice())) {
                Ok(c) => Some(c),
                Err(e) => return Err(e),
            },
            Some(Err(e)) => return Err(CliError::Io(e)),
            None => None,
        };
        CliClient::over_https(url, build_https(root))
    }

    /// A client of the daemon at an address, given what the building of an HTTPS client
    /// came to.
    pub fn over_https(url: &str, built: Result<reqwest::Client, String>) -> (r: Result<
        CliClient,
        CliError,
    >)
        ensures
            match built {
                Ok(c) => r matches Ok(x) && x.endpoint() == (Endpoint::Url {
                    base: drop_trailing(url@, '/'),
                    root: root_of(c),
                }),
                Err(m) => r matches Err(e) && e@ == https_fault("client build: "@, m@),
            },
    {
        match built {
            Ok(client) => {
                let base_url = trim_end_char(url, '/');
                Ok(CliClient { transport: Transport::Https { client, base_url } })
            },
            Err(e) => Err(CliError::HttpsTransport(cat("client build: ", e.as_str()))),
        }
    }

    /// The operator's token, as it was found.
    pub fn op_token(found: Option<String>) -> (r: Result<String, CliError>)
        ensures
            match found {
                Some(t) => r matches Ok(s) && s@ == t@,
                None => r matches Err(e) && e@ == CliFault::MissingOpToken,
            },
    {
        match found {
            Some(t) => Ok(t),
            None => Err(CliError::MissingOpToken),
        }
    }

    /// The agent's token, as it was found.
    pub fn agent_token(found: Option<String>) -> (r: Result<String, CliError>)
        ensures
            match found {
                Some(t) => r matches Ok(s) && s@ == t@,
                None => r matches Err(e) && e@ == CliFault::MissingAgentToken,
            },
    {
        match found {
            Some(t) => Ok(t),
            None => Err(CliError::MissingAgentToken),
        }
    }

    /// The request to send.
    pub fn raw(&self, method: &str, path: &str, auth: Auth<'_>, body: Option<&Json>) -> (r:
        Outgoing)
        ensures
            r@ == sent(
                self.endpoint(),
                method@,
                path@,
                auth.token(),
                match body {
                    Some(j) => Some(j@),
                    None => None,
                },
            ),
    {
        let token = match auth {
            Auth::Operator(t) => t,
            Auth::Agent(t) => t,
        };
        let mut headers: Vec<(String, String)> = Vec::new();
        headers.push(("authorization".to_owned(), cat("Bearer ", token)));
        assert(pair_views(headers@) =~= request_headers(token@, false));
        let bytes = match body {
            Some(j) => {
                headers.push(("content-type".to_owned(), "application/json".to_owned()));
                assert(pair_views(headers@) =~= request_headers(token@, true));
                let t = write_compact(j);
                Some(copy_bytes(t.as_str().as_bytes()))
            },
            None => None,
        };
        match &self.transport {
            Transport::Uds(u) => Outgoing::Uds(u.request(method, path, &headers, bytes)),
            Transport::Https { client, base_url } => Outgoing::Https(
                HttpsRequest {
                    client: same_client(client),
                    method: method.to_owned(),
                    url: cat(base_url.as_str(), path),
                    headers,
                    body: bytes,
                },
            ),
        }
    }

    /// The document that an answer holds. An answer whose status is none of success
    /// is an error, and so is one that is no JSON.
    pub fn json(status: u16, bytes: &[u8]) -> (r: Result<Json, CliError>)
        ensures
            match r {
                Ok(j) => answered(status, bytes@) == Ok::<JsonView, CliFault>(j@),
                Err(e) => answered(status, bytes@) == Err::<JsonView, CliFault>(e@),
            },
    {
        if !(200 <= status && status < 300) {
            return Err(CliError::Server { status, body: read_lossy(bytes) });
        }
        match parse(bytes) {
            Ok(j) => Ok(j),
            Err(e) => Err(CliError::Decode(e)),
        }
    }

    /// An answer whose body does not count.
    pub fn unit(status: u16, bytes: &[u8]) -> (r: Result<(), CliError>)
        ensures
            match r {
                Ok(()) => 200 <= status < 300,
                Err(e) => !(200 <= status < 300) && e@ == (CliFault::Server {
                    status,
                    body: lossy_text(bytes@),
                }),
            },
    {
        if !(200 <= status && status < 300) {
            return Err(CliError::Server { status, body: read_lossy(bytes) });
        }
        Ok(())
    }
}

/// The `Clone` of `reqwest::Client`: a handle to the same client.
#[verifier::external_body]
fn same_client(c: &reqwest::Client) -> (r: reqwest::Client)
    ensures
        r == *c,
{
    c.clone()
}

/// What is shown of an answer.
pub enum Answer {
    /// The document.
    Whole,
    /// One member of the document.
    Member(&'static str),
    /// One member of the document, as YAML where a table was asked for.
    Export(&'static str),
    /// Nothing; the body does not count.
    Nothing,
    /// A document of its own; the body does not count.
    Own(Json),
}

/// What an [`Answer`] says.
pub ghost enum AnswerView {
    Whole,
    Member(Seq<char>),
    Export(Seq<char>),
    Nothing,
    Own(JsonView),
}

impl View for Answer {
    type V = AnswerView;

    open spec fn view(&self) -> AnswerView {
        match self {
            Answer::Whole => AnswerView::Whole,
            Answer::Member(k) => AnswerView::Member(k@),
            Answer::Export(k) => AnswerView::Export(k@),
            Answer::Nothing => AnswerView::Nothing,
            Answer::Own(j) => AnswerView::Own(j@),
        }
    }
}

/// What a command asks of the daemon, and what it shows of the answer.
pub struct Call {
    pub method: &'static str,
    pub path: String,
    pub by_agent: bool,
    pub token: String,
    pub body: Option<Json>,
    pub answer: Answer,
}

/// What a [`Call`] says.
#[verifier::ext_equal]
pub ghost struct CallView {
    pub method: Seq<char>,
    pub path: Seq<char>,
    pub by_agent: bool,
    pub token: Seq<char>,
    pub body: Option<JsonView>,
    pub answer: AnswerView,
}

impl View for Call {
    type V = CallView;

    open spec fn view(&self) -> CallView {
        CallView {
            method: self.method@,
            path: self.path@,
            by_agent: self.by_agent,
            token: self.token@,
            body: opt_json(self.body),
            answer: self.answer@,
        }
    }
}

/// A call of an operator.
pub open spec fn op_call(
    method: Seq<char>,
    path: Seq<char>,
    token: Seq<char>,
    body: Option<JsonView>,
    answer: AnswerView,
) -> CallView {
    CallView { method, path, by_agent: false, token, body, answer }
}

/// The member of a document, or null.
pub open spec fn member_or_null(j: JsonView, key: Seq<char>) -> JsonView {
    match member(j, key) {
        Some(v) => v,
        None => JsonView::Null,
    }
}

/// The form in which a document is exported: a table is none, YAML takes its place.
pub open spec fn export_format(format: Format) -> Format {
    match format {
        Format::Json => Format::Json,
        _ => Format::Yaml,
    }
}

/// What is written for an answer.
pub open spec fn outcome(answer: AnswerView, status: u16, bytes: Seq<u8>, format: Format) -> Result<
    Seq<char>,
    CliFault,
> {
    match answer {
        AnswerView::Nothing => if 200 <= status < 300 {
            Ok(Seq::empty())
        } else {
            Err(CliFault::Server { status, body: lossy_text(bytes) })
        },
        AnswerView::Own(j) => if 200 <= status < 300 {
            Ok(shown(j, format))
        } else {
            Err(CliFault::Server { status, body: lossy_text(bytes) })
        },
        _ => match answered(status, bytes) {
            Err(e) => Err(e),
            Ok(j) => Ok(
                match answer {
                    AnswerView::Member(k) => shown(member_or_null(j, k), format),
                    AnswerView::Export(k) => shown(member_or_null(j, k), export_format(format)),
                    _ => shown(j, format),
                },
            ),
        },
    }
}

fn member_of(j: &Json, key: &str) -> (r: Json)
    ensures
        r@ == member_or_null(j@, key@),
{
    match j.get(key) {
        Some(v) => v.copy(),
        None => Json::Null,
    }
}

impl Call {
    /// A call of an operator.
    pub fn operator(
        method: &'static str,
        path: String,
        token: String,
        body: Option<Json>,
        answer: Answer,
    ) -> (r: Call)
        ensures
            r@ == op_call(method@, path@, token@, opt_json(body), answer@),
    {
        Call { method, path, by_agent: false, token, body, answer }
    }

    /// The request to send through a client.
    pub fn outgoing(&self, client: &CliClient) -> (r: Outgoing)
        ensures
            r@ == sent(client.endpoint(), self@.method, self@.path, self@.token, self@.body),
    {
        let auth = if self.by_agent {
            Auth::Agent(self.token.as_str())
        } else {
            Auth::Operator(self.token.as_str())
        };
        client.raw(self.method, self.path.as_str(), auth, self.body.as_ref())
    }

    /// The text to write for the answer.
    pub fn finish(&self, status: u16, bytes: &[u8], format: Format) -> (r: Result<String, CliError>)
        ensures
            match r {
                Ok(s) => outcome(self@.answer, status, bytes@, format) == Ok::<
                    Seq<char>,
                    CliFault,
                >(s@),
                Err(e) => outcome(self@.answer, status, bytes@, format) == Err::<
                    Seq<char>,
                    CliFault,
                >(e@),
            },
    {
        match &self.answer {
            Answer::Nothing => match CliClient::unit(status, bytes) {
                Ok(()) => Ok(String::new()),
                Err(e) => Err(e),
            },
            Answer::Own(j) => match CliClient::unit(status, bytes) {
                Ok(()) => Ok(print(j, format)),
                Err(e) => Err(e),
            },
            Answer::Whole => match CliClient::json(status, bytes) {
                Ok(j) => Ok(print(&j, format)),
                Err(e) => Err(e),
            },
            Answer::Member(k) => match CliClient::json(status, bytes) {
                Ok(j) => Ok(print(&member_of(&j, k), format)),
                Err(e) => Err(e),
            },
            Answer::Export(k) => match CliClient::json(status, bytes) {
                Ok(j) => {
                    let form = match format {
                        Format::Json => Format::Json,
                        Format::Yaml | Format::Table => Format::Yaml,
                    };
                    Ok(print(&member_of(&j, k), form))
                },
                Err(e) => Err(e),
            },
        }
    }
}

/// Faults of the caller's credential end with 3, of the command line with 2, a thing that is
/// not there with 4, one in the way with 5, and all others with 1.
pub proof fn law_exit_codes(e: CliError)
    ensures
        exit_code_of(e@) == 3 <==> e is MissingOpToken || e is MissingAgentToken
            || e is MalformedAgentToken || (e matches CliError::Server { status, .. } && (status
            == 401 || status == 403)),
        exit_code_of(e@) == 2 <==> e is InvalidAdminUrl || e is Usage,
        exit_code_of(e@) == 4 <==> (e matches CliError::Server { status, .. } && status == 404),
        exit_code_of(e@) == 5 <==> (e matches CliError::Server { status, .. } && status == 409),
{
}

/// What is sent has the method and path of the call, the token as a bearer token, and the
/// body as JSON; it goes to the socket, or to the path below the given address.
pub proof fn law_calls_are_sent_as_they_are(
    socket: Seq<char>,
    base: Seq<char>,
    root: Option<Seq<u8>>,
    method: Seq<char>,
    path: Seq<char>,
    token: Seq<char>,
    body: Option<JsonView>,
)
    ensures
        sent(Endpoint::Socket(socket), method, path, token, body) matches OutgoingView::Uds(r) && {
            &&& r.socket == socket && r.method == method && r.path == path
            &&& r.headers.contains(("authorization"@, "Bearer "@ + token))
            &&& body is Some <==> r.headers.contains(("content-type"@, "application/json"@))
            &&& body matches Some(j) ==> r.body == encode_utf8(json_text(j))
            &&& body is None ==> r.body.len() == 0
        },
        sent(Endpoint::Url { base, root }, method, path, token, body) matches OutgoingView::Https {
            root: trusted,
            method: m,
            url,
            headers,
            body: b,
        } && {
            &&& trusted == root && m == method && url == base + path
            &&& headers.contains(("authorization"@, "Bearer "@ + token))
            &&& body is Some <==> headers.contains(("content-type"@, "application/json"@))
            &&& body matches Some(j) ==> b == Some(encode_utf8(json_text(j)))
            &&& body is None ==> b is None
        },
{
    reveal_strlit("authorization");
    reveal_strlit("content-type");
    reveal_strlit("host");
    assert("authorization"@.len() == 13 && "content-type"@.len() == 12 && "host"@.len() == 4);
    let h = request_headers(token, body is Some);
    let all = seq![("host"@, "locksmith.local"@)] + h;
    assert(h[0] == ("authorization"@, "Bearer "@ + token));
    assert(all[1] == h[0]);
    assert(all[0].0 == "host"@);
    if body is Some {
        assert(h[1] == ("content-type"@, "application/json"@));
        assert(all[2] == h[1]);
    }
}

/// An address has to be one of HTTPS or HTTP.
pub proof fn law_admin_addresses(rest: Seq<char>, url: Seq<char>)
    ensures
        admin_url("https://"@ + rest),
        admin_url("http://"@ + rest),
        admin_url(url) ==> url.len() >= 7 && (url.take(7) == "http://"@ || (url.len() >= 8
            && url.take(8) == "https://"@)),
{
    reveal_strlit("https://");
    reveal_strlit("http://");
    assert(("https://"@ + rest).take(8) =~= "https://"@);
    assert(("http://"@ + rest).take(7) =~= "http://"@);
}

/// An answer succeeds exactly with a status from 200 to 299; any other is told with its
/// status and text.
pub proof fn law_answers_succeed_by_status(
    answer: AnswerView,
    status: u16,
    bytes: Seq<u8>,
    format: Format,
    own: JsonView,
    key: Seq<char>,
    j: JsonView,
)
    ensures
        !(200 <= status <= 299) ==> outcome(answer, status, bytes, format) == Err::<
            Seq<char>,
            CliFault,
        >(CliFault::Server { status, body: lossy_text(bytes) }),
        200 <= status <= 299 ==> {
            &&& outcome(AnswerView::Nothing, status, bytes, format) == Ok::<Seq<char>, CliFault>(
                Seq::empty(),
            )
            &&& outcome(AnswerView::Own(own), status, bytes, format) == Ok::<Seq<char>, CliFault>(
                shown(own, format),
            )
            &&& parsed_json(bytes) is Err ==> (outcome(
                AnswerView::Whole,
                status,
                bytes,
                format,
            ) matches Err(e) && e is Decode)
            &&& parsed_json(bytes) == Ok::<JsonView, Seq<char>>(j) ==> {
                &&& outcome(AnswerView::Whole, status, bytes, format) == Ok::<Seq<char>, CliFault>(
                    shown(j, format),
                )
                &&& member(j, key) matches Some(v) ==> outcome(
                    AnswerView::Member(key),
                    status,
                    bytes,
                    format,
                ) == Ok::<Seq<char>, CliFault>(shown(v, format))
                &&& member(j, key) matches Some(v) ==> outcome(
                    AnswerView::Export(key),
                    status,
                    bytes,
                    Format::Table,
                ) == Ok::<Seq<char>, CliFault>(shown(v, Format::Yaml))
                &&& member(j, key) matches Some(v) ==> outcome(
                    AnswerView::Export(key),
                    status,
                    bytes,
                    Format::Json,
                ) == Ok::<Seq<char>, CliFault>(shown(v, Format::Json))
            }
        },
{
}

/// The message of an error ends in what is known of its cause: the text that came back, or
/// what the transport said. The one about a refusal begins with the daemon's status.
pub proof fn law_messages_end_in_the_cause(m: Seq<char>, status: u16, u: UdsFault)
    ensures
        crate::text::ends_in(cli_message(CliFault::HttpsTransport(m)), m),
        crate::text::ends_in(cli_message(CliFault::InvalidAdminUrl(m)), m),
        crate::text::ends_in(cli_message(CliFault::Decode(m)), m),
        crate::text::ends_in(cli_message(CliFault::Io(m)), m),
        crate::text::ends_in(cli_message(CliFault::Usage(m)), m),
        crate::text::ends_in(cli_message(CliFault::Transport(u)), uds_message(u)),
        cli_message(CliFault::Server { status, body: m }) == "daemon returned "@ + decimal(
            status as nat,
        ) + ": "@ + m,
        cli_message(CliFault::MissingOpToken) != cli_message(CliFault::MissingAgentToken),
{
    broadcast use crate::text::lemma_ends_in;

    reveal_strlit("LOCKSMITH_OP_TOKEN env var not set");
    reveal_strlit("LOCKSMITH_AGENT_TOKEN env var not set");
    assert("LOCKSMITH_OP_TOKEN env var not set"@.len()
        != "LOCKSMITH_AGENT_TOKEN env var not set"@.len());
}

/// The root that a client trusts besides is the one that it was built with.
pub proof fn law_trusted_root_is_the_given_one(c: reqwest::Client, cert: reqwest::Certificate)
    ensures
        extra_root(c) == Some(cert) ==> root_of(c) == Some(root_pem(cert)),
        extra_root(c) is None ==> root_of(c) is None,
{
}

} // verus!
