//! A sink that sends commands straight to the world server's HTTP API.
//!
//! What is sent, and what is made of the answer, is decided here. The connection is
//! left to the caller.
use vstd::prelude::*;

use crate::config::Config;
use crate::error;
use crate::error::AppError;
use crate::error::Failure;
use crate::json;
use crate::state::QueueCommand;
use crate::state::QueueCommandView;
use crate::state::QueueReceipt;
use crate::state::QueueReceiptView;
use crate::text;

verus! {

/// The parts of a URL that the sink reads.
pub struct Url {
    pub scheme: Option<String>,
    pub host: Option<String>,
    pub port: Option<u16>,
    pub path: String,
}

/// The model of a [`Url`].
pub struct UrlView {
    pub scheme: Option<Seq<char>>,
    pub host: Option<Seq<char>>,
    pub port: Option<u16>,
    pub path: Seq<char>,
}

impl View for Url {
    type V = UrlView;

    open spec fn view(&self) -> UrlView {
        UrlView {
            scheme: self.scheme.deep_view(),
            host: self.host.deep_view(),
            port: self.port,
            path: self.path@,
        }
    }
}

/// What `http` parses a text into as a URI, or the text of its error.
pub uninterp spec fn parsed_url(s: Seq<char>) -> Result<UrlView, Seq<char>>;

/// `<http::Uri as FromStr>::from_str`, and `scheme_str`, `host`, `port_u16` and
/// `path` of the URI: what they give, or how the error reads, depends on the text
/// alone.
#[verifier::external_body]
fn parse_url(s: &str) -> (r: Result<Url, String>)
    ensures
        match r {
            Ok(url) => parsed_url(s@) == Ok::<UrlView, Seq<char>>(url@),
            Err(e) => parsed_url(s@) == Err::<UrlView, Seq<char>>(e@),
        },
{
    match s.parse::<http::Uri>() {
        Ok(uri) => Ok(Url {
            scheme: uri.scheme_str().map(String::from),
            host: uri.host().map(String::from),
            port: uri.port_u16(),
            path: uri.path().to_string(),
        }),
        Err(error) => Err(error.to_string()),
    }
}

/// The world server, and how to talk to it.
#[derive(Clone)]
pub struct DirectWorldHttpSink {
    world_base_url: String,
    world_api_key: String,
    host: String,
    port: u16,
    base_path: String,
    timeout_seconds: u64,
}

/// The model of a [`DirectWorldHttpSink`].
pub struct WorldView {
    pub base_url: Seq<char>,
    pub api_key: Seq<char>,
    pub host: Seq<char>,
    pub port: u16,
    pub base_path: Seq<char>,
    pub timeout_seconds: u64,
}

impl View for DirectWorldHttpSink {
    type V = WorldView;

    closed spec fn view(&self) -> WorldView {
        WorldView {
            base_url: self.world_base_url@,
            api_key: self.world_api_key@,
            host: self.host@,
            port: self.port,
            base_path: self.base_path@,
            timeout_seconds: self.timeout_seconds,
        }
    }
}

/// The world server that a configuration names, or what is wrong with it. A URL
/// without a port means port 80, and one without a path the root.
pub open spec fn world_of(
    base_url: Option<Seq<char>>,
    api_key: Option<Seq<char>>,
    timeout_seconds: u64,
) -> Result<WorldView, Failure> {
    match (base_url, api_key) {
        (None, _) => Err(
            Failure::Dependency(
                "GM_TOOL_WORLD_BASE_URL is required in direct_world_http mode"@,
            ),
        ),
        (Some(_), None) => Err(
            Failure::Dependency("GM_TOOL_WORLD_API_KEY is required in direct_world_http mode"@),
        ),
        (Some(base_url), Some(api_key)) => {
            world_at(parsed_url(base_url), base_url, api_key, timeout_seconds)
        },
    }
}

/// The world server at a URL, where `url` is what the URL reads as.
pub open spec fn world_at(
    url: Result<UrlView, Seq<char>>,
    base_url: Seq<char>,
    api_key: Seq<char>,
    timeout_seconds: u64,
) -> Result<WorldView, Failure> {
    match url {
        Err(error) => Err(Failure::Dependency("invalid GM_TOOL_WORLD_BASE_URL: "@ + error)),
        Ok(url) => {
            if url.scheme != Some("http"@) {
                Err(Failure::Dependency("GM_TOOL_WORLD_BASE_URL must use http scheme"@))
            } else {
                match url.host {
                    None => Err(
                        Failure::Dependency("GM_TOOL_WORLD_BASE_URL must include a host"@),
                    ),
                    Some(host) => Ok(
                        WorldView {
                            base_url,
                            api_key,
                            host,
                            port: match url.port {
                                Some(port) => port,
                                None => 80,
                            },
                            base_path: if url.path.len() == 0 {
                                "/"@
                            } else {
                                url.path
                            },
                            timeout_seconds: if timeout_seconds < 1 {
                                1
                            } else {
                                timeout_seconds
                            },
                        },
                    ),
                }
            }
        },
    }
}

impl WorldView {
    /// The path of an API under the base path.
    pub open spec fn path(self, suffix: Seq<char>) -> Seq<char> {
        if self.base_path == "/"@ {
            suffix
        } else {
            text::without_trailing(self.base_path, '/') + suffix
        }
    }

    /// The HTTP request for a method, a path and a body. An empty body is left out,
    /// with the headers that describe it.
    pub open spec fn request(self, method: Seq<char>, path: Seq<char>, body: Seq<char>) -> Seq<char> {
        let head = method + " "@ + path + " HTTP/1.1\r\nHost: "@ + self.host
            + "\r\nX-API-Key: "@ + self.api_key;
        if body.len() == 0 {
            head + "\r\nConnection: close\r\n\r\n"@
        } else {
            head + "\r\nContent-Type: application/json\r\nContent-Length: "@ + text::decimal(
                vstd::utf8::encode_utf8(body).len(),
            ) + "\r\nConnection: close\r\n\r\n"@ + body
        }
    }
}

/// What a connection was being used for when it failed.
#[derive(Clone, Copy, Debug, PartialEq, Eq, Structural)]
pub enum TransportStage {
    Connect,
    SetReadTimeout,
    SetWriteTimeout,
    Write,
    Flush,
    Read,
}

/// How a connection failed.
#[derive(Debug)]
pub struct TransportError {
    pub stage: TransportStage,
    pub error: String,
}

/// The model of a [`TransportError`].
pub struct TransportErrorView {
    pub stage: TransportStage,
    pub error: Seq<char>,
}

impl View for TransportError {
    type V = TransportErrorView;

    open spec fn view(&self) -> TransportErrorView {
        TransportErrorView { stage: self.stage, error: self.error@ }
    }
}

/// How an exchange with the world server went: its answer, or how the connection
/// failed.
pub open spec fn answered(r: Result<String, TransportError>) -> Result<
    Seq<char>,
    TransportErrorView,
> {
    match r {
        Ok(response) => Ok(response@),
        Err(error) => Err(error@),
    }
}

impl TransportErrorView {
    /// The failure that a failed connection to the server at `base_url` means.
    pub open spec fn failure(self, base_url: Seq<char>) -> Failure {
        match self.stage {
            TransportStage::Connect => Failure::Dependency(
                "failed to connect to "@ + base_url + ": "@ + self.error,
            ),
            TransportStage::SetReadTimeout => Failure::Dependency(
                "failed to set read timeout: "@ + self.error,
            ),
            TransportStage::SetWriteTimeout => Failure::Dependency(
                "failed to set write timeout: "@ + self.error,
            ),
            TransportStage::Write => Failure::Upstream(
                "failed to write world API request: "@ + self.error,
            ),
            TransportStage::Flush => Failure::Upstream(
                "failed to flush world API request: "@ + self.error,
            ),
            TransportStage::Read => Failure::Upstream(
                "failed to read world API response: "@ + self.error,
            ),
        }
    }
}

/// The headers of an HTTP answer: what stands before the first blank line.
pub open spec fn response_head(response: Seq<char>) -> Seq<char> {
    match text::position(response, "\r\n\r\n"@) {
        Some(end) => response.take(end as int),
        None => response,
    }
}

/// The body of an HTTP answer: what stands after the first blank line.
pub open spec fn response_body(response: Seq<char>) -> Seq<char> {
    match text::position(response, "\r\n\r\n"@) {
        Some(end) => response.skip((end + "\r\n\r\n"@.len()) as int),
        None => Seq::empty(),
    }
}

/// The status and the body of an HTTP answer.
pub open spec fn response_parts(response: Seq<char>) -> Result<(u16, Seq<char>), Failure> {
    let status_line = text::first_line(response_head(response));
    match text::unsigned(text::second_word(status_line), u16::MAX as nat) {
        Some(status) => Ok((status as u16, response_body(response))),
        None => Err(Failure::Upstream("unexpected world API status line: "@ + status_line)),
    }
}

/// The status and the body that the world server answered with, or why there are
/// none.
pub open spec fn performed(answer: Result<Seq<char>, TransportErrorView>, base_url: Seq<char>) -> Result<
    (u16, Seq<char>),
    Failure,
> {
    match answer {
        Err(error) => Err(error.failure(base_url)),
        Ok(response) => response_parts(response),
    }
}

/// What an answer to a health check means.
pub open spec fn health(r: Result<(u16, Seq<char>), Failure>) -> Result<(), Failure> {
    match r {
        Err(failure) => Err(failure),
        Ok((status, body)) => {
            if status == 200 {
                Ok(())
            } else {
                Err(
                    Failure::Upstream(
                        "world API healthcheck returned "@ + text::decimal(status as nat) + ": "@
                            + text::trimmed(body),
                    ),
                )
            }
        },
    }
}

/// What an answer to a command means.
pub open spec fn command_receipt(
    request: QueueCommandView,
    r: Result<(u16, Seq<char>), Failure>,
) -> Result<QueueReceiptView, Failure> {
    match r {
        Err(failure) => Err(failure),
        Ok((status, body)) => {
            if status == 200 || status == 201 || status == 202 {
                Ok(request.receipt(0))
            } else {
                Err(
                    Failure::Upstream(
                        "world API command call returned "@ + text::decimal(status as nat) + ": "@
                            + text::trimmed(body),
                    ),
                )
            }
        },
    }
}

/// The body of the request that sends a command.
pub open spec fn command_body(command: Seq<char>) -> Seq<char> {
    json::json_object(map!["command"@ => json::json_string(command)])
}

/// The text `message`, followed by a status, a colon and a body without the white
/// space around it.
fn status_message(message: &str, status: u16, body: &str) -> (r: String)
    ensures
        r@ == message@ + text::decimal(status as nat) + ": "@ + text::trimmed(body@),
{
    let mut r = message.to_owned();
    r.append(text::to_decimal(status as u64).as_str());
    r.append(": ");
    r.append(text::trim(body));
    r
}

/// The world server at a URL, from what the URL reads as.
pub fn world_sink(
    url: Result<Url, String>,
    world_base_url: String,
    world_api_key: String,
    timeout_seconds: u64,
) -> (r: Result<DirectWorldHttpSink, AppError>)
    ensures
        error::outcome(r) == world_at(
            match url {
                Ok(url) => Ok(url@),
                Err(error) => Err(error@),
            },
            world_base_url@,
            world_api_key@,
            timeout_seconds,
        ),
{
    let url = match url {
        Ok(url) => url,
        Err(error) => {
            let mut message = "invalid GM_TOOL_WORLD_BASE_URL: ".to_owned();
            message.append(error.as_str());
            return Err(AppError::Dependency(message));
        },
    };
    let is_http = match &url.scheme {
        Some(scheme) => text::same(scheme.as_str(), "http"),
        None => false,
    };
    if !is_http {
        return Err(
            AppError::Dependency("GM_TOOL_WORLD_BASE_URL must use http scheme".to_owned()),
        );
    }
    let host = match url.host {
        Some(host) => host,
        None => {
            return Err(
                AppError::Dependency("GM_TOOL_WORLD_BASE_URL must include a host".to_owned()),
            );
        },
    };
    let base_path = if url.path.as_str().is_empty() {
        "/".to_owned()
    } else {
        url.path
    };
    Ok(
        DirectWorldHttpSink {
            world_base_url,
            world_api_key,
            host,
            port: url.port.unwrap_or(80),
            base_path,
            timeout_seconds: if timeout_seconds < 1 {
                1
            } else {
                timeout_seconds
            },
        },
    )
}

impl DirectWorldHttpSink {
    /// The sink for the world server that the configuration names.
    pub fn from_config<A>(config: &Config<A>) -> (r: Result<Self, AppError>)
        ensures
            error::outcome(r) == world_of(
                config.world_base_url.deep_view(),
                config.world_api_key.deep_view(),
                config.world_timeout_seconds,
            ),
    {
        let world_base_url = match &config.world_base_url {
            Some(world_base_url) => world_base_url.clone(),
            None => {
                return Err(
                    AppError::Dependency(
                        "GM_TOOL_WORLD_BASE_URL is required in direct_world_http mode".to_owned(),
                    ),
                );
            },
        };
        let world_api_key = match &config.world_api_key {
            Some(world_api_key) => world_api_key.clone(),
            None => {
                return Err(
                    AppError::Dependency(
                        "GM_TOOL_WORLD_API_KEY is required in direct_world_http mode".to_owned(),
                    ),
                );
            },
        };
        let url = parse_url(world_base_url.as_str());
        world_sink(url, world_base_url, world_api_key, config.world_timeout_seconds)
    }

    /// The host to connect to.
    pub fn host(&self) -> (r: &str)
        ensures
            r@ == self@.host,
    {
        self.host.as_str()
    }

    /// The port to connect to.
    pub fn port(&self) -> (r: u16)
        ensures
            r == self@.port,
    {
        self.port
    }

    /// How long to wait for the world server to take the request, and to answer.
    pub fn timeout_seconds(&self) -> (r: u64)
        ensures
            r == self@.timeout_seconds,
    {
        self.timeout_seconds
    }

    /// The path of an API under the base path.
    pub fn endpoint_path(&self, suffix: &str) -> (r: String)
        ensures
            r@ == self@.path(suffix@),
    {
        if text::same(self.base_path.as_str(), "/") {
            suffix.to_owned()
        } else {
            let mut path = text::trim_end_matches(self.base_path.as_str(), '/').to_owned();
            path.append(suffix);
            path
        }
    }

    /// The HTTP request for a method, a path and a body.
    pub fn request_text(&self, method: &str, path: &str, body: Option<&str>) -> (r: String)
        ensures
            r@ == self@.request(
                method@,
                path@,
                match body {
                    Some(body) => body@,
                    None => Seq::empty(),
                },
            ),
    {
        let body = match body {
            Some(body) => body,
            None => "",
        };
        proof {
            reveal_strlit("");
            assert(""@ == Seq::<char>::empty());
        }
        let mut request = method.to_owned();
        request.append(" ");
        request.append(path);
        request.append(" HTTP/1.1\r\nHost: ");
        request.append(self.host.as_str());
        request.append("\r\nX-API-Key: ");
        request.append(self.world_api_key.as_str());
        if body.is_empty() {
            request.append("\r\nConnection: close\r\n\r\n");
        } else {
            request.append("\r\nContent-Type: application/json\r\nContent-Length: ");
            let length: usize = body.as_bytes().len();
            request.append(text::to_decimal(length as u64).as_str());
            request.append("\r\nConnection: close\r\n\r\n");
            request.append(body);
        }
        request
    }

    /// The status and the body that the world server answered with, or why there
    /// are none.
    pub fn perform_request(&self, answer: &Result<String, TransportError>) -> (r: Result<
        (u16, String),
        AppError,
    >)
        ensures
            error::outcome(r) == performed(answered(*answer), self@.base_url),
    {
        let response = match answer {
            Ok(response) => response.as_str(),
            Err(error) => {
                return Err(self.transport_error(error));
            },
        };
        proof {
            reveal_strlit("\r\n\r\n");
            assert("\r\n\r\n"@.len() == 4);
        }
        let len: usize = response.unicode_len();
        let (header_block, response_body) = match text::find(response, "\r\n\r\n") {
            Some(end) => (
                response.substring_char(0, end),
                response.substring_char(end + 4, len).to_owned(),
            ),
            None => (response, String::new()),
        };
        assert(header_block@ == response_head(response@));
        assert(response_body@ == crate::world::response_body(response@));
        let status_line = text::head_line(header_block);
        match text::parse_unsigned(text::word_after_first(status_line), u16::MAX as u64) {
            Some(status) => Ok((status as u16, response_body)),
            None => {
                let mut message = "unexpected world API status line: ".to_owned();
                message.append(status_line);
                Err(AppError::Upstream(message))
            },
        }
    }

    /// The failure that a failed connection means.
    fn transport_error(&self, error: &TransportError) -> (r: AppError)
        ensures
            r@ == error@.failure(self@.base_url),
    {
        let mut message = match error.stage {
            TransportStage::Connect => {
                let mut message = "failed to connect to ".to_owned();
                message.append(self.world_base_url.as_str());
                message.append(": ");
                message
            },
            TransportStage::SetReadTimeout => "failed to set read timeout: ".to_owned(),
            TransportStage::SetWriteTimeout => "failed to set write timeout: ".to_owned(),
            TransportStage::Write => "failed to write world API request: ".to_owned(),
            TransportStage::Flush => "failed to flush world API request: ".to_owned(),
            TransportStage::Read => "failed to read world API response: ".to_owned(),
        };
        message.append(error.error.as_str());
        match error.stage {
            TransportStage::Connect => AppError::Dependency(message),
            TransportStage::SetReadTimeout => AppError::Dependency(message),
            TransportStage::SetWriteTimeout => AppError::Dependency(message),
            TransportStage::Write => AppError::Upstream(message),
            TransportStage::Flush => AppError::Upstream(message),
            TransportStage::Read => AppError::Upstream(message),
        }
    }

    /// The HTTP request that asks whether the world server is healthy.
    pub fn healthcheck_request(&self) -> (r: String)
        ensures
            r@ == self@.request("GET"@, self@.path("/healthz"@), Seq::empty()),
    {
        let path = self.endpoint_path("/healthz");
        self.request_text("GET", path.as_str(), None)
    }

    /// Whether the world server is healthy, from how it answered.
    pub fn healthcheck(&self, answer: &Result<String, TransportError>) -> (r: Result<(), AppError>)
        ensures
            error::outcome(r) == health(performed(answered(*answer), self@.base_url)),
    {
        let (status_code, response_body) = self.perform_request(answer)?;
        if status_code == 200 {
            return Ok(());
        }
        Err(
            AppError::Upstream(
                status_message(
                    "world API healthcheck returned ",
                    status_code,
                    response_body.as_str(),
                ),
            ),
        )
    }

    /// The HTTP request that sends a command.
    pub fn enqueue_request(&self, request: &QueueCommand) -> (r: String)
        ensures
            r@ == self@.request(
                "POST"@,
                self@.path("/admin/gm/commands"@),
                command_body(request.command@),
            ),
    {
        let path = self.endpoint_path("/admin/gm/commands");
        let mut object = json::empty_object();
        json::insert_text(&mut object, "command", request.command.as_str());
        assert(json::members(object) == map!["command"@ => json::json_string(request.command@)]);
        let body = json::render(object);
        self.request_text("POST", path.as_str(), Some(body.as_str()))
    }

    /// The receipt for a command, from how the world server answered. It gives
    /// commands no number.
    pub fn enqueue(&self, request: QueueCommand, answer: &Result<String, TransportError>) -> (r:
        Result<QueueReceipt, AppError>)
        ensures
            error::outcome(r) == command_receipt(
                request@,
                performed(answered(*answer), self@.base_url),
            ),
    {
        let (status_code, response_body) = self.perform_request(answer)?;
        if status_code == 200 || status_code == 201 || status_code == 202 {
            return Ok(request.into_receipt(0));
        }
        Err(
            AppError::Upstream(
                status_message(
                    "world API command call returned ",
                    status_code,
                    response_body.as_str(),
                ),
            ),
        )
    }
}

} // verus!
