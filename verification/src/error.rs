//! What can go wrong while a request is served, and how it is answered.
use vstd::prelude::*;

use crate::json;

verus! {

/// A failure to serve a request.
#[derive(Debug)]
pub enum AppError {
    Unauthorized,
    Forbidden(String),
    BadRequest(String),
    Upstream(String),
    Dependency(String),
    Internal(String),
}

/// The model of an [`AppError`].
pub enum Failure {
    Unauthorized,
    Forbidden(Seq<char>),
    BadRequest(Seq<char>),
    Upstream(Seq<char>),
    Dependency(Seq<char>),
    Internal(Seq<char>),
}

impl View for AppError {
    type V = Failure;

    open spec fn view(&self) -> Failure {
        match self {
            AppError::Unauthorized => Failure::Unauthorized,
            AppError::Forbidden(m) => Failure::Forbidden(m@),
            AppError::BadRequest(m) => Failure::BadRequest(m@),
            AppError::Upstream(m) => Failure::Upstream(m@),
            AppError::Dependency(m) => Failure::Dependency(m@),
            AppError::Internal(m) => Failure::Internal(m@),
        }
    }
}

impl Failure {
    /// The text that describes the failure.
    pub open spec fn message(self) -> Seq<char> {
        match self {
            Failure::Unauthorized => "unauthorized"@,
            Failure::Forbidden(m) => m,
            Failure::BadRequest(m) => m,
            Failure::Upstream(m) => m,
            Failure::Dependency(m) => m,
            Failure::Internal(m) => m,
        }
    }

    /// The HTTP status that answers the failure.
    pub open spec fn status(self) -> u16 {
        match self {
            Failure::Unauthorized => 401,
            Failure::Forbidden(_) => 403,
            Failure::BadRequest(_) => 400,
            Failure::Upstream(_) => 502,
            Failure::Dependency(_) => 502,
            Failure::Internal(_) => 500,
        }
    }

    /// The answer to the failure.
    pub open spec fn reply(self) -> ReplyView {
        json_reply(self.status(), failure_members(self.message()))
    }
}

/// A result, with its value and its failure taken by their models.
pub open spec fn outcome<T: View>(r: Result<T, AppError>) -> Result<T::V, Failure> {
    match r {
        Ok(value) => Ok(value@),
        Err(error) => Err(error@),
    }
}

/// A whole HTTP answer.
#[derive(Debug)]
pub struct Reply {
    pub status: u16,
    pub content_type: &'static str,
    pub body: String,
}

/// The model of a [`Reply`].
pub struct ReplyView {
    pub status: u16,
    pub content_type: Seq<char>,
    pub body: Seq<char>,
}

impl View for Reply {
    type V = ReplyView;

    open spec fn view(&self) -> ReplyView {
        ReplyView { status: self.status, content_type: self.content_type@, body: self.body@ }
    }
}

/// The answer that carries the JSON object with the given members.
pub open spec fn json_reply(status: u16, members: Map<Seq<char>, Seq<char>>) -> ReplyView {
    ReplyView { status, content_type: "application/json"@, body: json::json_object(members) }
}

/// The members of the JSON object that tells of a failure.
pub open spec fn failure_members(message: Seq<char>) -> Map<Seq<char>, Seq<char>> {
    map!["ok"@ => json::json_flag(false), "error"@ => json::json_string(message)]
}

/// The answer with status `status` that carries `payload` as JSON.
pub(crate) fn json_response(status: u16, payload: json::JsonObject) -> (r: Reply)
    ensures
        r@ == json_reply(status, json::members(payload)),
{
    Reply { status, content_type: "application/json", body: json::render(payload) }
}

/// The answer with status `status` that tells of a failure.
pub(crate) fn failure_response(status: u16, message: &str) -> (r: Reply)
    ensures
        r@ == json_reply(status, failure_members(message@)),
{
    let mut payload = json::empty_object();
    json::insert_flag(&mut payload, "ok", false);
    json::insert_text(&mut payload, "error", message);
    assert(json::members(payload) == failure_members(message@));
    json_response(status, payload)
}

impl AppError {
    /// The text that describes the failure.
    pub fn message(&self) -> (r: String)
        ensures
            r@ == self@.message(),
    {
        match self {
            AppError::Unauthorized => "unauthorized".to_owned(),
            AppError::Forbidden(m) => m.clone(),
            AppError::BadRequest(m) => m.clone(),
            AppError::Upstream(m) => m.clone(),
            AppError::Dependency(m) => m.clone(),
            AppError::Internal(m) => m.clone(),
        }
    }

    /// The HTTP status that answers the failure.
    pub fn status_code(&self) -> (r: u16)
        ensures
            r == self@.status(),
    {
        match self {
            AppError::Unauthorized => 401,
            AppError::Forbidden(_) => 403,
            AppError::BadRequest(_) => 400,
            AppError::Upstream(_) => 502,
            AppError::Dependency(_) => 502,
            AppError::Internal(_) => 500,
        }
    }

    /// The answer to the failure: its status, and its text in a JSON object.
    pub fn response(&self) -> (r: Reply)
        ensures
            r@ == self@.reply(),
    {
        let message = self.message();
        failure_response(self.status_code(), message.as_str())
    }
}

} // verus!
