//! How a request is answered.
//!
//! Answering takes work that is not done here: reading the clock, reading JSON,
//! asking the sink. An [`Exchange`] is an answer in the making. It starts with
//! [`handle_request`]; each [`Action`] asks for one piece of work, and
//! [`Exchange::advance`] takes the [`Event`] that tells how the work went. The last
//! action is the reply.
use vstd::prelude::*;

use crate::command;
use crate::error;
use crate::error::AppError;
use crate::error::Failure;
use crate::error::Reply;
use crate::error::ReplyView;
use crate::json;
use crate::jws;
use crate::jws::JwsClaims;
use crate::jws::JwsHeader;
use crate::jws::JwsToken;
use crate::state::AppState;
use crate::state::Clock;
use crate::state::CommandSink;
use crate::state::QueueCommand;
use crate::state::QueueCommandView;
use crate::state::QueueReceipt;
use crate::state::QueueReceiptView;
use crate::state::Settings;
use crate::text;

verus! {

/// What the service reads of an HTTP request.
#[derive(Debug)]
pub struct Request {
    pub method: String,
    pub path: String,
    /// The value of the `Authorization` header.
    pub authorization: Option<Vec<u8>>,
    /// The body, or why it could not be read.
    pub body: Result<Vec<u8>, String>,
}

/// The model of a [`Request`].
pub struct RequestView {
    pub method: Seq<char>,
    pub path: Seq<char>,
    pub authorization: Option<Seq<u8>>,
    pub body: Result<Seq<u8>, Seq<char>>,
}

impl View for Request {
    type V = RequestView;

    open spec fn view(&self) -> RequestView {
        RequestView {
            method: self.method@,
            path: self.path@,
            authorization: self.authorization.deep_view(),
            body: match self.body {
                Ok(bytes) => Ok(bytes@),
                Err(error) => Err(error@),
            },
        }
    }
}

/// The endpoints that queue a command.
#[derive(Clone, Copy, Debug, PartialEq, Eq, Structural)]
pub enum Endpoint {
    Commands,
    Revive,
    Teleport,
}

/// The body of a request for a raw command.
#[derive(Debug)]
pub struct RawCommandRequest {
    pub command: String,
    pub realm_id: Option<u32>,
    pub run_after_seconds: Option<u64>,
}

/// The body of a request to revive a character.
#[derive(Debug)]
pub struct ReviveRequest {
    pub character: String,
    pub realm_id: Option<u32>,
    pub run_after_seconds: Option<u64>,
}

/// The body of a request to teleport a character.
#[derive(Debug)]
pub struct TeleportRequest {
    pub character: String,
    pub teleport: String,
    pub realm_id: Option<u32>,
    pub run_after_seconds: Option<u64>,
}

/// The body of a request to queue a command.
#[derive(Debug)]
pub enum Payload {
    Raw(RawCommandRequest),
    Revive(ReviveRequest),
    Teleport(TeleportRequest),
}

/// What a body asks for.
pub enum Order {
    Raw { command: Seq<char> },
    Revive { character: Seq<char> },
    Teleport { character: Seq<char>, teleport: Seq<char> },
}

/// The model of a [`Payload`].
pub struct PayloadView {
    pub order: Order,
    pub realm_id: Option<u32>,
    pub run_after_seconds: Option<u64>,
}

impl View for Payload {
    type V = PayloadView;

    open spec fn view(&self) -> PayloadView {
        match self {
            Payload::Raw(p) => PayloadView {
                order: Order::Raw { command: p.command@ },
                realm_id: p.realm_id,
                run_after_seconds: p.run_after_seconds,
            },
            Payload::Revive(p) => PayloadView {
                order: Order::Revive { character: p.character@ },
                realm_id: p.realm_id,
                run_after_seconds: p.run_after_seconds,
            },
            Payload::Teleport(p) => PayloadView {
                order: Order::Teleport { character: p.character@, teleport: p.teleport@ },
                realm_id: p.realm_id,
                run_after_seconds: p.run_after_seconds,
            },
        }
    }
}

impl Order {
    /// The endpoint that takes such a body.
    pub open spec fn endpoint(self) -> Endpoint {
        match self {
            Order::Raw { .. } => Endpoint::Commands,
            Order::Revive { .. } => Endpoint::Revive,
            Order::Teleport { .. } => Endpoint::Teleport,
        }
    }

    /// The command that the body asks for, where it may be queued.
    pub open spec fn command(self, settings: Settings) -> Result<Seq<char>, Failure> {
        match self {
            Order::Raw { command } => match command::raw_command(command) {
                Err(fault) => Err(fault),
                Ok(command) => match command::raw_command_refusal(settings.allowlist, command) {
                    Some(refusal) => Err(refusal),
                    None => Ok(command),
                },
            },
            Order::Revive { character } => command::revive_command(character),
            Order::Teleport { character, teleport } => command::teleport_command(
                character,
                teleport,
            ),
        }
    }
}

/// How work went that was handed to a worker: its own outcome, or how the worker
/// failed.
pub open spec fn worked<T: View>(r: Result<Result<T, AppError>, String>) -> Result<
    Result<T::V, Failure>,
    Seq<char>,
> {
    match r {
        Ok(outcome) => Ok(error::outcome(outcome)),
        Err(error) => Err(error@),
    }
}

/// How a piece of work went.
#[derive(Debug)]
pub enum Event {
    /// The sink's health, or how the worker that asked for it failed.
    Health(Result<Result<(), AppError>, String>),
    /// The time on the clock.
    Now(u64),
    /// What the JSON of a token reads as, `None` where it cannot be read.
    Token { header: Option<JwsHeader>, claims: Option<JwsClaims> },
    /// What the JSON of a body reads as, or why it cannot be read.
    Payload(Result<Payload, String>),
    /// What the sink did with the command, or how the worker failed that handed it
    /// over.
    Enqueued(Result<Result<QueueReceipt, AppError>, String>),
}

/// The model of an [`Event`].
pub enum EventView {
    Health(Result<Result<(), Failure>, Seq<char>>),
    Now(u64),
    Token { alg: Option<Seq<char>>, claims: Option<jws::ClaimsView> },
    Payload(Result<PayloadView, Seq<char>>),
    Enqueued(Result<Result<QueueReceiptView, Failure>, Seq<char>>),
}

impl View for Event {
    type V = EventView;

    open spec fn view(&self) -> EventView {
        match self {
            Event::Health(r) => EventView::Health(worked(*r)),
            Event::Now(now) => EventView::Now(*now),
            Event::Token { header, claims } => EventView::Token {
                alg: jws::alg_of(*header),
                claims: jws::claims_of(*claims),
            },
            Event::Payload(Ok(payload)) => EventView::Payload(Ok(payload@)),
            Event::Payload(Err(error)) => EventView::Payload(Err(error@)),
            Event::Enqueued(r) => EventView::Enqueued(worked(*r)),
        }
    }
}

/// The next piece of work.
#[derive(Debug)]
pub enum Action {
    /// Send the answer. Nothing is left to do.
    Reply(Reply),
    /// Ask the sink for its health.
    CheckHealth,
    /// Read the clock.
    ReadClock,
    /// Read the JSON of a token.
    ReadToken { header: Vec<u8>, claims: Vec<u8> },
    /// Read the JSON of a body.
    ReadPayload { endpoint: Endpoint, body: Vec<u8> },
    /// Hand a command to the sink.
    Enqueue(QueueCommand),
}

/// The model of an [`Action`].
pub enum ActionView {
    Reply(ReplyView),
    CheckHealth,
    ReadClock,
    ReadToken { header: Seq<u8>, claims: Seq<u8> },
    ReadPayload { endpoint: Endpoint, body: Seq<u8> },
    Enqueue(QueueCommandView),
}

impl View for Action {
    type V = ActionView;

    open spec fn view(&self) -> ActionView {
        match self {
            Action::Reply(reply) => ActionView::Reply(reply@),
            Action::CheckHealth => ActionView::CheckHealth,
            Action::ReadClock => ActionView::ReadClock,
            Action::ReadToken { header, claims } => ActionView::ReadToken {
                header: header@,
                claims: claims@,
            },
            Action::ReadPayload { endpoint, body } => ActionView::ReadPayload {
                endpoint: *endpoint,
                body: body@,
            },
            Action::Enqueue(request) => ActionView::Enqueue(request@),
        }
    }
}

/// What an answer in the making waits for.
#[derive(Debug)]
enum Stage {
    /// The sink's health.
    Health,
    /// The time at which the token is judged.
    Clock { endpoint: Endpoint, authorization: Option<Vec<u8>>, body: Vec<u8> },
    /// What the token's JSON reads as.
    Token { endpoint: Endpoint, token: JwsToken, now: u64, body: Vec<u8> },
    /// What the body's JSON reads as.
    Payload { endpoint: Endpoint },
    /// The time from which the command's delay counts.
    Schedule { realm_id: Option<u32>, run_after_seconds: Option<u64>, command: String },
    /// What the sink did with the command.
    Queue,
    /// Nothing: the reply has been given.
    Done,
}

/// An answer in the making. It is begun by [`handle_request`] or [`route_request`], and
/// moved on by [`Exchange::advance`] alone.
#[derive(Debug)]
pub struct Exchange {
    stage: Stage,
}

/// The model of an [`Exchange`], by what it waits for.
pub enum ExchangeView {
    Health,
    Clock { endpoint: Endpoint, authorization: Option<Seq<u8>>, body: Seq<u8> },
    Token { endpoint: Endpoint, token: jws::TokenView, now: u64, body: Seq<u8> },
    Payload { endpoint: Endpoint },
    Schedule { realm_id: Option<u32>, run_after_seconds: Option<u64>, command: Seq<char> },
    Queue,
    Done,
}

impl View for Exchange {
    type V = ExchangeView;

    closed spec fn view(&self) -> ExchangeView {
        match self.stage {
            Stage::Health => ExchangeView::Health,
            Stage::Clock { endpoint, authorization, body } => ExchangeView::Clock {
                endpoint,
                authorization: authorization.deep_view(),
                body: body@,
            },
            Stage::Token { endpoint, token, now, body } => ExchangeView::Token {
                endpoint,
                token: token@,
                now,
                body: body@,
            },
            Stage::Payload { endpoint } => ExchangeView::Payload { endpoint },
            Stage::Schedule { realm_id, run_after_seconds, command } => ExchangeView::Schedule {
                realm_id,
                run_after_seconds,
                command: command@,
            },
            Stage::Queue => ExchangeView::Queue,
            Stage::Done => ExchangeView::Done,
        }
    }
}

/// A step of an exchange: what it waits for next, and the work to do.
pub type Step = (ExchangeView, ActionView);

/// The last step: the reply is given.
pub open spec fn done(reply: ReplyView) -> Step {
    (ExchangeView::Done, ActionView::Reply(reply))
}

/// The answer to a failure: a request without a route is not found, and every
/// other failure has an answer of its own.
pub open spec fn failure_reply(failure: Failure) -> ReplyView {
    match failure {
        Failure::BadRequest(message) if "unsupported route:"@.is_prefix_of(message) => {
            error::json_reply(404, error::failure_members(message))
        },
        _ => failure.reply(),
    }
}

/// The step that answers a failure.
pub open spec fn refused(failure: Failure) -> Step {
    done(failure_reply(failure))
}

/// The step for a result: itself, or the answer to its failure.
pub open spec fn settled(r: Result<Step, Failure>) -> Step {
    match r {
        Ok(step) => step,
        Err(failure) => refused(failure),
    }
}

/// The answer that tells of a status.
pub open spec fn status_reply(status: Seq<char>) -> ReplyView {
    error::json_reply(200, map!["status"@ => json::json_string(status)])
}

/// The endpoint that takes commands at `path`.
pub open spec fn endpoint_at(path: Seq<char>) -> Option<Endpoint> {
    if path == "/api/v1/gm/commands"@ {
        Some(Endpoint::Commands)
    } else if path == "/api/v1/gm/revive"@ {
        Some(Endpoint::Revive)
    } else if path == "/api/v1/gm/teleport"@ {
        Some(Endpoint::Teleport)
    } else {
        None
    }
}

/// The first step for a request whose body has been read.
pub open spec fn routed(
    method: Seq<char>,
    path: Seq<char>,
    authorization: Option<Seq<u8>>,
    body: Seq<u8>,
) -> Result<Step, Failure> {
    if method == "GET"@ && path == "/healthz"@ {
        Ok(done(status_reply("ok"@)))
    } else if method == "GET"@ && path == "/readyz"@ {
        Ok((ExchangeView::Health, ActionView::CheckHealth))
    } else if method == "POST"@ && endpoint_at(path) is Some {
        Ok(
            (
                ExchangeView::Clock { endpoint: endpoint_at(path)->0, authorization, body },
                ActionView::ReadClock,
            ),
        )
    } else {
        Err(Failure::BadRequest("unsupported route: "@ + path))
    }
}

/// The first step for a request.
pub open spec fn begun(request: RequestView) -> Step {
    match request.body {
        Err(error) => done(
            Failure::BadRequest("failed to read request body: "@ + error).reply(),
        ),
        Ok(body) => settled(routed(request.method, request.path, request.authorization, body)),
    }
}

/// The answer about the sink's health.
pub open spec fn health_reply(health: Result<Result<(), Failure>, Seq<char>>) -> Result<
    ReplyView,
    Failure,
> {
    match health {
        Err(error) => Err(Failure::Internal("health worker failed: "@ + error)),
        Ok(Err(failure)) => Err(failure),
        Ok(Ok(())) => Ok(status_reply("ready"@)),
    }
}

/// The members of the JSON object for a receipt.
pub open spec fn receipt_members(receipt: QueueReceiptView) -> Map<Seq<char>, Seq<char>> {
    map![
        "id"@ => text::decimal(receipt.id as nat),
        "realm_id"@ => text::decimal(receipt.realm_id as nat),
        "command"@ => json::json_string(receipt.command),
        "run_at_unix"@ => text::decimal(receipt.run_at_unix as nat),
    ]
}

/// The answer to a command that was handed to the sink.
pub open spec fn queue_reply(queued: Result<Result<QueueReceiptView, Failure>, Seq<char>>) -> Result<
    ReplyView,
    Failure,
> {
    match queued {
        Err(error) => Err(Failure::Internal("queue worker failed: "@ + error)),
        Ok(Err(failure)) => Err(failure),
        Ok(Ok(receipt)) => Ok(
            error::json_reply(
                201,
                map![
                    "ok"@ => json::json_flag(true),
                    "queued"@ => json::json_object(receipt_members(receipt)),
                ],
            ),
        ),
    }
}

/// The seconds by which a command is put off.
pub open spec fn delay(run_after_seconds: Option<u64>) -> u64 {
    match run_after_seconds {
        Some(seconds) => seconds,
        None => 0,
    }
}

/// The realm that a command is for.
pub open spec fn realm(realm_id: Option<u32>, settings: Settings) -> u32 {
    match realm_id {
        Some(realm_id) => realm_id,
        None => settings.default_realm_id,
    }
}

/// The command that is handed to the sink at the time `now`.
pub open spec fn scheduled(
    settings: Settings,
    realm_id: Option<u32>,
    run_after_seconds: Option<u64>,
    command: Seq<char>,
    now: u64,
) -> QueueCommandView {
    QueueCommandView {
        realm_id: realm(realm_id, settings),
        command,
        run_at_unix: (now + delay(run_after_seconds)) as u64,
    }
}

/// Whether `event` is what the exchange waits for, and can be taken: the time at
/// which a command runs must be a 64-bit number of seconds.
pub open spec fn awaits(exchange: ExchangeView, event: EventView) -> bool {
    match (exchange, event) {
        (ExchangeView::Health, EventView::Health(_)) => true,
        (ExchangeView::Clock { .. }, EventView::Now(_)) => true,
        (ExchangeView::Token { .. }, EventView::Token { .. }) => true,
        (ExchangeView::Payload { endpoint }, EventView::Payload(r)) => {
            r matches Ok(payload) ==> payload.order.endpoint() == endpoint
        },
        (ExchangeView::Schedule { run_after_seconds, .. }, EventView::Now(now)) => {
            now + delay(run_after_seconds) <= u64::MAX
        },
        (ExchangeView::Queue, EventView::Enqueued(_)) => true,
        _ => false,
    }
}

/// The step that an exchange takes on an event that it waits for.
pub open spec fn stepped(settings: Settings, exchange: ExchangeView, event: EventView) -> Step {
    match (exchange, event) {
        (ExchangeView::Health, EventView::Health(health)) => match health_reply(health) {
            Ok(reply) => done(reply),
            Err(failure) => refused(failure),
        },
        (ExchangeView::Clock { endpoint, authorization, body }, EventView::Now(now)) => {
            match jws::presented(authorization) {
                None => refused(Failure::Unauthorized),
                Some(token) => (
                    ExchangeView::Token { endpoint, token, now, body },
                    ActionView::ReadToken { header: token.header, claims: token.payload },
                ),
            }
        },
        (
            ExchangeView::Token { endpoint, token, now, body },
            EventView::Token { alg, claims },
        ) => {
            if jws::accepted(token, alg, claims, settings.policy, now) {
                (ExchangeView::Payload { endpoint }, ActionView::ReadPayload { endpoint, body })
            } else {
                refused(Failure::Unauthorized)
            }
        },
        (ExchangeView::Payload { .. }, EventView::Payload(Err(error))) => refused(
            Failure::BadRequest("invalid json: "@ + error),
        ),
        (ExchangeView::Payload { .. }, EventView::Payload(Ok(payload))) => {
            match payload.order.command(settings) {
                Err(failure) => refused(failure),
                Ok(command) => (
                    ExchangeView::Schedule {
                        realm_id: payload.realm_id,
                        run_after_seconds: payload.run_after_seconds,
                        command,
                    },
                    ActionView::ReadClock,
                ),
            }
        },
        (
            ExchangeView::Schedule { realm_id, run_after_seconds, command },
            EventView::Now(now),
        ) => (
            ExchangeView::Queue,
            ActionView::Enqueue(scheduled(settings, realm_id, run_after_seconds, command, now)),
        ),
        (ExchangeView::Queue, EventView::Enqueued(queued)) => match queue_reply(queued) {
            Ok(reply) => done(reply),
            Err(failure) => refused(failure),
        },
        _ => arbitrary(),
    }
}

/// The answer that tells of a status.
fn status_response(status: &str) -> (r: Reply)
    ensures
        r@ == status_reply(status@),
{
    let mut payload = json::empty_object();
    json::insert_text(&mut payload, "status", status);
    assert(json::members(payload) == map!["status"@ => json::json_string(status@)]);
    error::json_response(200, payload)
}

/// The answer to a failure, where a request without a route is not found.
pub fn failure_response(error: &AppError) -> (r: Reply)
    ensures
        r@ == failure_reply(error@),
{
    match error {
        AppError::BadRequest(message) => {
            match text::strip_prefix(message.as_str(), "unsupported route:") {
                Some(_) => error::failure_response(404, message.as_str()),
                None => error.response(),
            }
        },
        _ => error.response(),
    }
}

/// The answer about the sink's health.
pub fn readyz(health: Result<Result<(), AppError>, String>) -> (r: Result<Reply, AppError>)
    ensures
        error::outcome(r) == health_reply(worked(health)),
{
    match health {
        Err(error) => {
            let mut message = "health worker failed: ".to_owned();
            message.append(error.as_str());
            Err(AppError::Internal(message))
        },
        Ok(Err(error)) => Err(error),
        Ok(Ok(())) => Ok(status_response("ready")),
    }
}

/// The command that a raw request asks for, where the allowlist covers it.
pub fn enqueue_from_raw<S: CommandSink + ?Sized, C: Clock + ?Sized>(
    state: &AppState<S, C>,
    payload: &RawCommandRequest,
) -> (r: Result<String, AppError>)
    ensures
        error::outcome(r) == (Order::Raw { command: payload.command@ }).command(state@),
{
    let command = command::normalize_raw_command(payload.command.as_str())?;
    command::authorize_raw_command(state.command_allowlist(), command.as_str())?;
    Ok(command)
}

/// The command that is handed to the sink at the time `now_epoch_seconds`.
pub fn enqueue_structured<S: CommandSink + ?Sized, C: Clock + ?Sized>(
    state: &AppState<S, C>,
    realm_id: Option<u32>,
    run_after_seconds: Option<u64>,
    command: String,
    now_epoch_seconds: u64,
) -> (r: QueueCommand)
    requires
        now_epoch_seconds + delay(run_after_seconds) <= u64::MAX,
    ensures
        r@ == scheduled(state@, realm_id, run_after_seconds, command@, now_epoch_seconds),
{
    QueueCommand {
        realm_id: realm_id.unwrap_or(state.default_realm_id()),
        command,
        run_at_unix: now_epoch_seconds + run_after_seconds.unwrap_or(0),
    }
}

/// The answer to a command that was handed to the sink.
pub fn queued_response(queued: Result<Result<QueueReceipt, AppError>, String>) -> (r: Result<
    Reply,
    AppError,
>)
    ensures
        error::outcome(r) == queue_reply(worked(queued)),
{
    match queued {
        Err(error) => {
            let mut message = "queue worker failed: ".to_owned();
            message.append(error.as_str());
            Err(AppError::Internal(message))
        },
        Ok(Err(error)) => Err(error),
        Ok(Ok(receipt)) => {
            let mut queued = json::empty_object();
            json::insert_number(&mut queued, "id", receipt.id);
            json::insert_number(&mut queued, "realm_id", receipt.realm_id as u64);
            json::insert_text(&mut queued, "command", receipt.command.as_str());
            json::insert_number(&mut queued, "run_at_unix", receipt.run_at_unix);
            assert(json::members(queued) == receipt_members(receipt@));
            let mut payload = json::empty_object();
            json::insert_flag(&mut payload, "ok", true);
            json::insert_object(&mut payload, "queued", queued);
            Ok(error::json_response(201, payload))
        },
    }
}

/// The first step for a request whose body has been read.
pub fn route_request(
    method: &str,
    path: &str,
    authorization: Option<Vec<u8>>,
    body: Vec<u8>,
) -> (r: Result<(Exchange, Action), AppError>)
    ensures
        error::outcome(r) == routed(method@, path@, authorization.deep_view(), body@),
{
    if text::same(method, "GET") && text::same(path, "/healthz") {
        return Ok(finish(status_response("ok")));
    }
    if text::same(method, "GET") && text::same(path, "/readyz") {
        return Ok((Exchange { stage: Stage::Health }, Action::CheckHealth));
    }
    if text::same(method, "POST") {
        let endpoint = if text::same(path, "/api/v1/gm/commands") {
            Some(Endpoint::Commands)
        } else if text::same(path, "/api/v1/gm/revive") {
            Some(Endpoint::Revive)
        } else if text::same(path, "/api/v1/gm/teleport") {
            Some(Endpoint::Teleport)
        } else {
            None
        };
        if let Some(endpoint) = endpoint {
            let stage = Stage::Clock { endpoint, authorization, body };
            return Ok((Exchange { stage }, Action::ReadClock));
        }
    }
    let mut message = "unsupported route: ".to_owned();
    message.append(path);
    Err(AppError::BadRequest(message))
}

/// Starts to answer a request.
pub fn handle_request(request: Request) -> (r: (Exchange, Action))
    ensures
        r@ == begun(request@),
{
    match request.body {
        Err(error) => {
            let mut message = "failed to read request body: ".to_owned();
            message.append(error.as_str());
            finish(AppError::BadRequest(message).response())
        },
        Ok(body) => {
            match route_request(
                request.method.as_str(),
                request.path.as_str(),
                request.authorization,
                body,
            ) {
                Ok(step) => step,
                Err(error) => refuse(error),
            }
        },
    }
}

/// The last step: the reply is given.
fn finish(reply: Reply) -> (r: (Exchange, Action))
    ensures
        r@ == done(reply@),
{
    (Exchange { stage: Stage::Done }, Action::Reply(reply))
}

/// The step that answers a failure.
fn refuse(error: AppError) -> (r: (Exchange, Action))
    ensures
        r@ == refused(error@),
{
    finish(failure_response(&error))
}

impl Exchange {
    /// Whether `event` is what the exchange waits for, and can be taken.
    pub fn accepts(&self, event: &Event) -> (r: bool)
        ensures
            r == awaits(self@, event@),
    {
        match (&self.stage, event) {
            (Stage::Health, Event::Health(_)) => true,
            (Stage::Clock { .. }, Event::Now(_)) => true,
            (Stage::Token { .. }, Event::Token { .. }) => true,
            (Stage::Payload { endpoint }, Event::Payload(read)) => match (endpoint, read) {
                (_, Err(_)) => true,
                (Endpoint::Commands, Ok(Payload::Raw(_))) => true,
                (Endpoint::Revive, Ok(Payload::Revive(_))) => true,
                (Endpoint::Teleport, Ok(Payload::Teleport(_))) => true,
                _ => false,
            },
            (Stage::Schedule { run_after_seconds, .. }, Event::Now(now)) => {
                run_after_seconds.unwrap_or(0) <= u64::MAX - *now
            },
            (Stage::Queue, Event::Enqueued(_)) => true,
            _ => false,
        }
    }

    /// Takes the event that the exchange waits for, and says what is to be done
    /// next.
    pub fn advance<S: CommandSink + ?Sized, C: Clock + ?Sized>(
        self,
        state: &AppState<S, C>,
        event: Event,
    ) -> (r: (Exchange, Action))
        requires
            awaits(self@, event@),
        ensures
            r@ == stepped(state@, self@, event@),
    {
        match (self.stage, event) {
            (Stage::Health, Event::Health(health)) => match readyz(health) {
                Ok(reply) => finish(reply),
                Err(error) => refuse(error),
            },
            (Stage::Clock { endpoint, authorization, body }, Event::Now(now)) => {
                match jws::authorize(&authorization) {
                    Err(error) => refuse(error),
                    Ok(token) => {
                        let header = vstd::slice::slice_to_vec(token.header.as_slice());
                        let claims = vstd::slice::slice_to_vec(token.payload.as_slice());
                        (
                            Exchange { stage: Stage::Token { endpoint, token, now, body } },
                            Action::ReadToken { header, claims },
                        )
                    },
                }
            },
            (Stage::Token { endpoint, token, now, body }, Event::Token { header, claims }) => {
                match jws::verify_jws(
                    &token,
                    &header,
                    &claims,
                    state.jws_secret(),
                    state.jws_issuer(),
                    state.jws_audience(),
                    now,
                ) {
                    Err(error) => refuse(error),
                    Ok(()) => (
                        Exchange { stage: Stage::Payload { endpoint } },
                        Action::ReadPayload { endpoint, body },
                    ),
                }
            },
            (Stage::Payload { .. }, Event::Payload(Err(error))) => {
                let mut message = "invalid json: ".to_owned();
                message.append(error.as_str());
                refuse(AppError::BadRequest(message))
            },
            (Stage::Payload { .. }, Event::Payload(Ok(payload))) => {
                let (command, realm_id, run_after_seconds) = match payload {
                    Payload::Raw(p) => (
                        enqueue_from_raw(state, &p),
                        p.realm_id,
                        p.run_after_seconds,
                    ),
                    Payload::Revive(p) => (
                        command::build_revive_command(p.character.as_str()),
                        p.realm_id,
                        p.run_after_seconds,
                    ),
                    Payload::Teleport(p) => (
                        command::build_teleport_command(p.character.as_str(), p.teleport.as_str()),
                        p.realm_id,
                        p.run_after_seconds,
                    ),
                };
                match command {
                    Err(error) => refuse(error),
                    Ok(command) => (
                        Exchange { stage: Stage::Schedule { realm_id, run_after_seconds, command } },
                        Action::ReadClock,
                    ),
                }
            },
            (Stage::Schedule { realm_id, run_after_seconds, command }, Event::Now(now)) => (
                Exchange { stage: Stage::Queue },
                Action::Enqueue(
                    enqueue_structured(state, realm_id, run_after_seconds, command, now),
                ),
            ),
            (Stage::Queue, Event::Enqueued(queued)) => match queued_response(queued) {
                Ok(reply) => finish(reply),
                Err(error) => refuse(error),
            },
            _ => vstd::pervasive::unreached(),
        }
    }
}

} // verus!
