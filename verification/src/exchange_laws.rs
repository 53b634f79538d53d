//! What holds of every exchange, whatever comes back from the work it asks for.
use vstd::prelude::*;

use crate::command;
use crate::error;
use crate::error::Failure;
use crate::error::ReplyView;
use crate::json;
use crate::json_laws;
use crate::jws;
use crate::service;
use crate::service::ActionView;
use crate::service::Endpoint;
use crate::service::EventView;
use crate::service::ExchangeView;
use crate::service::PayloadView;
use crate::service::RequestView;
use crate::state::QueueCommandView;
use crate::state::QueueReceiptView;
use crate::state::Settings;
use crate::text;
use crate::text_laws;

verus! {

/// Where an exchange stands after the given events.
pub open spec fn run(settings: Settings, request: RequestView, events: Seq<EventView>) -> service::Step
    decreases events.len(),
{
    if events.len() == 0 {
        service::begun(request)
    } else {
        service::stepped(settings, run(settings, request, events.drop_last()).0, events.last())
    }
}

/// Whether each of the events was waited for when it came.
pub open spec fn awaited(settings: Settings, request: RequestView, events: Seq<EventView>) -> bool
    decreases events.len(),
{
    events.len() == 0 || {
        &&& awaited(settings, request, events.drop_last())
        &&& service::awaits(run(settings, request, events.drop_last()).0, events.last())
    }
}

/// Whether the request is for an endpoint that queues commands.
pub open spec fn is_write(request: RequestView) -> bool {
    request.method == "POST"@ && service::endpoint_at(request.path) is Some && request.body is Ok
}

/// Whether the request is for the endpoint that tells of the sink's health.
pub open spec fn is_readiness(request: RequestView) -> bool {
    request.method == "GET"@ && request.path == "/readyz"@ && request.body is Ok
}

/// Whether the first events are a time, then what a token reads as, and the token
/// that the request carries is accepted at that time.
pub open spec fn admitted(settings: Settings, request: RequestView, events: Seq<EventView>) -> bool {
    &&& jws::presented(request.authorization) is Some
    &&& events.len() >= 2
    &&& events[0] is Now
    &&& events[1] is Token
    &&& jws::accepted(
        jws::presented(request.authorization)->0,
        events[1]->alg,
        events[1]->claims,
        settings.policy,
        events[0]->Now_0,
    )
}

/// Whether the third event is a body for the endpoint of the request, which asks
/// for a command that may be queued.
pub open spec fn ordered(settings: Settings, request: RequestView, events: Seq<EventView>) -> bool {
    &&& events.len() >= 3
    &&& events[2] is Payload
    &&& events[2]->Payload_0 is Ok
    &&& order(events).order.endpoint() == service::endpoint_at(request.path)->0
    &&& order(events).order.command(settings) is Ok
}

/// The body in the third event.
pub open spec fn order(events: Seq<EventView>) -> PayloadView {
    events[2]->Payload_0->Ok_0
}

proof fn lemma_literals()
    ensures
        "GET"@ != "POST"@,
        "/healthz"@ != "/readyz"@,
{
    reveal_strlit("GET");
    reveal_strlit("POST");
    reveal_strlit("/healthz");
    reveal_strlit("/readyz");
    assert("GET"@.len() != "POST"@.len());
    assert("/healthz"@.len() != "/readyz"@.len());
}

/// Where an exchange for a write endpoint stands, by the number of events.
proof fn lemma_write_run(settings: Settings, request: RequestView, events: Seq<EventView>)
    requires
        is_write(request),
        awaited(settings, request, events),
    ensures
        ({
            let endpoint = service::endpoint_at(request.path)->0;
            let body = request.body->Ok_0;
            let at = run(settings, request, events);
            let token = jws::presented(request.authorization);
            let command = order(events).order.command(settings);
            &&& events.len() <= 5
            &&& events.len() == 0 ==> at == (
                ExchangeView::Clock { endpoint, authorization: request.authorization, body },
                ActionView::ReadClock,
            )
            &&& events.len() == 1 ==> events[0] is Now && at == match token {
                None => service::refused(Failure::Unauthorized),
                Some(token) => (
                    ExchangeView::Token { endpoint, token, now: events[0]->Now_0, body },
                    ActionView::ReadToken { header: token.header, claims: token.payload },
                ),
            }
            &&& events.len() >= 2 ==> token is Some && events[0] is Now && events[1] is Token
            &&& events.len() == 2 ==> at == if admitted(settings, request, events) {
                (ExchangeView::Payload { endpoint }, ActionView::ReadPayload { endpoint, body })
            } else {
                service::refused(Failure::Unauthorized)
            }
            &&& events.len() >= 3 ==> admitted(settings, request, events) && events[2] is Payload
            &&& events.len() == 3 ==> at == match events[2]->Payload_0 {
                Err(error) => service::refused(Failure::BadRequest("invalid json: "@ + error)),
                Ok(payload) => match payload.order.command(settings) {
                    Err(failure) => service::refused(failure),
                    Ok(command) => (
                        ExchangeView::Schedule {
                            realm_id: payload.realm_id,
                            run_after_seconds: payload.run_after_seconds,
                            command,
                        },
                        ActionView::ReadClock,
                    ),
                },
            }
            &&& events.len() == 3 && events[2]->Payload_0 is Ok ==> order(events).order.endpoint()
                == endpoint
            &&& events.len() >= 4 ==> ordered(settings, request, events) && events[3] is Now
            &&& events.len() == 4 ==> at == (
                ExchangeView::Queue,
                ActionView::Enqueue(
                    service::scheduled(
                        settings,
                        order(events).realm_id,
                        order(events).run_after_seconds,
                        command->Ok_0,
                        events[3]->Now_0,
                    ),
                ),
            )
            &&& events.len() == 5 ==> events[4] is Enqueued && at == match service::queue_reply(
                events[4]->Enqueued_0,
            ) {
                Ok(reply) => service::done(reply),
                Err(failure) => service::refused(failure),
            }
        }),
    decreases events.len(),
{
    lemma_literals();
    if events.len() > 0 {
        let before = events.drop_last();
        lemma_write_run(settings, request, before);
    }
}

/// Where an exchange for anything but a write endpoint stands.
proof fn lemma_other_run(settings: Settings, request: RequestView, events: Seq<EventView>)
    requires
        !is_write(request),
        awaited(settings, request, events),
    ensures
        events.len() <= 1,
        events.len() == 0 ==> run(settings, request, events) == service::begun(request),
        events.len() == 0 && is_readiness(request) ==> run(settings, request, events) == (
            ExchangeView::Health,
            ActionView::CheckHealth,
        ),
        events.len() == 0 && !is_readiness(request) ==> run(settings, request, events).0 is Done
            && run(settings, request, events).1 is Reply,
        events.len() == 1 ==> is_readiness(request) && events[0] is Health && run(
            settings,
            request,
            events,
        ) == match service::health_reply(events[0]->Health_0) {
            Ok(reply) => service::done(reply),
            Err(failure) => service::refused(failure),
        },
    decreases events.len(),
{
    lemma_literals();
    if events.len() > 0 {
        lemma_other_run(settings, request, events.drop_last());
    }
}

/// A command reaches the sink only on a request to an endpoint that queues commands,
/// whose token was accepted at the time read before, and whose body asks for just
/// that command and may have it queued.
pub proof fn law_only_accepted_requests_reach_the_sink(
    settings: Settings,
    request: RequestView,
    events: Seq<EventView>,
    queued: QueueCommandView,
)
    requires
        awaited(settings, request, events),
        run(settings, request, events).1 == ActionView::Enqueue(queued),
    ensures
        is_write(request),
        events.len() == 4,
        admitted(settings, request, events),
        ordered(settings, request, events),
        events[3] is Now,
        queued == service::scheduled(
            settings,
            order(events).realm_id,
            order(events).run_after_seconds,
            order(events).order.command(settings)->Ok_0,
            events[3]->Now_0,
        ),
{
    if is_write(request) {
        lemma_write_run(settings, request, events);
    } else {
        lemma_other_run(settings, request, events);
    }
}

/// A request to an endpoint that queues commands, with an accepted token and a body
/// whose command may be queued, has that command handed to the sink, unless the
/// time at which it should run is out of range.
pub proof fn law_accepted_requests_reach_the_sink(
    settings: Settings,
    request: RequestView,
    events: Seq<EventView>,
)
    requires
        is_write(request),
        events.len() == 4,
        admitted(settings, request, events),
        ordered(settings, request, events),
        events[3] is Now,
        events[3]->Now_0 + service::delay(order(events).run_after_seconds) <= u64::MAX,
    ensures
        awaited(settings, request, events),
        run(settings, request, events).1 == ActionView::Enqueue(
            service::scheduled(
                settings,
                order(events).realm_id,
                order(events).run_after_seconds,
                order(events).order.command(settings)->Ok_0,
                events[3]->Now_0,
            ),
        ),
{
    lemma_literals();
    let three = events.drop_last();
    let two = three.drop_last();
    let one = two.drop_last();
    let none = one.drop_last();
    assert(awaited(settings, request, none));
    lemma_write_run(settings, request, none);
    assert(awaited(settings, request, one));
    lemma_write_run(settings, request, one);
    assert(awaited(settings, request, two));
    lemma_write_run(settings, request, two);
    assert(awaited(settings, request, three));
    lemma_write_run(settings, request, three);
    assert(awaited(settings, request, events));
    lemma_write_run(settings, request, events);
}

/// A request to an endpoint that queues commands is answered `401` where it carries
/// no token that can be opened, as soon as the time has been read.
pub proof fn law_missing_tokens_are_unauthorized(
    settings: Settings,
    request: RequestView,
    now: u64,
)
    requires
        is_write(request),
        jws::presented(request.authorization) is None,
    ensures
        awaited(settings, request, seq![EventView::Now(now)]),
        run(settings, request, seq![EventView::Now(now)]) == service::done(
            Failure::Unauthorized.reply(),
        ),
        Failure::Unauthorized.reply().status == 401,
{
    let one = seq![EventView::Now(now)];
    lemma_literals();
    lemma_write_run(settings, request, one.drop_last());
    assert(awaited(settings, request, one.drop_last()));
    assert(awaited(settings, request, one));
    lemma_write_run(settings, request, one);
}

/// A request to an endpoint that queues commands is answered `401` where its token is
/// not accepted, as soon as the token has been read.
pub proof fn law_refused_tokens_are_unauthorized(
    settings: Settings,
    request: RequestView,
    now: u64,
    alg: Option<Seq<char>>,
    claims: Option<jws::ClaimsView>,
)
    requires
        is_write(request),
        jws::presented(request.authorization) is Some,
        !jws::accepted(
            jws::presented(request.authorization)->0,
            alg,
            claims,
            settings.policy,
            now,
        ),
    ensures
        awaited(settings, request, seq![EventView::Now(now), EventView::Token { alg, claims }]),
        run(settings, request, seq![EventView::Now(now), EventView::Token { alg, claims }])
            == service::done(Failure::Unauthorized.reply()),
        Failure::Unauthorized.reply().status == 401,
{
    let two = seq![EventView::Now(now), EventView::Token { alg, claims }];
    let one = two.drop_last();
    let none = one.drop_last();
    lemma_literals();
    assert(one.last() == EventView::Now(now));
    assert(awaited(settings, request, none));
    lemma_write_run(settings, request, none);
    assert(awaited(settings, request, one));
    lemma_write_run(settings, request, one);
    assert(awaited(settings, request, two));
    lemma_write_run(settings, request, two);
}

/// Every exchange ends: it asks for five pieces of work at most, and it waits for
/// nothing more exactly when it has replied.
pub proof fn law_every_exchange_ends(
    settings: Settings,
    request: RequestView,
    events: Seq<EventView>,
)
    requires
        awaited(settings, request, events),
    ensures
        events.len() <= 5,
        events.len() == 5 ==> run(settings, request, events).0 is Done,
        run(settings, request, events).0 is Done <==> run(settings, request, events).1 is Reply,
        run(settings, request, events).0 is Done ==> forall|event: EventView|
            !service::awaits(run(settings, request, events).0, event),
{
    if is_write(request) {
        lemma_write_run(settings, request, events);
    } else {
        lemma_other_run(settings, request, events);
    }
}

/// `201` is answered exactly when the sink took the command.
pub proof fn law_created_means_taken(
    settings: Settings,
    request: RequestView,
    events: Seq<EventView>,
    reply: ReplyView,
)
    requires
        awaited(settings, request, events),
        run(settings, request, events).1 == ActionView::Reply(reply),
    ensures
        reply.status == 201 <==> {
            &&& events.len() == 5
            &&& events[4] is Enqueued
            &&& events[4]->Enqueued_0 is Ok
            &&& events[4]->Enqueued_0->Ok_0 is Ok
        },
{
    if is_write(request) {
        lemma_write_run(settings, request, events);
    } else {
        lemma_other_run(settings, request, events);
    }
}

/// A request for which there is no route is answered `404`, with the path that it
/// asked for.
pub proof fn law_unknown_routes_are_not_found(request: RequestView)
    requires
        request.body is Ok,
        !(request.method == "GET"@ && (request.path == "/healthz"@ || request.path
            == "/readyz"@)),
        !(request.method == "POST"@ && service::endpoint_at(request.path) is Some),
    ensures
        service::begun(request) == service::done(
            error::json_reply(
                404,
                error::failure_members("unsupported route: "@ + request.path),
            ),
        ),
{
    reveal_strlit("unsupported route:");
    reveal_strlit("unsupported route: ");
    let message = "unsupported route: "@ + request.path;
    assert("unsupported route:"@ == message.subrange(0, "unsupported route:"@.len() as int));
}

/// The readiness endpoint answers `200` exactly when the sink is healthy, and
/// otherwise with the sink's failure.
pub proof fn law_readiness_is_the_health_of_the_sink(
    settings: Settings,
    request: RequestView,
    health: Result<Result<(), Failure>, Seq<char>>,
)
    requires
        is_readiness(request),
    ensures
        awaited(settings, request, seq![EventView::Health(health)]),
        run(settings, request, seq![EventView::Health(health)]) == match health {
            Ok(Ok(())) => service::done(service::status_reply("ready"@)),
            Ok(Err(failure)) => service::refused(failure),
            Err(error) => service::refused(
                Failure::Internal("health worker failed: "@ + error),
            ),
        },
        service::status_reply("ready"@).status == 200,
        forall|failure: Failure| (#[trigger] service::failure_reply(failure)).status >= 400,
{
    let one = seq![EventView::Health(health)];
    lemma_literals();
    lemma_other_run(settings, request, one.drop_last());
    assert(awaited(settings, request, one.drop_last()));
    assert(awaited(settings, request, one));
    lemma_other_run(settings, request, one);
}

/// A failure to read the body of any request is answered `400`, and nothing else is
/// done.
pub proof fn law_unreadable_bodies_are_bad_requests(request: RequestView)
    requires
        request.body is Err,
    ensures
        service::begun(request) == service::done(
            error::json_reply(
                400,
                error::failure_members("failed to read request body: "@ + request.body->Err_0),
            ),
        ),
{
}

/// The liveness endpoint answers `200` at once, whatever the request carries.
pub proof fn law_liveness_needs_nothing(request: RequestView)
    requires
        request.method == "GET"@,
        request.path == "/healthz"@,
        request.body is Ok,
    ensures
        service::begun(request) == service::done(service::status_reply("ok"@)),
        service::status_reply("ok"@).status == 200,
{
}

/// A request with an accepted token is answered with what is wrong with its body, and
/// nothing reaches the sink: `400` where the body cannot be read, and otherwise the
/// failure of the command that it asks for.
pub proof fn law_refused_orders_are_answered(
    settings: Settings,
    request: RequestView,
    events: Seq<EventView>,
)
    requires
        is_write(request),
        events.len() == 3,
        admitted(settings, request, events),
        events[2] is Payload,
        events[2]->Payload_0 is Ok ==> order(events).order.endpoint() == service::endpoint_at(
            request.path,
        )->0 && order(events).order.command(settings) is Err,
    ensures
        awaited(settings, request, events),
        run(settings, request, events) == match events[2]->Payload_0 {
            Err(error) => service::done(
                error::json_reply(400, error::failure_members("invalid json: "@ + error)),
            ),
            Ok(payload) => service::refused(payload.order.command(settings)->Err_0),
        },
{
    let two = events.drop_last();
    let one = two.drop_last();
    let none = one.drop_last();
    lemma_literals();
    assert(awaited(settings, request, none));
    lemma_write_run(settings, request, none);
    assert(awaited(settings, request, one));
    lemma_write_run(settings, request, one);
    assert(awaited(settings, request, two));
    lemma_write_run(settings, request, two);
    assert(awaited(settings, request, events));
    lemma_write_run(settings, request, events);
    reveal_strlit("invalid json: ");
    reveal_strlit("unsupported route:");
    if events[2]->Payload_0 is Err {
        let message = "invalid json: "@ + events[2]->Payload_0->Err_0;
        assert(message[2] == 'v' && "unsupported route:"@[2] == 's');
        assert(!"unsupported route:"@.is_prefix_of(message)) by {
            if "unsupported route:"@.is_prefix_of(message) {
                assert(message.subrange(0, "unsupported route:"@.len() as int)[2] == message[2]);
            }
        }
    }
}

/// A raw command that the allowlist does not cover is answered `403`.
pub proof fn law_uncovered_commands_are_forbidden(settings: Settings, command: Seq<char>)
    requires
        command::raw_command(command) is Ok,
        !command::allowlisted(settings.allowlist, command::raw_command(command)->Ok_0),
    ensures
        ({
            let order = service::Order::Raw { command };
            &&& order.command(settings) is Err
            &&& service::failure_reply(order.command(settings)->Err_0).status == 403
        }),
{
}

/// The allowlist is for raw commands: on every other path, an exchange runs the same
/// with any allowlist.
pub proof fn law_allowlist_is_for_raw_commands(
    settings: Settings,
    allowlist: Seq<Seq<char>>,
    request: RequestView,
    events: Seq<EventView>,
)
    requires
        service::endpoint_at(request.path) != Some(Endpoint::Commands),
        awaited(settings, request, events),
    ensures
        ({
            let other = Settings {
                policy: settings.policy,
                default_realm_id: settings.default_realm_id,
                allowlist,
            };
            &&& awaited(other, request, events)
            &&& run(other, request, events) == run(settings, request, events)
        }),
    decreases events.len(),
{
    if events.len() > 0 {
        let before = events.drop_last();
        law_allowlist_is_for_raw_commands(settings, allowlist, request, before);
        if is_write(request) {
            lemma_write_run(settings, request, before);
        } else {
            lemma_other_run(settings, request, before);
        }
    }
}

/// Commands are taken at three paths, and at no other.
pub proof fn law_paths_of_the_endpoints(path: Seq<char>)
    ensures
        service::endpoint_at(path) == Some(Endpoint::Commands) <==> path
            == "/api/v1/gm/commands"@,
        service::endpoint_at(path) == Some(Endpoint::Revive) <==> path == "/api/v1/gm/revive"@,
        service::endpoint_at(path) == Some(Endpoint::Teleport) <==> path
            == "/api/v1/gm/teleport"@,
{
    reveal_strlit("/api/v1/gm/commands");
    reveal_strlit("/api/v1/gm/revive");
    reveal_strlit("/api/v1/gm/teleport");
    assert("/api/v1/gm/commands"@[11] == 'c');
    assert("/api/v1/gm/revive"@[11] == 'r');
    assert("/api/v1/gm/teleport"@[11] == 't');
}

/// A request to a path that takes commands begins with the clock, and keeps its header
/// and its body for later; one for the readiness begins with the sink's health.
pub proof fn law_requests_begin(
    authorization: Option<Seq<u8>>,
    body: Seq<u8>,
    path: Seq<char>,
    endpoint: Endpoint,
)
    requires
        endpoint is Commands ==> path == "/api/v1/gm/commands"@,
        endpoint is Revive ==> path == "/api/v1/gm/revive"@,
        endpoint is Teleport ==> path == "/api/v1/gm/teleport"@,
    ensures
        service::begun(RequestView { method: "POST"@, path, authorization, body: Ok(body) }) == (
            ExchangeView::Clock { endpoint, authorization, body },
            ActionView::ReadClock,
        ),
        service::begun(
            RequestView { method: "GET"@, path: "/readyz"@, authorization, body: Ok(body) },
        ) == (ExchangeView::Health, ActionView::CheckHealth),
{
    lemma_literals();
    law_paths_of_the_endpoints(path);
}

/// A command is scheduled for the realm that is asked for, whatever the default, and
/// for the default realm where none is asked for; and for the time on the clock plus
/// the seconds that are asked for, if any.
pub proof fn law_commands_are_scheduled_as_asked(
    settings: Settings,
    realm_id: Option<u32>,
    run_after_seconds: Option<u64>,
    command: Seq<char>,
    now: u64,
)
    requires
        run_after_seconds matches Some(seconds) ==> now + seconds <= 0xffff_ffff_ffff_ffff,
    ensures
        ({
            let queued = service::scheduled(settings, realm_id, run_after_seconds, command, now);
            &&& queued.command == command
            &&& realm_id matches Some(realm) ==> queued.realm_id == realm
            &&& realm_id is None ==> queued.realm_id == settings.default_realm_id
            &&& run_after_seconds matches Some(seconds) ==> queued.run_at_unix == now + seconds
            &&& run_after_seconds is None ==> queued.run_at_unix == now
        }),
{
}

/// What is handed to the sink is the command that the body asks for, for the realm that
/// the body names or the default realm where it names none, and for the time that was
/// read last plus the delay in the body, or none.
pub proof fn law_queued_commands_are_as_asked(
    settings: Settings,
    request: RequestView,
    events: Seq<EventView>,
    queued: QueueCommandView,
)
    requires
        awaited(settings, request, events),
        run(settings, request, events).1 == ActionView::Enqueue(queued),
    ensures
        events.len() == 4,
        events[2] is Payload && events[2]->Payload_0 is Ok && events[3] is Now,
        ({
            let body = events[2]->Payload_0->Ok_0;
            let now = events[3]->Now_0;
            &&& body.order.command(settings) == Ok::<_, Failure>(queued.command)
            &&& body.realm_id matches Some(realm) ==> queued.realm_id == realm
            &&& body.realm_id is None ==> queued.realm_id == settings.default_realm_id
            &&& body.run_after_seconds matches Some(seconds) ==> queued.run_at_unix == now
                + seconds
            &&& body.run_after_seconds is None ==> queued.run_at_unix == now
        }),
{
    law_only_accepted_requests_reach_the_sink(settings, request, events, queued);
    assert(service::awaits(
        run(settings, request, events.drop_last()).0,
        events.last(),
    ));
    lemma_write_run(settings, request, events.drop_last());
}

/// What an exchange waits for: the work that was asked for last, whatever it gave, but
/// for a body for another endpoint, and a time that puts the command's beyond 64 bits.
pub proof fn law_work_is_awaited(
    endpoint: Endpoint,
    authorization: Option<Seq<u8>>,
    body: Seq<u8>,
    token: jws::TokenView,
    now: u64,
    realm_id: Option<u32>,
    run_after_seconds: Option<u64>,
    command: Seq<char>,
    event: EventView,
)
    ensures
        service::awaits(ExchangeView::Health, event) <==> event is Health,
        service::awaits(ExchangeView::Clock { endpoint, authorization, body }, event)
            <==> event is Now,
        service::awaits(ExchangeView::Token { endpoint, token, now, body }, event)
            <==> event is Token,
        service::awaits(ExchangeView::Payload { endpoint }, event) <==> event is Payload && (
        event->Payload_0 is Err || match (endpoint, event->Payload_0->Ok_0.order) {
            (Endpoint::Commands, service::Order::Raw { .. }) => true,
            (Endpoint::Revive, service::Order::Revive { .. }) => true,
            (Endpoint::Teleport, service::Order::Teleport { .. }) => true,
            _ => false,
        }),
        service::awaits(
            ExchangeView::Schedule { realm_id, run_after_seconds, command },
            event,
        ) <==> event is Now && (run_after_seconds is None || event->Now_0 + run_after_seconds->0
            <= 0xffff_ffff_ffff_ffff),
        service::awaits(ExchangeView::Queue, event) <==> event is Enqueued,
        !service::awaits(ExchangeView::Done, event),
{
}

/// The bytes that are read as a token's header and claims are those of the token that
/// the request presents.
pub proof fn law_the_presented_token_is_read(settings: Settings, request: RequestView, now: u64)
    requires
        is_write(request),
        jws::presented(request.authorization) is Some,
    ensures
        ({
            let one = seq![EventView::Now(now)];
            let token = jws::presented(request.authorization)->0;
            &&& awaited(settings, request, one)
            &&& run(settings, request, one).1 == ActionView::ReadToken {
                header: token.header,
                claims: token.payload,
            }
        }),
{
    let one = seq![EventView::Now(now)];
    lemma_literals();
    lemma_write_run(settings, request, one.drop_last());
    assert(awaited(settings, request, one.drop_last()));
    assert(awaited(settings, request, one));
    lemma_write_run(settings, request, one);
}

/// After an accepted token, the request's own body is read, as the path's endpoint has
/// it.
pub proof fn law_the_body_is_read_after_the_token(
    settings: Settings,
    request: RequestView,
    events: Seq<EventView>,
)
    requires
        is_write(request),
        events.len() == 2,
        admitted(settings, request, events),
    ensures
        awaited(settings, request, events),
        run(settings, request, events).1 == (ActionView::ReadPayload {
            endpoint: service::endpoint_at(request.path)->0,
            body: request.body->Ok_0,
        }),
{
    let one = events.drop_last();
    let none = one.drop_last();
    lemma_literals();
    assert(awaited(settings, request, none));
    lemma_write_run(settings, request, none);
    assert(awaited(settings, request, one));
    lemma_write_run(settings, request, one);
    assert(awaited(settings, request, events));
    lemma_write_run(settings, request, events);
}

/// A request with a token that is in order, and a body whose command may be queued, has
/// the command handed to the sink. What is in order is said of the token itself.
pub proof fn law_requests_in_order_reach_the_sink(
    settings: Settings,
    request: RequestView,
    events: Seq<EventView>,
    token: jws::TokenView,
    claims: jws::ClaimsView,
    now: u64,
    later: u64,
    payload: PayloadView,
)
    requires
        is_write(request),
        jws::presented(request.authorization) == Some(token),
        events == seq![
            EventView::Now(now),
            EventView::Token { alg: Some("HS256"@), claims: Some(claims) },
            EventView::Payload(Ok(payload)),
            EventView::Now(later),
        ],
        token.signature == jws::hmac_sha256(
            settings.policy.secret,
            vstd::utf8::encode_utf8(token.signing_input),
        ),
        claims.iss == settings.policy.issuer,
        claims.aud.contains(settings.policy.audience),
        now < claims.exp,
        claims.nbf is None || claims.nbf->0 <= now,
        payload.order.endpoint() == service::endpoint_at(request.path)->0,
        payload.order.command(settings) is Ok,
        payload.run_after_seconds is None || later + payload.run_after_seconds->0
            <= 0xffff_ffff_ffff_ffff,
    ensures
        awaited(settings, request, events),
        run(settings, request, events).1 is Enqueue,
        run(settings, request, events).1->Enqueue_0.command == payload.order.command(
            settings,
        )->Ok_0,
{
    law_accepted_requests_reach_the_sink(settings, request, events);
}

/// What the sink says of a command is what is answered: its receipt, with `201`; its
/// failure; or that the worker failed.
pub proof fn law_the_sink_is_answered_for(
    settings: Settings,
    request: RequestView,
    events: Seq<EventView>,
    queued: Result<Result<QueueReceiptView, Failure>, Seq<char>>,
)
    requires
        awaited(settings, request, events),
        run(settings, request, events).1 is Enqueue,
    ensures
        ({
            let all = events.push(EventView::Enqueued(queued));
            &&& awaited(settings, request, all)
            &&& run(settings, request, all).0 is Done
            &&& match queued {
                Ok(Ok(receipt)) => run(settings, request, all).1 == ActionView::Reply(
                    ReplyView {
                        status: 201,
                        content_type: "application/json"@,
                        body: "{\"ok\":true,\"queued\":{\"command\":"@ + json::json_string(
                            receipt.command,
                        ) + ",\"id\":"@ + text::decimal(receipt.id as nat) + ",\"realm_id\":"@
                            + text::decimal(receipt.realm_id as nat) + ",\"run_at_unix\":"@
                            + text::decimal(receipt.run_at_unix as nat) + "}}"@,
                    },
                ),
                Ok(Err(failure)) => run(settings, request, all).1 == ActionView::Reply(
                    service::failure_reply(failure),
                ),
                Err(error) => run(settings, request, all).1 == ActionView::Reply(
                    service::failure_reply(Failure::Internal("queue worker failed: "@ + error)),
                ),
            }
        }),
{
    let all = events.push(EventView::Enqueued(queued));
    assert(all.drop_last() == events);
    if is_write(request) {
        lemma_write_run(settings, request, events);
    } else {
        lemma_other_run(settings, request, events);
    }
    if queued is Ok && queued->Ok_0 is Ok {
        json_laws::law_receipt_bodies(queued->Ok_0->Ok_0);
    }
}

/// Every failure has its status and its text, and is answered with both in JSON; only
/// an unsupported route is answered otherwise, with `404`.
pub proof fn law_failures_are_answered(failure: Failure)
    ensures
        match failure {
            Failure::Unauthorized => failure.status() == 401 && failure.message()
                == "unauthorized"@,
            Failure::Forbidden(m) => failure.status() == 403 && failure.message() == m,
            Failure::BadRequest(m) => failure.status() == 400 && failure.message() == m,
            Failure::Upstream(m) => failure.status() == 502 && failure.message() == m,
            Failure::Dependency(m) => failure.status() == 502 && failure.message() == m,
            Failure::Internal(m) => failure.status() == 500 && failure.message() == m,
        },
        failure.reply() == (ReplyView {
            status: failure.status(),
            content_type: "application/json"@,
            body: "{\"error\":"@ + json::json_string(failure.message()) + ",\"ok\":false}"@,
        }),
        ({
            let reply = service::failure_reply(failure);
            let unrouted = failure is BadRequest && text_laws::stands_at(
                failure.message(),
                "unsupported route:"@,
                0,
            );
            &&& !unrouted ==> reply == failure.reply()
            &&& unrouted ==> reply == ReplyView {
                status: 404,
                content_type: "application/json"@,
                body: failure.reply().body,
            }
        }),
{
    json_laws::law_failure_bodies(failure.message());
    let route = "unsupported route:"@;
    let message = failure.message();
    assert(route.is_prefix_of(message) <==> text_laws::stands_at(message, route, 0)) by {
        if route.is_prefix_of(message) {
            assert forall|k: int| 0 <= k < route.len() implies #[trigger] message[0 + k]
                == route[k] by {
                assert(message.subrange(0, route.len() as int)[k] == message[k]);
            }
        }
        if text_laws::stands_at(message, route, 0) {
            assert forall|k: int| 0 <= k < route.len() implies message.subrange(
                0,
                route.len() as int,
            )[k] == route[k] by {
                assert(message[0 + k] == route[k]);
            }
            assert(route =~= message.subrange(0, route.len() as int));
        }
    }
}

/// The health of the sink is what readiness answers, and both kinds of status are told
/// in JSON.
pub proof fn law_statuses_are_answered(
    status: Seq<char>,
    failure: Failure,
    error: Seq<char>,
)
    ensures
        service::status_reply(status) == (ReplyView {
            status: 200,
            content_type: "application/json"@,
            body: "{\"status\":"@ + json::json_string(status) + "}"@,
        }),
        service::health_reply(Ok(Ok(()))) == Ok::<_, Failure>(service::status_reply("ready"@)),
        service::health_reply(Ok(Err(failure))) == Err::<ReplyView, _>(failure),
        service::health_reply(Err(error)) == Err::<ReplyView, _>(
            Failure::Internal("health worker failed: "@ + error),
        ),
{
    json_laws::law_status_bodies(status);
}

/// The answer to a failure is the last step of an exchange, and so is every reply.
pub proof fn law_refusals_end_the_exchange(failure: Failure, reply: ReplyView)
    ensures
        service::done(reply) == (ExchangeView::Done, ActionView::Reply(reply)),
        service::refused(failure) == (
            ExchangeView::Done,
            ActionView::Reply(service::failure_reply(failure)),
        ),
        service::settled(Err(failure)) == (
            ExchangeView::Done,
            ActionView::Reply(service::failure_reply(failure)),
        ),
        forall|step: service::Step| #[trigger] service::settled(Ok(step)) == step,
{
}

} // verus!
