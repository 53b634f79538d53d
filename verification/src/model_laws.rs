//! What the models keep of the values that they stand for.
use vstd::prelude::*;

use crate::error;
use crate::error::AppError;
use crate::error::Failure;
use crate::jws;
use crate::jws::JwsAudience;
use crate::jws::JwsClaims;
use crate::jws::JwsHeader;
use crate::mariadb;
use crate::mariadb::ProcessOutput;
use crate::service;
use crate::service::Event;
use crate::service::EventView;
use crate::service::Order;
use crate::service::Payload;
use crate::service::RawCommandRequest;
use crate::service::Request;
use crate::service::ReviveRequest;
use crate::service::TeleportRequest;
use crate::state::QueueCommand;
use crate::state::QueueReceipt;
use crate::world;
use crate::world::TransportError;

verus! {

/// An audience holds each of those that it names, and nobody else.
pub proof fn law_audiences_hold_whom_they_name(one: String, many: Vec<String>, who: Seq<char>)
    ensures
        JwsAudience::One(one)@.contains(who) <==> one@ == who,
        JwsAudience::Many(many)@.contains(who) <==> exists|i: int|
            0 <= i < many@.len() && (#[trigger] many@[i])@ == who,
{
    let all = many.deep_view();
    assert(all.len() == many@.len());
    assert forall|i: int| 0 <= i < many@.len() implies all[i] == (#[trigger] many@[i])@ by {}
    if exists|i: int| 0 <= i < many@.len() && (#[trigger] many@[i])@ == who {
        let i = choose|i: int| 0 <= i < many@.len() && (#[trigger] many@[i])@ == who;
        assert(all[i] == who);
        assert(all.contains(who));
    }
    if all.contains(who) {
        let i = choose|i: int| 0 <= i < all.len() && all[i] == who;
        assert(many@[i]@ == who);
    }
}

/// Claims and headers are judged by what they say.
pub proof fn law_claims_are_what_they_say(header: JwsHeader, claims: JwsClaims)
    ensures
        claims@.iss == claims.iss@,
        claims@.aud == claims.aud@,
        claims@.exp == claims.exp,
        claims@.nbf == claims.nbf,
        jws::alg_of(Some(header)) == Some(header.alg@),
        jws::alg_of(None) is None,
        jws::claims_of(Some(claims)) == Some(claims@),
        jws::claims_of(None) is None,
        (Event::Token { header: Some(header), claims: Some(claims) })@ == (EventView::Token {
            alg: Some(header.alg@),
            claims: Some(claims@),
        }),
{
}

/// Commands and receipts are what they hold.
pub proof fn law_commands_and_receipts(command: QueueCommand, receipt: QueueReceipt)
    ensures
        command@.realm_id == command.realm_id,
        command@.command == command.command@,
        command@.run_at_unix == command.run_at_unix,
        receipt@.id == receipt.id,
        receipt@.realm_id == receipt.realm_id,
        receipt@.command == receipt.command@,
        receipt@.run_at_unix == receipt.run_at_unix,
{
}

/// The body of a request asks for what it holds, for its realm and with its delay.
pub proof fn law_payloads(raw: RawCommandRequest, revive: ReviveRequest, teleport: TeleportRequest)
    ensures
        Payload::Raw(raw)@.order == (Order::Raw { command: raw.command@ }),
        Payload::Raw(raw)@.realm_id == raw.realm_id,
        Payload::Raw(raw)@.run_after_seconds == raw.run_after_seconds,
        Payload::Revive(revive)@.order == (Order::Revive { character: revive.character@ }),
        Payload::Revive(revive)@.realm_id == revive.realm_id,
        Payload::Revive(revive)@.run_after_seconds == revive.run_after_seconds,
        Payload::Teleport(teleport)@.order == (Order::Teleport {
            character: teleport.character@,
            teleport: teleport.teleport@,
        }),
        Payload::Teleport(teleport)@.realm_id == teleport.realm_id,
        Payload::Teleport(teleport)@.run_after_seconds == teleport.run_after_seconds,
{
}

/// A request is its method, its path, its header and its body.
pub proof fn law_requests(request: Request)
    ensures
        request@.method == request.method@,
        request@.path == request.path@,
        request@.authorization is Some <==> request.authorization is Some,
        request.authorization matches Some(value) ==> request@.authorization == Some(value@),
        request.body matches Ok(body) ==> request@.body == Ok::<_, Seq<char>>(body@),
        request.body matches Err(error) ==> request@.body == Err::<Seq<u8>, _>(error@),
{
    if request.authorization is Some {
        assert(request.authorization->0.deep_view() == request.authorization->0@);
    }
}

/// A failure keeps its kind and its text, and a result its side.
pub proof fn law_failures(text: String, receipt: QueueReceipt, error: AppError)
    ensures
        AppError::Unauthorized@ == Failure::Unauthorized,
        AppError::Forbidden(text)@ == Failure::Forbidden(text@),
        AppError::BadRequest(text)@ == Failure::BadRequest(text@),
        AppError::Upstream(text)@ == Failure::Upstream(text@),
        AppError::Dependency(text)@ == Failure::Dependency(text@),
        AppError::Internal(text)@ == Failure::Internal(text@),
        error::outcome(Ok::<QueueReceipt, AppError>(receipt)) == Ok::<_, Failure>(receipt@),
        error::outcome(Err::<QueueReceipt, AppError>(error)) is Err,
        error::outcome(Err::<QueueReceipt, AppError>(error))->Err_0 == error@,
        service::worked(Ok::<Result<QueueReceipt, AppError>, String>(Ok(receipt))) == Ok::<
            _,
            Seq<char>,
        >(Ok::<_, Failure>(receipt@)),
        service::worked(Err::<Result<QueueReceipt, AppError>, String>(text)) is Err,
        service::worked(Err::<Result<QueueReceipt, AppError>, String>(text))->Err_0 == text@,
{
}

/// What came back from a program, or from the world server, is kept as it came.
pub proof fn law_what_came_back(
    output: ProcessOutput,
    response: String,
    transport: TransportError,
)
    ensures
        output@.success == output.success,
        output@.status == output.status@,
        output@.stdout == output.stdout@,
        output@.stderr == output.stderr@,
        mariadb::ran(Ok(output)) == Ok::<_, Seq<char>>(output@),
        mariadb::ran(Err(response)) == Err::<mariadb::ProcessOutputView, _>(response@),
        world::answered(Ok(response)) == Ok::<_, world::TransportErrorView>(response@),
        world::answered(Err(transport)) == Err::<Seq<char>, _>(transport@),
        transport@.stage == transport.stage,
        transport@.error == transport.error@,
{
}

} // verus!
