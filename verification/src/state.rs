//! The service's state, and the services that it is given: a clock and a sink
//! for commands.
use std::sync::Arc;
use vstd::prelude::*;

use crate::error::AppError;
use crate::jws;

verus! {

/// A source of the current time.
pub trait Clock: Send + Sync {
    /// The seconds since the Unix epoch.
    fn now_epoch_seconds(&self) -> u64;
}

/// The clock of the machine.
pub struct SystemClock;

/// `std::time::SystemTime::elapsed` of the Unix epoch: the time since then, unless
/// the clock stands before it. Nothing is claimed of the time.
#[verifier::external_body]
fn since_unix_epoch() -> (r: Option<std::time::Duration>) {
    std::time::UNIX_EPOCH.elapsed().ok()
}

/// The whole seconds in a span of time.
pub uninterp spec fn whole_seconds(d: std::time::Duration) -> u64;

/// `std::time::Duration::as_secs`: the whole seconds in the span, which depend on the
/// span alone.
pub assume_specification[ std::time::Duration::as_secs ](d: &std::time::Duration) -> (r: u64)
    ensures
        r == whole_seconds(*d),
;

/// The seconds on a clock that reads `elapsed` since the Unix epoch: the whole ones,
/// and none on a clock that stands before the epoch.
pub fn epoch_seconds(elapsed: Option<std::time::Duration>) -> (r: u64)
    ensures
        r == match elapsed {
            Some(elapsed) => whole_seconds(elapsed),
            None => 0,
        },
{
    match elapsed {
        Some(elapsed) => elapsed.as_secs(),
        None => 0,
    }
}

impl Clock for SystemClock {
    fn now_epoch_seconds(&self) -> u64 {
        epoch_seconds(since_unix_epoch())
    }
}

/// A command to be run.
#[derive(Clone, Debug, PartialEq, Eq)]
pub struct QueueCommand {
    pub realm_id: u32,
    pub command: String,
    pub run_at_unix: u64,
}

/// The model of a [`QueueCommand`].
pub struct QueueCommandView {
    pub realm_id: u32,
    pub command: Seq<char>,
    pub run_at_unix: u64,
}

impl View for QueueCommand {
    type V = QueueCommandView;

    open spec fn view(&self) -> QueueCommandView {
        QueueCommandView {
            realm_id: self.realm_id,
            command: self.command@,
            run_at_unix: self.run_at_unix,
        }
    }
}

/// The proof that a command was taken, with the number that it was given.
#[derive(Clone, Debug, PartialEq, Eq)]
pub struct QueueReceipt {
    pub id: u64,
    pub realm_id: u32,
    pub command: String,
    pub run_at_unix: u64,
}

/// The model of a [`QueueReceipt`].
pub struct QueueReceiptView {
    pub id: u64,
    pub realm_id: u32,
    pub command: Seq<char>,
    pub run_at_unix: u64,
}

impl View for QueueReceipt {
    type V = QueueReceiptView;

    open spec fn view(&self) -> QueueReceiptView {
        QueueReceiptView {
            id: self.id,
            realm_id: self.realm_id,
            command: self.command@,
            run_at_unix: self.run_at_unix,
        }
    }
}

impl QueueCommandView {
    /// The receipt for the command under the number `id`.
    pub open spec fn receipt(self, id: u64) -> QueueReceiptView {
        QueueReceiptView {
            id,
            realm_id: self.realm_id,
            command: self.command,
            run_at_unix: self.run_at_unix,
        }
    }
}

impl QueueCommand {
    /// The receipt for the command under the number `id`.
    pub(crate) fn into_receipt(self, id: u64) -> (r: QueueReceipt)
        ensures
            r@ == self@.receipt(id),
    {
        QueueReceipt {
            id,
            realm_id: self.realm_id,
            command: self.command,
            run_at_unix: self.run_at_unix,
        }
    }
}

/// Where commands go.
pub trait CommandSink: Send + Sync {
    /// Whether commands can be taken.
    fn healthcheck(&self) -> Result<(), AppError>;

    /// Takes a command.
    fn enqueue(&self, request: QueueCommand) -> Result<QueueReceipt, AppError>;
}

/// What the service is set up with.
pub struct AppState<S: CommandSink + ?Sized = dyn CommandSink, C: Clock + ?Sized = dyn Clock> {
    jws_secret: Arc<Vec<u8>>,
    jws_issuer: Arc<String>,
    jws_audience: Arc<String>,
    default_realm_id: u32,
    command_allowlist: Arc<Vec<String>>,
    sink: Arc<S>,
    clock: Arc<C>,
}

/// What the rules of the service read of its state.
pub struct Settings {
    /// Which tokens grant access.
    pub policy: jws::TokenPolicy,
    /// The realm of a command whose request names none.
    pub default_realm_id: u32,
    /// The raw commands that may be queued.
    pub allowlist: Seq<Seq<char>>,
}

impl<S: CommandSink + ?Sized, C: Clock + ?Sized> View for AppState<S, C> {
    type V = Settings;

    closed spec fn view(&self) -> Settings {
        Settings {
            policy: jws::TokenPolicy {
                secret: self.jws_secret@,
                issuer: self.jws_issuer@,
                audience: self.jws_audience@,
            },
            default_realm_id: self.default_realm_id,
            allowlist: self.command_allowlist.deep_view(),
        }
    }
}

impl<S: CommandSink + ?Sized, C: Clock + ?Sized> AppState<S, C> {
    pub closed spec fn spec_sink(&self) -> Arc<S> {
        self.sink
    }

    pub closed spec fn spec_clock(&self) -> Arc<C> {
        self.clock
    }

    /// The state for tokens of the issuer `jws_issuer`, meant for `jws_audience`
    /// and signed with `jws_secret`.
    pub fn new(
        jws_secret: String,
        jws_issuer: String,
        jws_audience: String,
        default_realm_id: u32,
        command_allowlist: Vec<String>,
        sink: Arc<S>,
        clock: Arc<C>,
    ) -> (r: Self)
        ensures
            r@.policy.secret == vstd::utf8::encode_utf8(jws_secret@),
            r@.policy.issuer == jws_issuer@,
            r@.policy.audience == jws_audience@,
            r@.default_realm_id == default_realm_id,
            r@.allowlist == command_allowlist.deep_view(),
            r.spec_sink() == sink,
            r.spec_clock() == clock,
    {
        AppState {
            jws_secret: Arc::new(jws_secret.as_str().as_bytes_vec()),
            jws_issuer: Arc::new(jws_issuer),
            jws_audience: Arc::new(jws_audience),
            default_realm_id,
            command_allowlist: Arc::new(command_allowlist),
            sink,
            clock,
        }
    }
}

impl<S: CommandSink + ?Sized, C: Clock + ?Sized> AppState<S, C> {
    /// Where commands go.
    pub fn sink(&self) -> (r: Arc<S>)
        ensures
            r == self.spec_sink(),
    {
        self.sink.clone()
    }

    /// Where the time comes from.
    pub fn clock(&self) -> (r: Arc<C>)
        ensures
            r == self.spec_clock(),
    {
        self.clock.clone()
    }

    pub(crate) fn jws_secret(&self) -> (r: &[u8])
        ensures
            r@ == self@.policy.secret,
    {
        self.jws_secret.as_slice()
    }

    pub(crate) fn jws_issuer(&self) -> (r: &str)
        ensures
            r@ == self@.policy.issuer,
    {
        self.jws_issuer.as_str()
    }

    pub(crate) fn jws_audience(&self) -> (r: &str)
        ensures
            r@ == self@.policy.audience,
    {
        self.jws_audience.as_str()
    }

    pub(crate) fn default_realm_id(&self) -> (r: u32)
        ensures
            r == self@.default_realm_id,
    {
        self.default_realm_id
    }

    pub(crate) fn command_allowlist(&self) -> (r: &[String])
        ensures
            r.deep_view() == self@.allowlist,
    {
        self.command_allowlist.as_slice()
    }
}

impl<S: CommandSink + ?Sized, C: Clock + ?Sized> Clone for AppState<S, C> {
    fn clone(&self) -> (r: Self)
        ensures
            r@ == self@,
            r.spec_sink() == self.spec_sink(),
            r.spec_clock() == self.spec_clock(),
    {
        AppState {
            jws_secret: self.jws_secret.clone(),
            jws_issuer: self.jws_issuer.clone(),
            jws_audience: self.jws_audience.clone(),
            default_realm_id: self.default_realm_id,
            command_allowlist: self.command_allowlist.clone(),
            sink: self.sink.clone(),
            clock: self.clock.clone(),
        }
    }
}

} // verus!
