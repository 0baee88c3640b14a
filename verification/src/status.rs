use vstd::prelude::*;

use crate::digits::{push_dec_u64, spec_dec};
use crate::telemetry::{
    parse_telemetry, spec_parse_telemetry, spec_zero_rate, HashRate, SpecTelemetry,
};

verus! {

/// Health classification of the worker process, recomputed on every poll.
#[derive(Clone, Copy, Debug, PartialEq, Eq, Structural)]
pub enum HealthStatus {
    Healthy,
    Warning,
    Unhealthy,
}

/// The ReducedStatus consumed by the outer orchestrator: always
/// constructible, never an error value, so that any failure can degrade to a
/// safe default instead of crashing the poll loop.
#[derive(Clone, Copy, Debug, PartialEq, Eq, Structural)]
pub struct GpuMinerStatus {
    pub is_mining: bool,
    pub hash_rate: HashRate,
    pub estimated_earnings: u64,
}

impl GpuMinerStatus {
    /// The "not yet mining" default that failed fetches degrade to.
    pub fn default_status() -> (r: GpuMinerStatus)
        ensures
            r == spec_default_status(),
    {
        GpuMinerStatus {
            is_mining: false,
            hash_rate: HashRate::zero(),
            estimated_earnings: 0,
        }
    }
}

/// How one telemetry fetch went, as the caller's network layer reports it.
pub enum FetchResult {
    /// The request could not be sent or no connection was made: the worker
    /// is treated as not yet listening.
    SendFailed,
    /// A response arrived but its body could not be read.
    BodyFailed,
    /// A response body arrived; whether it decodes is decided here.
    Body(Vec<u8>),
}

/// The one failure `status` surfaces.
#[derive(Clone, Copy, Debug, PartialEq, Eq, Structural)]
pub enum StatusError {
    /// The response body could not be read from the transport.
    BodyUnavailable,
}

#[verifier::external_type_specification]
#[verifier::external_body]
#[verifier::reject_recursive_types(T)]
pub struct ExWatchSender<T>(tokio::sync::watch::Sender<T>);

#[verifier::external_type_specification]
#[verifier::external_body]
#[verifier::reject_recursive_types(T)]
pub struct ExWatchReceiver<T>(tokio::sync::watch::Receiver<T>);

/// Relies on tokio::sync::watch::channel: creates a single-slot channel
/// holding the given initial value, with one sender and one receiver.
#[verifier::external_body]
fn watch_channel(init: Option<GpuMinerStatus>) -> (tokio::sync::watch::Sender<
    Option<GpuMinerStatus>,
>, tokio::sync::watch::Receiver<Option<GpuMinerStatus>>) {
    tokio::sync::watch::channel(init)
}

/// Relies on tokio::sync::watch::Sender::send: replaces the slot's value and
/// notifies receivers; when every receiver is gone the value is dropped
/// instead, which this library deliberately ignores (last-write-wins, no
/// queueing either way).
#[verifier::external_body]
fn watch_send(
    sender: &tokio::sync::watch::Sender<Option<GpuMinerStatus>>,
    value: Option<GpuMinerStatus>,
) {
    let _ = sender.send(value);
}

/// Relies on tokio::sync::watch::Sender::clone: a second handle to the same
/// slot.
#[verifier::external_body]
fn watch_sender_clone(sender: &tokio::sync::watch::Sender<Option<GpuMinerStatus>>) -> (r:
    tokio::sync::watch::Sender<Option<GpuMinerStatus>>) {
    sender.clone()
}

/// Relies on tokio::sync::watch::Receiver::borrow: reads the value the slot
/// holds now; which value that is depends on what was sent meanwhile, so
/// nothing more is promised.
#[verifier::external_body]
pub fn watch_latest(receiver: &tokio::sync::watch::Receiver<Option<GpuMinerStatus>>) -> (r: Option<
    GpuMinerStatus,
>) {
    *receiver.borrow()
}

/// The writing side of the latest-telemetry slot, with a ghost log of every
/// value this handle has published, newest last.
pub struct StatusBroadcast {
    pub sender: tokio::sync::watch::Sender<Option<GpuMinerStatus>>,
    pub published_log: Ghost<Seq<Option<GpuMinerStatus>>>,
}

impl StatusBroadcast {
    /// A fresh slot holding "unknown", and the reading side for subscribers.
    pub fn new() -> (r: (StatusBroadcast, tokio::sync::watch::Receiver<Option<GpuMinerStatus>>))
        ensures
            r.0.published_log@ == Seq::<Option<GpuMinerStatus>>::empty(),
    {
        let (sender, receiver) = watch_channel(Option::None);
        (StatusBroadcast { sender, published_log: Ghost(Seq::empty()) }, receiver)
    }

    /// Publishes one value: last-write-wins, readers only ever see the most
    /// recent.
    pub fn publish(&mut self, value: Option<GpuMinerStatus>)
        ensures
            final(self).published_log@ == old(self).published_log@.push(value),
    {
        watch_send(&self.sender, value);
        let ghost log = self.published_log@.push(value);
        self.published_log = Ghost(log);
    }

    /// A second writing handle to the same slot, with its own (empty)
    /// publication log.
    pub fn clone_handle(&self) -> (r: StatusBroadcast)
        ensures
            r.published_log@ == Seq::<Option<GpuMinerStatus>>::empty(),
    {
        StatusBroadcast {
            sender: watch_sender_clone(&self.sender),
            published_log: Ghost(Seq::empty()),
        }
    }
}

/// What a telemetry poll resolved to, once the caller's timeout is taken
/// into account.
pub enum FetchOutcome {
    /// The fetch did not finish within the caller's budget.
    TimedOut,
    /// The fetch finished, however it went.
    Completed(FetchResult),
}

/// The ReducedStatus that stands in when a fetch failed or decoded to
/// nothing: not mining, zero rate.
pub open spec fn spec_default_status() -> GpuMinerStatus {
    GpuMinerStatus {
        is_mining: false,
        hash_rate: spec_zero_rate(),
        estimated_earnings: 0,
    }
}

/// The short-window rate a decoded document reports, zero when absent.
pub open spec fn spec_rate_of(t: SpecTelemetry) -> HashRate {
    match t.total.ten_seconds {
        Option::Some(h) => h,
        Option::None => spec_zero_rate(),
    }
}

/// The reduction of one completed fetch: transport failures and malformed
/// bodies fold into the same safe default; only a failure to read the
/// response body at all is an error.
pub open spec fn spec_reduced_status(fetched: FetchResult) -> Result<GpuMinerStatus, StatusError> {
    match fetched {
        FetchResult::SendFailed => Result::Ok(spec_default_status()),
        FetchResult::BodyFailed => Result::Err(StatusError::BodyUnavailable),
        FetchResult::Body(b) => match spec_parse_telemetry(b@) {
            Option::None => Result::Ok(spec_default_status()),
            Option::Some(t) => Result::Ok(
                GpuMinerStatus {
                    is_mining: true,
                    hash_rate: spec_rate_of(t),
                    estimated_earnings: 0,
                },
            ),
        },
    }
}

/// What one health check publishes on the shared slot: the reduced status
/// when the fetch completed and reduced, "unknown" otherwise.
pub open spec fn spec_published(outcome: FetchOutcome) -> Option<GpuMinerStatus> {
    match outcome {
        FetchOutcome::TimedOut => Option::None,
        FetchOutcome::Completed(f) => match spec_reduced_status(f) {
            Result::Ok(st) => Option::Some(st),
            Result::Err(_) => Option::None,
        },
    }
}

/// The three-state classification: a timeout is a soft Warning; a completed
/// fetch is Healthy exactly when the rate is positive or the worker is still
/// in its startup grace period (the first eleven seconds); a fetch whose body
/// could not be read at all is Unhealthy.
pub open spec fn spec_health(outcome: FetchOutcome, uptime_secs: u64) -> HealthStatus {
    match outcome {
        FetchOutcome::TimedOut => HealthStatus::Warning,
        FetchOutcome::Completed(f) => match spec_reduced_status(f) {
            Result::Err(_) => HealthStatus::Unhealthy,
            Result::Ok(st) => if st.hash_rate.spec_is_positive() || uptime_secs < 11 {
                HealthStatus::Healthy
            } else {
                HealthStatus::Warning
            },
        },
    }
}

/// The rendering of the worker's local status endpoint for a given port.
pub open spec fn spec_stats_url(port: u16) -> Seq<char> {
    "http://127.0.0.1:"@ + spec_dec(port as nat) + "/stats"@
}

/// Monitor bound to one worker instance: its local telemetry port and the
/// writing side of the latest-telemetry slot.
pub struct GpuMinerStatusMonitor {
    pub http_api_port: u16,
    pub gpu_raw_status_broadcast: StatusBroadcast,
}

impl GpuMinerStatusMonitor {
    /// The URL of the worker's status endpoint; the caller's network layer
    /// fetches it with the caller's timeout.
    pub fn stats_url(&self) -> (s: String)
        ensures
            s@ == spec_stats_url(self.http_api_port),
    {
        let mut url = String::new();
        url.append("http://127.0.0.1:");
        push_dec_u64(self.http_api_port as u64, &mut url);
        url.append("/stats");
        proof {
            assert(url@ =~= spec_stats_url(self.http_api_port));
        }
        url
    }

    /// Reduces one completed fetch to a ReducedStatus. Transport failures and
    /// undecodable bodies both yield the same "not yet mining" default — this
    /// never escalates; the only error is a response whose body could not be
    /// read.
    pub fn status(&self, fetched: FetchResult) -> (r: Result<GpuMinerStatus, StatusError>)
        ensures
            r == spec_reduced_status(fetched),
    {
        match fetched {
            FetchResult::SendFailed => Result::Ok(GpuMinerStatus::default_status()),
            FetchResult::BodyFailed => Result::Err(StatusError::BodyUnavailable),
            FetchResult::Body(b) => {
                match parse_telemetry(b.as_slice()) {
                    Option::None => Result::Ok(GpuMinerStatus::default_status()),
                    Option::Some(t) => Result::Ok(
                        GpuMinerStatus {
                            is_mining: true,
                            hash_rate: match t.total_hashrate.ten_seconds {
                                Option::Some(h) => h,
                                Option::None => HashRate::zero(),
                            },
                            estimated_earnings: 0,
                        },
                    ),
                }
            },
        }
    }

    /// One poll: reduces the fetch outcome, publishes exactly one value on
    /// the shared slot (the reduced status, or "unknown" on timeout and
    /// body-read failure), and classifies.
    pub fn check_health(&mut self, outcome: FetchOutcome, uptime_secs: u64) -> (r: HealthStatus)
        ensures
            r == spec_health(outcome, uptime_secs),
            final(self).gpu_raw_status_broadcast.published_log@ == old(
                self,
            ).gpu_raw_status_broadcast.published_log@.push(spec_published(outcome)),
            final(self).http_api_port == old(self).http_api_port,
    {
        match outcome {
            FetchOutcome::TimedOut => {
                self.gpu_raw_status_broadcast.publish(Option::None);
                HealthStatus::Warning
            },
            FetchOutcome::Completed(fetched) => {
                match self.status(fetched) {
                    Result::Ok(status) => {
                        self.gpu_raw_status_broadcast.publish(Option::Some(status));
                        if status.hash_rate.is_positive() || uptime_secs < 11 {
                            HealthStatus::Healthy
                        } else {
                            HealthStatus::Warning
                        }
                    },
                    Result::Err(_) => {
                        self.gpu_raw_status_broadcast.publish(Option::None);
                        HealthStatus::Unhealthy
                    },
                }
            },
        }
    }
}

/// Law: with a successful fetch, a zero rate classifies Healthy inside the
/// eleven-second grace period and Warning after it, and a positive rate
/// classifies Healthy at any uptime.
pub proof fn lemma_grace_period_classification(fetched: FetchResult, uptime_secs: u64)
    requires
        spec_reduced_status(fetched) is Ok,
    ensures
        !spec_reduced_status(fetched)->Ok_0.hash_rate.spec_is_positive() && uptime_secs < 11
            ==> spec_health(FetchOutcome::Completed(fetched), uptime_secs)
            == HealthStatus::Healthy,
        !spec_reduced_status(fetched)->Ok_0.hash_rate.spec_is_positive() && uptime_secs >= 11
            ==> spec_health(FetchOutcome::Completed(fetched), uptime_secs)
            == HealthStatus::Warning,
        spec_reduced_status(fetched)->Ok_0.hash_rate.spec_is_positive() ==> spec_health(
            FetchOutcome::Completed(fetched),
            uptime_secs,
        ) == HealthStatus::Healthy,
{
}

/// Law: a timeout always classifies Warning and always publishes "unknown",
/// never a known reading with a zero rate.
pub proof fn lemma_timeout_publishes_unknown(uptime_secs: u64)
    ensures
        spec_health(FetchOutcome::TimedOut, uptime_secs) == HealthStatus::Warning,
        spec_published(FetchOutcome::TimedOut) is None,
{
}

/// Law: a transport-level connection failure and a malformed body reduce to
/// the same default status, publish the same value, and classify the same.
pub proof fn lemma_transport_decode_equivalent(body: Vec<u8>, uptime_secs: u64)
    requires
        spec_parse_telemetry(body@) is None,
    ensures
        spec_reduced_status(FetchResult::SendFailed) == spec_reduced_status(
            FetchResult::Body(body),
        ),
        spec_published(FetchOutcome::Completed(FetchResult::SendFailed)) == spec_published(
            FetchOutcome::Completed(FetchResult::Body(body)),
        ),
        spec_health(FetchOutcome::Completed(FetchResult::SendFailed), uptime_secs) == spec_health(
            FetchOutcome::Completed(FetchResult::Body(body)),
            uptime_secs,
        ),
{
}

} // verus!
