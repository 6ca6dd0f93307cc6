//! The fetcher of one component as a state machine: it is told what the
//! network and the channel did, and says what to do next. Sending the
//! request, reading the body and writing to the channel are the caller's
//! work.

use crate::error::outcome_view;
use crate::error::Failure;
use crate::error::InstallError;
use vstd::prelude::*;

verus! {

/// Whether an HTTP status stands for success: 200 to 299.
pub open spec fn is_success(status: u16) -> bool {
    200 <= status < 300
}

/// Whether an HTTP status stands for success.
pub fn status_is_success(status: u16) -> (yes: bool)
    ensures
        yes == is_success(status),
{
    200 <= status && status < 300
}

/// Where a fetcher stands.
#[derive(Clone, Copy, Debug, PartialEq, Eq, Structural)]
pub enum FetchPhase {
    /// The request is on its way; no response has come.
    Requesting,
    /// The response was a success; the next chunk of its body is awaited.
    Streaming,
    /// A chunk has come and is being handed to the channel.
    Forwarding,
    /// The task has ended and its sending end is closed.
    Finished,
}

/// What happened to a fetcher.
#[derive(Clone, Debug, PartialEq, Eq)]
pub enum FetchEvent {
    /// The request could not be sent, or the connection failed.
    RequestFailed(String),
    /// A response came, with this status.
    Response(u16),
    /// Reading the body failed.
    BodyFailed(String),
    /// The body has ended.
    BodyEnded,
    /// A chunk of the body came.
    ChunkReceived,
    /// The channel took the chunk.
    ChunkDelivered,
    /// The channel refused the chunk: its consuming end is closed.
    ConsumerGone,
}

/// What a fetcher does next.
#[derive(Debug, PartialEq, Eq)]
pub enum FetchAction {
    /// Wait for the next chunk of the body.
    ReadChunk,
    /// Hand the chunk that came to the channel.
    Forward,
    /// Close the sending end and end the task with this outcome.
    Close(Result<(), InstallError>),
    /// Nothing: the event cannot occur in this phase, and nothing changed.
    Rejected,
}

/// The kinds of `FetchAction`.
pub enum ActionKind {
    ReadChunk,
    Forward,
    Close,
    Rejected,
}

impl FetchAction {
    /// The kind of this action.
    pub open spec fn kind(self) -> ActionKind {
        match self {
            FetchAction::ReadChunk => ActionKind::ReadChunk,
            FetchAction::Forward => ActionKind::Forward,
            FetchAction::Close(_) => ActionKind::Close,
            FetchAction::Rejected => ActionKind::Rejected,
        }
    }
}

/// The phase that follows `phase` on `event`, and the kind of action taken.
pub open spec fn react(phase: FetchPhase, event: FetchEvent) -> (FetchPhase, ActionKind) {
    match (phase, event) {
        (FetchPhase::Requesting, FetchEvent::RequestFailed(_)) => (
            FetchPhase::Finished,
            ActionKind::Close,
        ),
        (FetchPhase::Requesting, FetchEvent::Response(status)) => if is_success(status) {
            (FetchPhase::Streaming, ActionKind::ReadChunk)
        } else {
            (FetchPhase::Finished, ActionKind::Close)
        },
        (FetchPhase::Streaming, FetchEvent::BodyFailed(_)) => (
            FetchPhase::Finished,
            ActionKind::Close,
        ),
        (FetchPhase::Streaming, FetchEvent::BodyEnded) => (FetchPhase::Finished, ActionKind::Close),
        (FetchPhase::Streaming, FetchEvent::ChunkReceived) => (
            FetchPhase::Forwarding,
            ActionKind::Forward,
        ),
        (FetchPhase::Forwarding, FetchEvent::ChunkDelivered) => (
            FetchPhase::Streaming,
            ActionKind::ReadChunk,
        ),
        (FetchPhase::Forwarding, FetchEvent::ConsumerGone) => (
            FetchPhase::Finished,
            ActionKind::Close,
        ),
        _ => (phase, ActionKind::Rejected),
    }
}

/// The outcome of the task that fetches `url`, where `event` ends it: a
/// failed request or body is a request error, a response without success
/// is a status error, and a body that ended or a consumer that is gone is
/// no error.
pub open spec fn closing(url: Seq<char>, event: FetchEvent) -> Result<(), Failure> {
    match event {
        FetchEvent::RequestFailed(message) => Err(
            Failure::RequestError { url, message: message@ },
        ),
        FetchEvent::BodyFailed(message) => Err(Failure::RequestError { url, message: message@ }),
        FetchEvent::Response(status) => Err(Failure::HttpStatusError { status, url }),
        _ => Ok(()),
    }
}

/// The fetcher of one component.
pub struct Fetcher {
    url: String,
    phase: FetchPhase,
}

impl Fetcher {
    /// The address that is fetched.
    pub closed spec fn url(&self) -> Seq<char> {
        self.url@
    }

    /// Where the fetcher stands.
    pub closed spec fn phase(&self) -> FetchPhase {
        self.phase
    }

    /// A fetcher for `url` whose request is on its way.
    pub fn new(url: String) -> (f: Fetcher)
        ensures
            f.url() == url@,
            f.phase() == FetchPhase::Requesting,
    {
        Fetcher { url, phase: FetchPhase::Requesting }
    }

    /// Where the fetcher stands.
    pub fn current_phase(&self) -> (phase: FetchPhase)
        ensures
            phase == self.phase(),
    {
        self.phase
    }

    /// Takes note of `event` and says what to do next.
    pub fn on_event(&mut self, event: FetchEvent) -> (action: FetchAction)
        ensures
            final(self).url() == old(self).url(),
            (final(self).phase(), action.kind()) == react(old(self).phase(), event),
            action matches FetchAction::Close(outcome) ==> outcome_view(outcome) == closing(
                old(self).url(),
                event,
            ),
    {
        match self.phase {
            FetchPhase::Requesting => match event {
                FetchEvent::RequestFailed(message) => {
                    self.phase = FetchPhase::Finished;
                    FetchAction::Close(
                        Err(InstallError::RequestError { url: self.url.clone(), message }),
                    )
                },
                FetchEvent::Response(status) => {
                    if status_is_success(status) {
                        self.phase = FetchPhase::Streaming;
                        FetchAction::ReadChunk
                    } else {
                        self.phase = FetchPhase::Finished;
                        FetchAction::Close(
                            Err(InstallError::HttpStatusError { status, url: self.url.clone() }),
                        )
                    }
                },
                _ => FetchAction::Rejected,
            },
            FetchPhase::Streaming => match event {
                FetchEvent::BodyFailed(message) => {
                    self.phase = FetchPhase::Finished;
                    FetchAction::Close(
                        Err(InstallError::RequestError { url: self.url.clone(), message }),
                    )
                },
                FetchEvent::BodyEnded => {
                    self.phase = FetchPhase::Finished;
                    FetchAction::Close(Ok(()))
                },
                FetchEvent::ChunkReceived => {
                    self.phase = FetchPhase::Forwarding;
                    FetchAction::Forward
                },
                _ => FetchAction::Rejected,
            },
            FetchPhase::Forwarding => match event {
                FetchEvent::ChunkDelivered => {
                    self.phase = FetchPhase::Streaming;
                    FetchAction::ReadChunk
                },
                FetchEvent::ConsumerGone => {
                    self.phase = FetchPhase::Finished;
                    FetchAction::Close(Ok(()))
                },
                _ => FetchAction::Rejected,
            },
            FetchPhase::Finished => FetchAction::Rejected,
        }
    }
}

/// The phase of a fetcher that started with its request on its way and
/// then saw the first `n` of `events`.
pub open spec fn phase_after(events: Seq<FetchEvent>, n: nat) -> FetchPhase
    decreases n,
{
    if n == 0 {
        FetchPhase::Requesting
    } else {
        react(phase_after(events, (n - 1) as nat), events[n - 1]).0
    }
}

/// A fetcher that has finished stays finished and rejects every event.
pub proof fn lemma_finished_is_final(event: FetchEvent)
    ensures
        react(FetchPhase::Finished, event) == (FetchPhase::Finished, ActionKind::Rejected),
{
}

/// A response without success ends the task at once with a status error
/// that carries that status and the address.
pub proof fn lemma_bad_status_closes(url: Seq<char>, status: u16)
    requires
        !is_success(status),
    ensures
        react(FetchPhase::Requesting, FetchEvent::Response(status)) == (
            FetchPhase::Finished,
            ActionKind::Close,
        ),
        closing(url, FetchEvent::Response(status)) == Err::<(), Failure>(
            Failure::HttpStatusError { status, url },
        ),
{
}

/// No chunk is forwarded before a response with a success status has come:
/// whatever the events, where the `n`-th of them makes the fetcher forward
/// a chunk, an earlier one was such a response.
pub proof fn lemma_forward_needs_success(events: Seq<FetchEvent>, n: nat)
    requires
        n < events.len(),
        react(phase_after(events, n), events[n as int]).1 is Forward,
    ensures
        exists|k: int|
            0 <= k < n && (#[trigger] events[k] matches FetchEvent::Response(status) && is_success(
                status,
            )),
{
    lemma_streaming_needs_success(events, n);
}

proof fn lemma_streaming_needs_success(events: Seq<FetchEvent>, n: nat)
    requires
        n <= events.len(),
        phase_after(events, n) is Streaming || phase_after(events, n) is Forwarding,
    ensures
        exists|k: int|
            0 <= k < n && (#[trigger] events[k] matches FetchEvent::Response(status) && is_success(
                status,
            )),
    decreases n,
{
    if n > 0 {
        let before = phase_after(events, (n - 1) as nat);
        if before is Streaming || before is Forwarding {
            lemma_streaming_needs_success(events, (n - 1) as nat);
        }
    }
}

} // verus!
