//! The decisions of the accept loop and of each connection's lifetime, as
//! state machines; the caller waits for events and performs the actions.
use vstd::prelude::*;

use crate::routing::ServerStatus;

verus! {

/// Readiness drain window: how long the listener keeps accepting after a
/// shutdown request, so that a final readiness probe can observe `503`.
pub const READINESS_DRAIN_WINDOW_MILLIS: u64 = 250;
/// Default graceful-drain time before remaining connection tasks are aborted.
pub const DEFAULT_DRAIN_TIMEOUT_SECS: u64 = 10;
/// Default time allowed to receive complete HTTP/1 request headers.
pub const DEFAULT_HEADER_READ_TIMEOUT_SECS: u64 = 30;
/// Default idle time before an inactive connection is closed.
pub const DEFAULT_IDLE_CONNECTION_TIMEOUT_SECS: u64 = 60;
/// Default graceful-close time before a draining connection is dropped.
pub const DEFAULT_GRACEFUL_CLOSE_TIMEOUT_SECS: u64 = 5;

/// What the accept loop observed.
#[derive(Clone, Copy, Debug, PartialEq, Eq, Structural)]
pub enum AcceptEvent {
    /// The shutdown signal resolved.
    ShutdownRequested,
    /// The shutdown signal handler failed; the server shuts down anyway.
    ShutdownSignalFailed,
    /// The readiness drain window has elapsed.
    DrainWindowElapsed,
    /// A connection was accepted.
    Accepted,
    /// Accepting a connection failed (transient; logged and ignored).
    AcceptFailed,
}

/// What the accept loop does next.
#[derive(Clone, Copy, Debug, PartialEq, Eq, Structural)]
pub enum AcceptAction {
    /// Mark the server not ready and draining, and arm the readiness drain
    /// window; `signal_failed` says the shutdown signal handler failed.
    BeginDrain { signal_failed: bool },
    /// Stop accepting and drain the existing connections.
    StopAccepting,
    /// Serve the accepted connection.
    ServeConnection,
    /// Keep accepting.
    KeepAccepting,
}

/// The accept loop's transition: from whether the drain window runs and the
/// readiness flags, an event gives the new state and the action. A shutdown
/// signal, succeeded or failed alike, flips readiness and starts the drain
/// window; the end of the drain window stops accepting; accepted connections
/// are served, also during the drain window; failed accepts are ignored.
/// Signals while draining and a drain-window end while not draining are
/// ignored.
pub open spec fn accept_step(draining: bool, status: ServerStatus, event: AcceptEvent) -> (bool, ServerStatus, AcceptAction) {
    match event {
        AcceptEvent::ShutdownRequested | AcceptEvent::ShutdownSignalFailed => if !draining {
            (
                true,
                ServerStatus { ready: false, shutting_down: true },
                AcceptAction::BeginDrain { signal_failed: event == AcceptEvent::ShutdownSignalFailed },
            )
        } else {
            (draining, status, AcceptAction::KeepAccepting)
        },
        AcceptEvent::DrainWindowElapsed => (
            draining,
            status,
            if draining { AcceptAction::StopAccepting } else { AcceptAction::KeepAccepting },
        ),
        AcceptEvent::Accepted => (draining, status, AcceptAction::ServeConnection),
        AcceptEvent::AcceptFailed => (draining, status, AcceptAction::KeepAccepting),
    }
}

/// The accept loop's state: the readiness flags and whether the readiness
/// drain window is running.
pub struct AcceptLoop {
    status: ServerStatus,
    draining: bool,
}

impl AcceptLoop {
    #[verifier::type_invariant]
    spec fn flags_follow_drain(self) -> bool {
        self.draining ==> !self.status.ready && self.status.shutting_down
    }

    /// The readiness flags.
    pub closed spec fn spec_status(&self) -> ServerStatus {
        self.status
    }

    /// Whether the readiness drain window is running.
    pub closed spec fn is_draining(&self) -> bool {
        self.draining
    }

    /// Whether the readiness drain window is running.
    pub fn draining(&self) -> (res: bool)
        ensures
            res == self.is_draining(),
    {
        self.draining
    }

    /// A freshly started accept loop: ready, accepting, not draining.
    pub fn new() -> (res: Self)
        ensures
            !res.is_draining(),
            res.spec_status().ready,
            !res.spec_status().shutting_down,
    {
        AcceptLoop { status: ServerStatus::new(), draining: false }
    }

    /// The readiness flags the request handlers should observe. Once the
    /// drain window runs, the server is neither ready nor serving non-probe
    /// requests.
    pub fn status(&self) -> (res: ServerStatus)
        ensures
            res == self.spec_status(),
            self.is_draining() ==> !res.ready && res.shutting_down,
    {
        proof {
            use_type_invariant(self);
        }
        self.status
    }

    /// Decides what to do about `event` (see [`accept_step`]). The listener
    /// stops accepting only once readiness has flipped.
    pub fn on_event(&mut self, event: AcceptEvent) -> (action: AcceptAction)
        ensures
            (final(self).is_draining(), final(self).spec_status(), action) == accept_step(
                old(self).is_draining(),
                old(self).spec_status(),
                event,
            ),
            action == AcceptAction::StopAccepting ==> !final(self).spec_status().ready
                && final(self).spec_status().shutting_down,
    {
        match event {
            AcceptEvent::ShutdownRequested | AcceptEvent::ShutdownSignalFailed => {
                if self.draining {
                    AcceptAction::KeepAccepting
                } else {
                    let mut status = self.status;
                    status.begin_shutdown();
                    *self = AcceptLoop { status, draining: true };
                    AcceptAction::BeginDrain { signal_failed: event == AcceptEvent::ShutdownSignalFailed }
                }
            },
            AcceptEvent::DrainWindowElapsed => {
                if self.draining {
                    proof {
                        use_type_invariant(&*self);
                    }
                    AcceptAction::StopAccepting
                } else {
                    AcceptAction::KeepAccepting
                }
            },
            AcceptEvent::Accepted => AcceptAction::ServeConnection,
            AcceptEvent::AcceptFailed => AcceptAction::KeepAccepting,
        }
    }
}

/// How waiting for the open connections to finish ended.
#[derive(Clone, Copy, Debug, PartialEq, Eq, Structural)]
pub enum DrainOutcome {
    /// Every connection finished within the drain timeout.
    AllFinished,
    /// The drain timeout elapsed first.
    TimedOut,
}

/// What the server does once the drain wait is over.
#[derive(Clone, Copy, Debug, PartialEq, Eq, Structural)]
pub enum DrainAction {
    /// Nothing is left: the server stops.
    Stop,
    /// Abort the connections still open, wait for the aborted tasks, then stop.
    AbortRemaining,
}

/// Decides the end of the drain: connections still open when the drain
/// timeout elapses are aborted; otherwise the server simply stops.
pub fn after_drain(outcome: DrainOutcome) -> (action: DrainAction)
    ensures
        action == (if outcome == DrainOutcome::TimedOut {
            DrainAction::AbortRemaining
        } else {
            DrainAction::Stop
        }),
{
    match outcome {
        DrainOutcome::AllFinished => DrainAction::Stop,
        DrainOutcome::TimedOut => DrainAction::AbortRemaining,
    }
}

/// What a connection task observed.
#[derive(Clone, Copy, Debug, PartialEq, Eq, Structural)]
pub enum ConnectionEvent {
    /// The HTTP connection finished (cleanly or with an error).
    Finished,
    /// The connection's deadline elapsed.
    DeadlineElapsed,
    /// The server-wide shutdown flag changed; `shutting_down` is its new value.
    ShutdownChanged { shutting_down: bool },
    /// The server-wide shutdown channel closed unexpectedly.
    ShutdownChannelClosed,
    /// Bytes flowed through the connection.
    Activity,
}

/// Why a connection starts closing gracefully.
#[derive(Clone, Copy, Debug, PartialEq, Eq, Structural)]
pub enum GracefulReason {
    /// It stayed idle for the idle-connection timeout.
    IdleTimeout,
    /// The server is shutting down.
    ServerShutdown,
    /// The shutdown channel closed unexpectedly.
    ChannelClosed,
}

/// What a connection task does next.
#[derive(Clone, Copy, Debug, PartialEq, Eq, Structural)]
pub enum ConnectionAction {
    /// Stop serving: the connection is done (`timed_out` when its graceful
    /// close took longer than the graceful-close timeout and it is dropped).
    Close { timed_out: bool },
    /// Ask the connection to close gracefully and give it the graceful-close
    /// timeout.
    BeginGracefulClose(GracefulReason),
    /// Restart the idle deadline.
    ResetIdleDeadline,
    /// Nothing to do; keep waiting.
    Wait,
}

/// A connection's transition: from whether it is closing gracefully, an
/// event gives the new state and the action. A finished connection closes. A
/// deadline reached while serving starts a graceful close; reached while
/// closing, it drops the connection. A shutdown (or a closed shutdown channel)
/// starts a graceful close. Activity restarts the idle deadline. Once
/// closing, shutdown changes and activity are no longer watched.
pub open spec fn connection_step(closing: bool, event: ConnectionEvent) -> (bool, ConnectionAction) {
    match event {
        ConnectionEvent::Finished => (closing, ConnectionAction::Close { timed_out: false }),
        ConnectionEvent::DeadlineElapsed => if closing {
            (true, ConnectionAction::Close { timed_out: true })
        } else {
            (true, ConnectionAction::BeginGracefulClose(GracefulReason::IdleTimeout))
        },
        ConnectionEvent::ShutdownChanged { shutting_down } => if !closing && shutting_down {
            (true, ConnectionAction::BeginGracefulClose(GracefulReason::ServerShutdown))
        } else {
            (closing, ConnectionAction::Wait)
        },
        ConnectionEvent::ShutdownChannelClosed => if !closing {
            (true, ConnectionAction::BeginGracefulClose(GracefulReason::ChannelClosed))
        } else {
            (closing, ConnectionAction::Wait)
        },
        ConnectionEvent::Activity => if !closing {
            (closing, ConnectionAction::ResetIdleDeadline)
        } else {
            (closing, ConnectionAction::Wait)
        },
    }
}

/// One connection's lifetime state: whether it is closing gracefully.
pub struct ConnectionState {
    closing: bool,
}

impl ConnectionState {
    /// Whether the connection is closing gracefully.
    pub closed spec fn is_closing(&self) -> bool {
        self.closing
    }

    /// Whether the connection is closing gracefully.
    pub fn closing(&self) -> (res: bool)
        ensures
            res == self.is_closing(),
    {
        self.closing
    }

    /// A freshly accepted connection: serving, on its idle deadline.
    pub fn new() -> (res: Self)
        ensures
            !res.is_closing(),
    {
        ConnectionState { closing: false }
    }

    /// Decides what to do about `event` (see [`connection_step`]).
    pub fn on_event(&mut self, event: ConnectionEvent) -> (action: ConnectionAction)
        ensures
            (final(self).is_closing(), action) == connection_step(old(self).is_closing(), event),
    {
        match event {
            ConnectionEvent::Finished => ConnectionAction::Close { timed_out: false },
            ConnectionEvent::DeadlineElapsed => {
                if self.closing {
                    ConnectionAction::Close { timed_out: true }
                } else {
                    self.closing = true;
                    ConnectionAction::BeginGracefulClose(GracefulReason::IdleTimeout)
                }
            },
            ConnectionEvent::ShutdownChanged { shutting_down } => {
                if !self.closing && shutting_down {
                    self.closing = true;
                    ConnectionAction::BeginGracefulClose(GracefulReason::ServerShutdown)
                } else {
                    ConnectionAction::Wait
                }
            },
            ConnectionEvent::ShutdownChannelClosed => {
                if self.closing {
                    ConnectionAction::Wait
                } else {
                    self.closing = true;
                    ConnectionAction::BeginGracefulClose(GracefulReason::ChannelClosed)
                }
            },
            ConnectionEvent::Activity => {
                if self.closing {
                    ConnectionAction::Wait
                } else {
                    ConnectionAction::ResetIdleDeadline
                }
            },
        }
    }
}

/// A completed read counts as activity when it filled at least one byte
/// (end of stream does not).
pub fn read_is_activity(filled_before: usize, filled_after: usize) -> (res: bool)
    ensures
        res == (filled_after > filled_before),
{
    filled_after > filled_before
}

/// A completed write counts as activity when it wrote at least one byte.
pub fn write_is_activity(written: usize) -> (res: bool)
    ensures
        res == (written > 0),
{
    written > 0
}

} // verus!
