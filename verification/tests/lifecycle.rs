use tiny_httpd::server::{
    after_drain, read_is_activity, write_is_activity, DrainAction, DrainOutcome, GracefulReason,
};
use tiny_httpd::{AcceptAction, AcceptEvent, AcceptLoop, ConnectionAction, ConnectionEvent, ConnectionState};

#[test]
fn shutdown_flips_readiness_before_accepts_stop() {
    let mut accept = AcceptLoop::new();
    assert!(accept.status().ready);
    assert_eq!(accept.on_event(AcceptEvent::Accepted), AcceptAction::ServeConnection);
    assert_eq!(accept.on_event(AcceptEvent::DrainWindowElapsed), AcceptAction::KeepAccepting);
    assert_eq!(accept.on_event(AcceptEvent::ShutdownRequested), AcceptAction::BeginDrain { signal_failed: false });
    assert!(!accept.status().ready);
    assert!(accept.status().shutting_down);
    // Connections accepted during the drain window are still served.
    assert_eq!(accept.on_event(AcceptEvent::Accepted), AcceptAction::ServeConnection);
    assert_eq!(accept.on_event(AcceptEvent::AcceptFailed), AcceptAction::KeepAccepting);
    assert_eq!(accept.on_event(AcceptEvent::DrainWindowElapsed), AcceptAction::StopAccepting);
}

#[test]
fn shutdown_signal_failure_still_drains() {
    let mut accept = AcceptLoop::new();
    assert_eq!(accept.on_event(AcceptEvent::ShutdownSignalFailed), AcceptAction::BeginDrain { signal_failed: true });
    assert!(!accept.status().ready);
    assert_eq!(accept.on_event(AcceptEvent::ShutdownRequested), AcceptAction::KeepAccepting);
    assert_eq!(accept.on_event(AcceptEvent::DrainWindowElapsed), AcceptAction::StopAccepting);
}

#[test]
fn idle_connection_closes_gracefully_then_drops() {
    let mut conn = ConnectionState::new();
    assert_eq!(conn.on_event(ConnectionEvent::Activity), ConnectionAction::ResetIdleDeadline);
    assert_eq!(
        conn.on_event(ConnectionEvent::DeadlineElapsed),
        ConnectionAction::BeginGracefulClose(GracefulReason::IdleTimeout)
    );
    assert_eq!(conn.on_event(ConnectionEvent::Activity), ConnectionAction::Wait);
    assert_eq!(conn.on_event(ConnectionEvent::DeadlineElapsed), ConnectionAction::Close { timed_out: true });
}

#[test]
fn server_shutdown_closes_connections_gracefully() {
    let mut conn = ConnectionState::new();
    assert_eq!(conn.on_event(ConnectionEvent::ShutdownChanged { shutting_down: false }), ConnectionAction::Wait);
    assert_eq!(
        conn.on_event(ConnectionEvent::ShutdownChanged { shutting_down: true }),
        ConnectionAction::BeginGracefulClose(GracefulReason::ServerShutdown)
    );
    assert_eq!(conn.on_event(ConnectionEvent::Finished), ConnectionAction::Close { timed_out: false });

    let mut orphan = ConnectionState::new();
    assert_eq!(
        orphan.on_event(ConnectionEvent::ShutdownChannelClosed),
        ConnectionAction::BeginGracefulClose(GracefulReason::ChannelClosed)
    );
}

#[test]
fn only_byte_transfers_count_as_activity() {
    assert!(read_is_activity(0, 5));
    assert!(!read_is_activity(3, 3));
    assert!(write_is_activity(4));
    assert!(!write_is_activity(0));
}

#[test]
fn loop_and_connection_report_their_phase() {
    let mut accept = AcceptLoop::new();
    assert!(!accept.draining());
    accept.on_event(AcceptEvent::ShutdownRequested);
    assert!(accept.draining());

    let mut conn = ConnectionState::new();
    assert!(!conn.closing());
    conn.on_event(ConnectionEvent::ShutdownChanged { shutting_down: true });
    assert!(conn.closing());
}

#[test]
fn drain_timeout_aborts_what_is_left() {
    assert_eq!(after_drain(DrainOutcome::AllFinished), DrainAction::Stop);
    assert_eq!(after_drain(DrainOutcome::TimedOut), DrainAction::AbortRemaining);
}
