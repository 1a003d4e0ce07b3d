use protocol::mgpp::reconnect::{Watchdog, WatchdogAction, WatchdogEvent, WatchdogPhase};

#[test]
fn a_lost_connection_is_reopened_and_counted() {
    let mut w = Watchdog::new();
    assert_eq!(w, Watchdog { phase: WatchdogPhase::Watching, reconnects: 0 });
    assert_eq!(w.step(WatchdogEvent::ConnectionLost), WatchdogAction::PauseAndWait);
    assert_eq!(w.step(WatchdogEvent::RetryDue { client_alive: true }), WatchdogAction::AttemptReconnect);
    assert_eq!(
        w.step(WatchdogEvent::AttemptDone { ok: false, client_alive: true }),
        WatchdogAction::PauseAndWait
    );
    assert_eq!(w.reconnects, 0);
    assert_eq!(w.step(WatchdogEvent::RetryDue { client_alive: true }), WatchdogAction::AttemptReconnect);
    assert_eq!(
        w.step(WatchdogEvent::AttemptDone { ok: true, client_alive: true }),
        WatchdogAction::InstallAndResume
    );
    assert_eq!(w, Watchdog { phase: WatchdogPhase::Watching, reconnects: 1 });
}

#[test]
fn a_dropped_client_ends_the_watchdog() {
    let mut w = Watchdog::new();
    w.step(WatchdogEvent::ConnectionLost);
    assert_eq!(w.step(WatchdogEvent::RetryDue { client_alive: false }), WatchdogAction::Stop);
    assert_eq!(w.phase, WatchdogPhase::Stopped);
    assert_eq!(w.step(WatchdogEvent::ConnectionLost), WatchdogAction::Stop);

    let mut v = Watchdog::new();
    v.step(WatchdogEvent::ConnectionLost);
    assert_eq!(v.step(WatchdogEvent::AttemptDone { ok: true, client_alive: false }), WatchdogAction::Stop);
    assert_eq!(v.reconnects, 0);
}

#[test]
fn a_closure_on_purpose_is_not_reopened() {
    let mut w = Watchdog::new();
    assert_eq!(w.step(WatchdogEvent::ClosedOnPurpose), WatchdogAction::Stop);
    assert_eq!(w.phase, WatchdogPhase::Stopped);
}

#[test]
fn events_out_of_place_do_nothing() {
    let mut w = Watchdog::new();
    assert_eq!(w.step(WatchdogEvent::RetryDue { client_alive: true }), WatchdogAction::Nothing);
    w.step(WatchdogEvent::ConnectionLost);
    assert_eq!(w.step(WatchdogEvent::ConnectionLost), WatchdogAction::Nothing);
    assert_eq!(w.phase, WatchdogPhase::Reconnecting);
}

#[test]
fn the_count_wraps_around() {
    let mut w = Watchdog { phase: WatchdogPhase::Reconnecting, reconnects: usize::MAX };
    assert_eq!(
        w.step(WatchdogEvent::AttemptDone { ok: true, client_alive: true }),
        WatchdogAction::InstallAndResume
    );
    assert_eq!(w.reconnects, 0);
}
