//! The watchdog that reopens a client's MGPP connection after it closed
//! unexpectedly: the decisions it takes, one event at a time.
use vstd::prelude::*;

verus! {

/// Where the watchdog stands.
#[derive(Debug, Clone, Copy, PartialEq, Eq, Structural)]
pub enum WatchdogPhase {
    /// The connection is up; the watchdog waits for it to close.
    Watching,
    /// The connection closed unexpectedly; the watchdog reopens it.
    Reconnecting,
    /// The watchdog has ended.
    Stopped,
}

/// What the watchdog learns.
#[derive(Debug, Clone, Copy, PartialEq, Eq, Structural)]
pub enum WatchdogEvent {
    /// The connection reported an unexpected closure.
    ConnectionLost,
    /// The connection was closed on purpose.
    ClosedOnPurpose,
    /// The wait before a reconnect attempt is over; `client_alive` tells
    /// whether anyone but the watchdog still holds the client.
    RetryDue { client_alive: bool },
    /// A reconnect attempt ended, successfully or not.
    AttemptDone { ok: bool, client_alive: bool },
}

/// What the watchdog does next.
#[derive(Debug, Clone, Copy, PartialEq, Eq, Structural)]
pub enum WatchdogAction {
    /// Pause the application and wait a second before the next attempt.
    PauseAndWait,
    /// Try to open a new connection.
    AttemptReconnect,
    /// Install the new connection, count the reconnect and resume the
    /// application; then watch the new connection.
    InstallAndResume,
    /// End the watchdog.
    Stop,
    /// Nothing: the event does not apply in the current phase.
    Nothing,
}

/// The watchdog of one client.
#[derive(Debug, Clone, Copy, PartialEq, Eq, Structural)]
pub struct Watchdog {
    pub phase: WatchdogPhase,
    /// The number of successful reconnects (wrapping around at the end of
    /// its range).
    pub reconnects: usize,
}

/// The reconnect count after one more reconnect: one more, or zero past
/// the end of the range.
pub open spec fn next_count(n: usize) -> usize {
    if n == usize::MAX {
        0
    } else {
        (n + 1) as usize
    }
}

/// The watchdog's next state and action on an event.
pub open spec fn watchdog_step(w: Watchdog, e: WatchdogEvent) -> (Watchdog, WatchdogAction) {
    match w.phase {
        WatchdogPhase::Stopped => (w, WatchdogAction::Stop),
        WatchdogPhase::Watching => match e {
            WatchdogEvent::ConnectionLost => (
                Watchdog { phase: WatchdogPhase::Reconnecting, ..w },
                WatchdogAction::PauseAndWait,
            ),
            WatchdogEvent::ClosedOnPurpose => (
                Watchdog { phase: WatchdogPhase::Stopped, ..w },
                WatchdogAction::Stop,
            ),
            _ => (w, WatchdogAction::Nothing),
        },
        WatchdogPhase::Reconnecting => match e {
            WatchdogEvent::RetryDue { client_alive } => if client_alive {
                (w, WatchdogAction::AttemptReconnect)
            } else {
                (Watchdog { phase: WatchdogPhase::Stopped, ..w }, WatchdogAction::Stop)
            },
            WatchdogEvent::AttemptDone { ok, client_alive } => if !ok {
                (w, WatchdogAction::PauseAndWait)
            } else if !client_alive {
                (Watchdog { phase: WatchdogPhase::Stopped, ..w }, WatchdogAction::Stop)
            } else {
                (
                    Watchdog {
                        phase: WatchdogPhase::Watching,
                        reconnects: next_count(w.reconnects),
                    },
                    WatchdogAction::InstallAndResume,
                )
            },
            _ => (w, WatchdogAction::Nothing),
        },
    }
}

impl Watchdog {
    /// A watchdog watching a fresh connection, with no reconnect yet.
    pub fn new() -> (r: Self)
        ensures
            r == (Watchdog { phase: WatchdogPhase::Watching, reconnects: 0 }),
    {
        Watchdog { phase: WatchdogPhase::Watching, reconnects: 0 }
    }

    /// Takes one event: updates the watchdog and says what to do next.
    pub fn step(&mut self, e: WatchdogEvent) -> (r: WatchdogAction)
        ensures
            (*final(self), r) == watchdog_step(*old(self), e),
    {
        match self.phase {
            WatchdogPhase::Stopped => WatchdogAction::Stop,
            WatchdogPhase::Watching => match e {
                WatchdogEvent::ConnectionLost => {
                    self.phase = WatchdogPhase::Reconnecting;
                    WatchdogAction::PauseAndWait
                },
                WatchdogEvent::ClosedOnPurpose => {
                    self.phase = WatchdogPhase::Stopped;
                    WatchdogAction::Stop
                },
                _ => WatchdogAction::Nothing,
            },
            WatchdogPhase::Reconnecting => match e {
                WatchdogEvent::RetryDue { client_alive } => {
                    if client_alive {
                        WatchdogAction::AttemptReconnect
                    } else {
                        self.phase = WatchdogPhase::Stopped;
                        WatchdogAction::Stop
                    }
                },
                WatchdogEvent::AttemptDone { ok, client_alive } => {
                    if !ok {
                        WatchdogAction::PauseAndWait
                    } else if !client_alive {
                        self.phase = WatchdogPhase::Stopped;
                        WatchdogAction::Stop
                    } else {
                        self.phase = WatchdogPhase::Watching;
                        self.reconnects = self.reconnects.wrapping_add(1);
                        WatchdogAction::InstallAndResume
                    }
                },
                _ => WatchdogAction::Nothing,
            },
        }
    }
}

/// A stopped watchdog stays stopped and does nothing but stop.
pub proof fn lemma_stopped_is_final(w: Watchdog, e: WatchdogEvent)
    requires
        w.phase == WatchdogPhase::Stopped,
    ensures
        watchdog_step(w, e) == (w, WatchdogAction::Stop),
{
}

/// The reconnect count changes exactly when a new connection is
/// installed, and then by one.
pub proof fn lemma_reconnects_count_installs(w: Watchdog, e: WatchdogEvent)
    ensures
        watchdog_step(w, e).1 == WatchdogAction::InstallAndResume ==> watchdog_step(w, e).0.reconnects
            == next_count(w.reconnects),
        watchdog_step(w, e).1 != WatchdogAction::InstallAndResume ==> watchdog_step(w, e).0.reconnects
            == w.reconnects,
{
}

/// Once the connection is lost, the watchdog keeps trying, a pause before
/// each attempt, until an attempt succeeds or the client is gone.
pub proof fn lemma_failed_attempts_retry(w: Watchdog, client_alive: bool)
    requires
        w.phase == WatchdogPhase::Reconnecting,
    ensures
        watchdog_step(w, WatchdogEvent::AttemptDone { ok: false, client_alive }) == (
            w,
            WatchdogAction::PauseAndWait,
        ),
        watchdog_step(w, WatchdogEvent::RetryDue { client_alive }).1 == (if client_alive {
            WatchdogAction::AttemptReconnect
        } else {
            WatchdogAction::Stop
        }),
{
}

} // verus!
