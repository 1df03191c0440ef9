use vstd::prelude::*;

verus! {

pub const NANOS_PER_SEC: i64 = 1_000_000_000;

/// Seconds to sleep before the next reconnect attempt, given the rolling
/// error count.  The tiers are compared in ascending threshold order, so the
/// first arm shadows the broader ones below it; the shadowing is part of the
/// behaviour and is kept as it stands.
pub open spec fn spec_backoff_secs(error_count: u64) -> u64 {
    if error_count > 3 {
        1
    } else if error_count > 10 {
        5
    } else if error_count > 20 {
        10
    } else {
        0
    }
}

pub fn backoff_secs(error_count: u64) -> (r: u64)
    ensures
        r == spec_backoff_secs(error_count),
{
    if error_count > 3 {
        1
    } else if error_count > 10 {
        5
    } else if error_count > 20 {
        10
    } else {
        0
    }
}

/// Because the first tier already covers every count above 3, the 5 s and
/// 10 s tiers are unreachable: the sleep is one second whenever the count
/// exceeds 3, and zero otherwise.
pub proof fn lemma_backoff_tiers_shadowed(error_count: u64)
    ensures
        spec_backoff_secs(error_count) == if error_count > 3 {
            1u64
        } else {
            0u64
        },
{
}

/// The error count carried across reconnect attempts of one session task.
pub struct ReconnectState {
    pub error_count: u64,
}

pub open spec fn spec_bump(c: u64) -> u64 {
    if c == u64::MAX {
        c
    } else {
        (c + 1) as u64
    }
}

/// The rolling error count after one failed attempt: a connection that
/// survived at least thirty seconds resets the count to zero; otherwise the
/// count grows by one.
pub open spec fn spec_reconnect_count(old_count: u64, survived_ns: i64) -> u64 {
    if survived_ns >= 30 * NANOS_PER_SEC {
        0
    } else {
        spec_bump(old_count)
    }
}

impl ReconnectState {
    pub fn new() -> (r: Self)
        ensures
            r.error_count == 0,
    {
        ReconnectState { error_count: 0 }
    }

    /// Record one failed connection attempt that stayed up for
    /// `survived_ns` nanoseconds, and return the seconds to sleep before
    /// the next attempt.
    pub fn on_failure(&mut self, survived_ns: i64) -> (sleep_secs: u64)
        ensures
            final(self).error_count == spec_reconnect_count(old(self).error_count, survived_ns),
            sleep_secs == spec_backoff_secs(final(self).error_count),
    {
        if survived_ns >= 30 * NANOS_PER_SEC {
            self.error_count = 0;
        } else if self.error_count < u64::MAX {
            self.error_count = self.error_count + 1;
        }
        backoff_secs(self.error_count)
    }
}

/// One event observed by a streaming session.
pub enum SessionEvent {
    /// A text frame arrived; the payload goes downstream.
    Text(Vec<u8>),
    /// A ping frame arrived at time `now` (epoch nanoseconds).
    Ping { payload: Vec<u8>, now: i64 },
    /// The peer closed the stream.
    Close,
    /// Any other frame.
    Other,
    /// The heartbeat timer fired at time `now` (epoch nanoseconds).
    Tick { now: i64 },
}

/// What the session must do in response to one event.
pub enum SessionAction {
    /// Hand the payload downstream with its receipt timestamp.
    Forward(Vec<u8>),
    /// Echo the ping payload back as a pong frame.
    Pong(Vec<u8>),
    /// Send a control message (a proactive ping) as a text frame.
    Send(String),
    /// Nothing to do.
    Ignore,
    /// The session failed: the peer closed the stream.
    FailClosed,
    /// The session failed: no inbound ping within the watchdog window.
    FailTimeout,
}

/// The per-exchange heartbeat strategy of the streaming loop.
pub struct HeartbeatPolicy {
    /// Echo inbound pings with a pong and reset the staleness watchdog.
    pub echo_pings: bool,
    /// Fail when no inbound ping arrived for this long (nanoseconds).
    pub watchdog_ns: Option<i64>,
    /// Control message sent on every heartbeat tick.
    pub ping_message: Option<String>,
    /// How often the heartbeat timer fires (nanoseconds).
    pub tick_ns: i64,
}

/// The mutable state of one streaming session: when the last inbound ping
/// arrived (epoch nanoseconds).
pub struct SessionState {
    pub last_ping: i64,
}

impl SessionState {
    pub fn new(now: i64) -> (r: Self)
        ensures
            r.last_ping == now,
    {
        SessionState { last_ping: now }
    }
}

/// Whether the staleness watchdog declares the session dead at `now`.
pub open spec fn spec_watchdog_fires(policy: HeartbeatPolicy, last_ping: i64, now: i64) -> bool {
    match policy.watchdog_ns {
        Some(w) => now - last_ping > w,
        None => false,
    }
}

/// Decide what one session event requires, updating the watchdog state.
/// This is the whole frame-handling logic of the streaming loop; the caller
/// performs the returned action.
pub fn session_step(policy: &HeartbeatPolicy, state: &mut SessionState, event: SessionEvent) -> (r:
    SessionAction)
    ensures
        match event {
            SessionEvent::Text(d) => {
                &&& r matches SessionAction::Forward(p) && p@ == d@
                &&& final(state).last_ping == old(state).last_ping
            },
            SessionEvent::Ping { payload, now } => {
                if policy.echo_pings {
                    &&& r matches SessionAction::Pong(p) && p@ == payload@
                    &&& final(state).last_ping == now
                } else {
                    &&& r matches SessionAction::Ignore
                    &&& final(state).last_ping == old(state).last_ping
                }
            },
            SessionEvent::Close => {
                &&& r matches SessionAction::FailClosed
                &&& final(state).last_ping == old(state).last_ping
            },
            SessionEvent::Other => {
                &&& r matches SessionAction::Ignore
                &&& final(state).last_ping == old(state).last_ping
            },
            SessionEvent::Tick { now } => {
                &&& final(state).last_ping == old(state).last_ping
                &&& if spec_watchdog_fires(*policy, old(state).last_ping, now) {
                    r matches SessionAction::FailTimeout
                } else {
                    match policy.ping_message {
                        Some(m) => r matches SessionAction::Send(p) && p@ == m@,
                        None => r matches SessionAction::Ignore,
                    }
                }
            },
        },
{
    match event {
        SessionEvent::Text(d) => SessionAction::Forward(d),
        SessionEvent::Ping { payload, now } => {
            if policy.echo_pings {
                state.last_ping = now;
                SessionAction::Pong(payload)
            } else {
                SessionAction::Ignore
            }
        },
        SessionEvent::Close => SessionAction::FailClosed,
        SessionEvent::Other => SessionAction::Ignore,
        SessionEvent::Tick { now } => {
            let fires: bool = match policy.watchdog_ns {
                Some(w) => (now as i128) - (state.last_ping as i128) > (w as i128),
                None => false,
            };
            if fires {
                SessionAction::FailTimeout
            } else {
                match &policy.ping_message {
                    Some(m) => SessionAction::Send(m.clone()),
                    None => SessionAction::Ignore,
                }
            }
        },
    }
}

} // verus!
