//! The client's bounded receive pattern ("watch"): poll the inbound
//! channel with a short tick up to a global timeout, return the first
//! message the caller's predicate matches, and drop every other message
//! seen meanwhile. The polling loop itself blocks on a channel and lives
//! with the caller; the decision each tick takes is here, total and exact.

use vstd::prelude::*;

verus! {

/// Milliseconds the client waits for a server response before giving up.
pub const SERVER_TIMEOUT_MS: u64 = 10000;

/// Milliseconds of one poll tick on the inbound channel.
pub const RECV_TIMEOUT_MS: u64 = 33;

/// Why a watch ended without a matching message.
#[derive(Clone, Copy, Debug, PartialEq, Eq, Structural)]
pub enum WatchErr {
    Timeout,
    Disconnection,
}

/// What one bounded receive on the inbound channel yielded.
pub enum ChannelEvent<M> {
    Received(M),
    TimedOut,
    Disconnected,
}

/// What the watch does after one poll tick.
pub enum WatchStep<M> {
    Matched(M),
    KeepWaiting,
    Fail(WatchErr),
}

/// Milliseconds elapsed between two clock readings; a clock running
/// backwards counts as no time passed.
pub open spec fn spec_elapsed(start: u64, now: u64) -> u64 {
    if now >= start {
        (now - start) as u64
    } else {
        0
    }
}

/// The decision one watch tick takes: first the deadline, then the
/// channel outcome; an unmatched message is dropped and the wait goes on.
pub open spec fn spec_watch<M>(
    start: u64,
    now: u64,
    event: ChannelEvent<M>,
    matched: bool,
) -> WatchStep<M> {
    if spec_elapsed(start, now) > SERVER_TIMEOUT_MS {
        WatchStep::Fail(WatchErr::Timeout)
    } else {
        match event {
            ChannelEvent::Disconnected => WatchStep::Fail(WatchErr::Disconnection),
            ChannelEvent::TimedOut => WatchStep::KeepWaiting,
            ChannelEvent::Received(m) => {
                if matched {
                    WatchStep::Matched(m)
                } else {
                    WatchStep::KeepWaiting
                }
            },
        }
    }
}

/// One tick of the watch: `start` is the clock when the wait began, `now`
/// the clock at this tick, `event` what the bounded receive yielded, and
/// `matched` the caller's predicate on the received message.
pub fn watch<M>(start: u64, now: u64, event: ChannelEvent<M>, matched: bool)
    -> (r: WatchStep<M>)
    ensures
        r == spec_watch(start, now, event, matched),
{
    let elapsed: u64 = if now >= start { now - start } else { 0 };
    if elapsed > SERVER_TIMEOUT_MS {
        return WatchStep::Fail(WatchErr::Timeout);
    }
    match event {
        ChannelEvent::Disconnected => WatchStep::Fail(WatchErr::Disconnection),
        ChannelEvent::TimedOut => WatchStep::KeepWaiting,
        ChannelEvent::Received(m) => {
            if matched {
                WatchStep::Matched(m)
            } else {
                WatchStep::KeepWaiting
            }
        },
    }
}

} // verus!
