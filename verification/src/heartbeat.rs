//! The client side of the liveness subsystem: a filter sits between the
//! raw inbound channel and the rest of the client, absorbs heartbeat
//! messages into a freshness timestamp, forwards everything else
//! unchanged and in arrival order, and calls for a shutdown once the
//! server has been silent longer than the timeout.

use vstd::prelude::*;
use crate::HEARTBEAT_TIMEOUT_MS;
use crate::event::{ChannelEvent, spec_elapsed};
use crate::server_client;

verus! {

/// What the heartbeat filter does with one tick.
#[derive(Debug)]
pub enum HeartbeatStep {
    /// The server has been silent too long: set the shutdown flag and stop.
    Shutdown,
    /// The raw channel closed: stop the filter.
    Stop,
    /// A heartbeat arrived: note the time, hand nothing on.
    Absorb,
    /// Any other message: hand it on unchanged.
    Forward(server_client::Message),
    /// Nothing arrived this tick.
    Idle,
}

/// One tick of the heartbeat filter: checks the freshness deadline first,
/// then absorbs a heartbeat or forwards the message unchanged. Returns
/// the new freshness timestamp and the action.
pub fn heartbeat_step(
    last_heartbeat: u64,
    now: u64,
    event: ChannelEvent<server_client::Message>,
) -> (r: (u64, HeartbeatStep))
    ensures
        spec_elapsed(last_heartbeat, now) > HEARTBEAT_TIMEOUT_MS
            ==> r == (last_heartbeat, HeartbeatStep::Shutdown),
        spec_elapsed(last_heartbeat, now) <= HEARTBEAT_TIMEOUT_MS ==> match event {
            ChannelEvent::Disconnected => r == (last_heartbeat, HeartbeatStep::Stop),
            ChannelEvent::TimedOut => r == (last_heartbeat, HeartbeatStep::Idle),
            ChannelEvent::Received(m) => {
                if m@ is Heartbeat {
                    r == (now, HeartbeatStep::Absorb)
                } else {
                    r.0 == last_heartbeat && (r.1 matches HeartbeatStep::Forward(f) && f == m)
                }
            },
        },
{
    let elapsed: u64 = if now >= last_heartbeat { now - last_heartbeat } else { 0 };
    if elapsed > HEARTBEAT_TIMEOUT_MS {
        return (last_heartbeat, HeartbeatStep::Shutdown);
    }
    match event {
        ChannelEvent::Disconnected => (last_heartbeat, HeartbeatStep::Stop),
        ChannelEvent::TimedOut => (last_heartbeat, HeartbeatStep::Idle),
        ChannelEvent::Received(m) => match m {
            server_client::Message::Heartbeat => (now, HeartbeatStep::Absorb),
            other => (last_heartbeat, HeartbeatStep::Forward(other)),
        },
    }
}

} // verus!
