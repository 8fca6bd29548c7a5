//! What all sessions of a node share: the reboot and shutdown flags, the
//! name that the hub gave the node, and the time of the last change of the
//! model catalog.

use crate::models::poller::{poll_names, poll_target, Poller};
use crate::models::tags::Tags;
use vstd::prelude::*;

verus! {

/// Milliseconds in a day.
pub const DAY_MS: i64 = 86_400_000;

/// The state that the sessions of a node share.
#[derive(Debug)]
pub struct NodeState {
    /// Whether the hub asked the node to reconnect.
    pub reboot: bool,
    /// Whether the hub asked the node to stop for good.
    pub shutdown: bool,
    /// The name that the hub gave the node.
    pub node_name: String,
    /// When the model catalog last changed, in milliseconds since 1970.
    pub last_refresh: i64,
}

/// The current time in milliseconds since 1970, from `chrono::Utc::now` and
/// `DateTime::timestamp_millis`. Nothing is claimed of the value. The clock
/// of the machine must not stand before 1970.
#[verifier::external_body]
fn current_millis() -> i64 {
    chrono::Utc::now().timestamp_millis()
}

/// The time of a change that is noticed at `now`, after an earlier change
/// at `last`: `now`, but later than `last` in any case, unless time has run
/// out.
pub open spec fn advanced(last: i64, now: i64) -> i64 {
    if now > last {
        now
    } else if last < i64::MAX {
        (last + 1) as i64
    } else {
        last
    }
}

/// The time one day before `now`, or the earliest time there is.
pub open spec fn day_before(now: i64) -> i64 {
    if now >= i64::MIN + DAY_MS {
        (now - DAY_MS) as i64
    } else {
        i64::MIN
    }
}

impl NodeState {
    /// The state of a node that starts at `now`: no flag set, the name
    /// `Unknown`, the catalog last changed at `now`.
    pub fn new(now: i64) -> (state: NodeState)
        ensures
            !state.reboot,
            !state.shutdown,
            state.node_name@ == "Unknown"@,
            state.last_refresh == now,
    {
        NodeState {
            reboot: false,
            shutdown: false,
            node_name: "Unknown".to_owned(),
            last_refresh: now,
        }
    }
}

/// Sets or clears the reboot flag.
pub fn set_reboot(state: &mut NodeState, b: bool)
    ensures
        *final(state) == (NodeState { reboot: b, ..*old(state) }),
{
    state.reboot = b;
}

/// Sets or clears the shutdown flag.
pub fn set_shutdown(state: &mut NodeState, b: bool)
    ensures
        *final(state) == (NodeState { shutdown: b, ..*old(state) }),
{
    state.shutdown = b;
}

/// Whether the hub asked the node to reconnect.
pub fn get_reboot(state: &NodeState) -> (b: bool)
    ensures
        b == state.reboot,
{
    state.reboot
}

/// Whether the hub asked the node to stop for good.
pub fn get_shutdown(state: &NodeState) -> (b: bool)
    ensures
        b == state.shutdown,
{
    state.shutdown
}

/// Records the name that the hub gave the node.
pub fn set_node_name(state: &mut NodeState, name: String)
    ensures
        *final(state) == (NodeState { node_name: name, ..*old(state) }),
{
    state.node_name = name;
}

/// The name that the hub gave the node.
pub fn get_node_name(state: &NodeState) -> (name: String)
    ensures
        name@ == state.node_name@,
{
    state.node_name.clone()
}

/// Records a change of the model catalog noticed at `now`.
pub fn advance_refresh(state: &mut NodeState, now: i64)
    ensures
        *final(state) == (NodeState {
            last_refresh: advanced(old(state).last_refresh, now),
            ..*old(state)
        }),
        final(state).last_refresh >= old(state).last_refresh,
        old(state).last_refresh < i64::MAX ==> final(state).last_refresh > old(state).last_refresh,
{
    if now > state.last_refresh {
        state.last_refresh = now;
    } else if state.last_refresh < i64::MAX {
        state.last_refresh = state.last_refresh + 1;
    }
}

/// Records a change of the model catalog noticed now. The time of the last
/// change never goes back, and moves on unless time has run out.
pub fn notify_refresh(state: &mut NodeState)
    ensures
        exists|now: i64|
            *final(state) == (NodeState {
                last_refresh: #[trigger] advanced(old(state).last_refresh, now),
                ..*old(state)
            }),
        final(state).reboot == old(state).reboot,
        final(state).shutdown == old(state).shutdown,
        final(state).node_name == old(state).node_name,
        final(state).last_refresh >= old(state).last_refresh,
        old(state).last_refresh < i64::MAX ==> final(state).last_refresh > old(state).last_refresh,
{
    let now = current_millis();
    advance_refresh(state, now);
}

/// The time one day before `now`.
pub fn local_time_before(now: i64) -> (t: i64)
    ensures
        t == day_before(now),
{
    if now >= i64::MIN + DAY_MS {
        now - DAY_MS
    } else {
        i64::MIN
    }
}

/// The time that a new session takes as the time of its last look at the
/// catalog: one day before the time that the clock shows, so that the first
/// look is due.
pub fn init_local_time() -> (t: i64)
    ensures
        exists|now: i64| t == #[trigger] day_before(now),
        t <= i64::MAX - DAY_MS,
{
    let now = current_millis();
    let t = local_time_before(now);
    assert(t == day_before(now));
    t
}

/// When the model catalog last changed.
pub fn get_last_refresh(state: &NodeState) -> (t: i64)
    ensures
        t == state.last_refresh,
{
    state.last_refresh
}

/// Takes a fresh catalog into a session: the poll target becomes that of
/// the catalog, and the session has seen the catalog as of its last change.
pub fn refresh_poll_models(
    state: &NodeState,
    tags: Tags,
    local_last_refresh: &mut i64,
    models: &mut String,
)
    ensures
        final(models)@ == poll_target(poll_names(tags.names())),
        *final(local_last_refresh) == state.last_refresh,
{
    let poller = Poller::from(tags);
    *models = poller.get_models_target();
    *local_last_refresh = get_last_refresh(state);
}

} // verus!
