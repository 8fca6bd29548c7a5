//! One session with the hub: connect, learn the catalog, authenticate, then
//! poll for work and carry it out until the hub or an error ends it.

use crate::messages::proxy_message::ProxyMessage;
use crate::models::poller::{poll_names, poll_target};
use crate::models::tags::Tags;
use crate::protocol::network_util::{
    auth_line, authenticate, framed, get_ollama_version, handle_hive_request,
    handle_ollama_update, poll, poll_line, ControlAction, RelayOutcome,
};
use crate::protocol::state::{
    advanced, get_last_refresh, get_reboot, get_shutdown, notify_refresh, refresh_poll_models,
    set_node_name, set_reboot, NodeState,
};
use crate::text::same_text;
use vstd::prelude::*;

verus! {

/// Where a session stands.
#[derive(Clone, Copy, Debug, PartialEq, Eq, Structural)]
pub enum SessionPhase {
    Disconnected,
    Connecting,
    /// The catalog is asked for the first time.
    InitialCatalog,
    /// The backend is asked for its version.
    Versioning,
    Authenticating,
    /// The catalog is asked again after a change.
    Refreshing,
    Polling,
    Relaying,
    Upgrading,
    /// The hub is told that the upgrade was tried.
    Replying,
    Closed,
}

/// Why a session ended in an error.
#[derive(Clone, Copy, Debug, PartialEq, Eq, Structural)]
pub enum SessionError {
    Connect,
    RefreshAvailableModels,
    Authenticate,
    RefreshModels,
    Poll,
    Relay,
    Reply,
    OutOfTurn,
}

/// How a session ended.
#[derive(Clone, Copy, Debug, PartialEq, Eq, Structural)]
pub enum SessionEnd {
    /// The hub asked for a reboot or a shutdown.
    Stopped,
    /// An error ended the session; the caller waits and connects again.
    Failed(SessionError),
}

/// What happened since the last action of a session.
#[derive(Debug)]
pub enum SessionEvent {
    /// The session is asked for.
    Start,
    /// The hub is connected.
    Connected,
    /// The backend gave its catalog.
    Catalog(Tags),
    /// The backend gave its version, or none.
    BackendVersion(Option<String>),
    /// The line was written and the hub answered with this frame.
    Frame(ProxyMessage),
    /// The relay ended.
    Relayed(RelayOutcome),
    /// The replacement of the backend was tried.
    Upgraded,
    /// The answer was written to the hub.
    Replied,
    /// The last action failed.
    Failed,
}

/// What to do next in a session.
#[derive(Debug)]
pub enum SessionAction {
    /// Connect to the hub.
    Connect,
    /// Ask the backend for its catalog, holding the exclusion token as a
    /// reader.
    QueryCatalog,
    /// Ask the backend for its version.
    QueryBackendVersion,
    /// Write this frame of a control line to the hub, then read one frame.
    Exchange(Vec<u8>),
    /// Relay this frame to the backend.
    Relay(ProxyMessage),
    /// Replace the backend.
    UpgradeBackend,
    /// Write this answer to the hub.
    Reply(String),
    /// The session is over.
    Close(SessionEnd),
}

/// What to do next in a session, as a mathematical value.
pub enum SessionActionView {
    Connect,
    QueryCatalog,
    QueryBackendVersion,
    Exchange(Seq<u8>),
    Relay(ProxyMessage),
    UpgradeBackend,
    Reply(Seq<char>),
    Close(SessionEnd),
}

impl View for SessionAction {
    type V = SessionActionView;

    open spec fn view(&self) -> SessionActionView {
        match self {
            SessionAction::Connect => SessionActionView::Connect,
            SessionAction::QueryCatalog => SessionActionView::QueryCatalog,
            SessionAction::QueryBackendVersion => SessionActionView::QueryBackendVersion,
            SessionAction::Exchange(frame) => SessionActionView::Exchange(frame@),
            SessionAction::Relay(m) => SessionActionView::Relay(*m),
            SessionAction::UpgradeBackend => SessionActionView::UpgradeBackend,
            SessionAction::Reply(text) => SessionActionView::Reply(text@),
            SessionAction::Close(end) => SessionActionView::Close(*end),
        }
    }
}

/// A session with the hub.
#[derive(Debug)]
pub struct Session {
    phase: SessionPhase,
    key: String,
    nonce: u64,
    node_version: String,
    local_refresh: i64,
    optimized_poll: bool,
    models: String,
}

/// A session as a mathematical value.
pub struct SessionView {
    pub phase: SessionPhase,
    /// The key of the node.
    pub key: Seq<char>,
    /// The nonce of this run of the node.
    pub nonce: u64,
    /// The version of the node.
    pub node_version: Seq<char>,
    /// The time of the last change of the catalog that the session has seen.
    pub local_refresh: i64,
    /// Whether the hub knows the catalog of this session.
    pub optimized_poll: bool,
    /// The poll target.
    pub models: Seq<char>,
}

impl View for Session {
    type V = SessionView;

    closed spec fn view(&self) -> SessionView {
        SessionView {
            phase: self.phase,
            key: self.key@,
            nonce: self.nonce,
            node_version: self.node_version@,
            local_refresh: self.local_refresh,
            optimized_poll: self.optimized_poll,
            models: self.models@,
        }
    }
}


/// The end of a session.
pub open spec fn closed(s: SessionView, node: NodeState, end: SessionEnd) -> (
    SessionView,
    NodeState,
    SessionActionView,
) {
    (SessionView { phase: SessionPhase::Closed, ..s }, node, SessionActionView::Close(end))
}

/// The exchange of a control line with the hub: the line goes out in its
/// frame and the session moves on to `next`; a line too long for a frame
/// ends the session, as it stands in `s`, with the error `why`.
pub open spec fn exchange(
    s: SessionView,
    next: SessionView,
    node: NodeState,
    line: Seq<char>,
    why: SessionError,
) -> (SessionView, NodeState, SessionActionView) {
    match framed(line) {
        Some(frame) => (next, node, SessionActionView::Exchange(frame)),
        None => closed(s, node, SessionEnd::Failed(why)),
    }
}

/// The poll that opens a turn: where the catalog has changed since the
/// session last saw it, the catalog is asked for first; otherwise the hub is
/// polled, and from then on knows the catalog.
pub open spec fn next_poll(s: SessionView, node: NodeState) -> (
    SessionView,
    NodeState,
    SessionActionView,
) {
    if node.last_refresh > s.local_refresh {
        (SessionView { phase: SessionPhase::Refreshing, ..s }, node, SessionActionView::QueryCatalog)
    } else {
        exchange(
            s,
            SessionView { phase: SessionPhase::Polling, optimized_poll: true, ..s },
            node,
            poll_line(s.models, s.optimized_poll),
            SessionError::Poll,
        )
    }
}

/// The end of a turn: the session stops where the hub asked for a reboot or
/// a shutdown, and polls again otherwise.
pub open spec fn end_of_turn(s: SessionView, node: NodeState) -> (
    SessionView,
    NodeState,
    SessionActionView,
) {
    if node.reboot || node.shutdown {
        closed(s, node, SessionEnd::Stopped)
    } else {
        next_poll(s, node)
    }
}

/// The session with a fresh catalog taken in.
pub open spec fn with_catalog(s: SessionView, node: NodeState, tags: Tags) -> SessionView {
    SessionView {
        models: poll_target(poll_names(tags.names())),
        local_refresh: node.last_refresh,
        ..s
    }
}

/// The node after a control frame.
pub open spec fn after_control(node: NodeState, m: ProxyMessage) -> NodeState {
    NodeState {
        reboot: node.reboot || m@.method == "REBOOT"@,
        shutdown: node.shutdown || m@.method == "SHUTDOWN"@,
        ..node
    }
}

/// The next state of a session and of the node, and the next action, given
/// what happened and the time `now`.
///
/// A session connects, asks the backend for its catalog and version,
/// authenticates, and records the name that the hub gives the node. Every
/// control line goes out in its frame, behind its length. Then the session
/// polls in turns: a control frame is carried out, any other frame is
/// relayed, and a relay that changed the catalog is recorded at `now`. A
/// failure of the connection, of a catalog query or of a write to the hub
/// ends the session; a backend that fails a relay does not.
pub open spec fn session_step(s: SessionView, node: NodeState, e: SessionEvent, now: i64) -> (
    SessionView,
    NodeState,
    SessionActionView,
) {
    match (s.phase, e) {
        (SessionPhase::Disconnected, SessionEvent::Start) => (
            SessionView { phase: SessionPhase::Connecting, ..s },
            node,
            SessionActionView::Connect,
        ),
        (SessionPhase::Connecting, SessionEvent::Connected) => (
            SessionView { phase: SessionPhase::InitialCatalog, ..s },
            node,
            SessionActionView::QueryCatalog,
        ),
        (SessionPhase::Connecting, SessionEvent::Failed) => closed(
            s,
            node,
            SessionEnd::Failed(SessionError::Connect),
        ),
        (SessionPhase::InitialCatalog, SessionEvent::Catalog(tags)) => (
            SessionView { phase: SessionPhase::Versioning, ..with_catalog(s, node, tags) },
            node,
            SessionActionView::QueryBackendVersion,
        ),
        (SessionPhase::InitialCatalog, SessionEvent::Failed) => closed(
            s,
            node,
            SessionEnd::Failed(SessionError::RefreshAvailableModels),
        ),
        (SessionPhase::Versioning, SessionEvent::BackendVersion(v)) => exchange(
            s,
            SessionView { phase: SessionPhase::Authenticating, ..s },
            node,
            auth_line(
                s.key,
                s.nonce,
                s.node_version,
                match v {
                    Some(version) => version@,
                    None => "Unknown"@,
                },
            ),
            SessionError::Authenticate,
        ),
        (SessionPhase::Versioning, SessionEvent::Failed) => closed(
            s,
            node,
            SessionEnd::Failed(SessionError::Authenticate),
        ),
        (SessionPhase::Authenticating, SessionEvent::Frame(m)) => next_poll(
            s,
            NodeState { node_name: m.uri, ..node },
        ),
        (SessionPhase::Authenticating, SessionEvent::Failed) => closed(
            s,
            node,
            SessionEnd::Failed(SessionError::Authenticate),
        ),
        (SessionPhase::Refreshing, SessionEvent::Catalog(tags)) => exchange(
            with_catalog(s, node, tags),
            SessionView {
                phase: SessionPhase::Polling,
                optimized_poll: true,
                ..with_catalog(s, node, tags)
            },
            node,
            poll_line(with_catalog(s, node, tags).models, false),
            SessionError::Poll,
        ),
        (SessionPhase::Refreshing, SessionEvent::Failed) => closed(
            s,
            node,
            SessionEnd::Failed(SessionError::RefreshModels),
        ),
        (SessionPhase::Polling, SessionEvent::Frame(m)) => if m@.protocol == "HIVE"@ {
            if m@.method == "UPDATE_OLLAMA"@ {
                (
                    SessionView { phase: SessionPhase::Upgrading, ..s },
                    after_control(node, m),
                    SessionActionView::UpgradeBackend,
                )
            } else {
                end_of_turn(s, after_control(node, m))
            }
        } else {
            (SessionView { phase: SessionPhase::Relaying, ..s }, node, SessionActionView::Relay(m))
        },
        (SessionPhase::Polling, SessionEvent::Failed) => closed(
            s,
            node,
            SessionEnd::Failed(SessionError::Poll),
        ),
        (SessionPhase::Relaying, SessionEvent::Relayed(outcome)) => match outcome {
            RelayOutcome::Completed { refresh } => end_of_turn(
                s,
                if refresh {
                    NodeState { last_refresh: advanced(node.last_refresh, now), ..node }
                } else {
                    node
                },
            ),
            RelayOutcome::BackendFailed => end_of_turn(s, node),
            RelayOutcome::HubFailed => closed(s, node, SessionEnd::Failed(SessionError::Relay)),
        },
        (SessionPhase::Upgrading, SessionEvent::Upgraded) => (
            SessionView { phase: SessionPhase::Replying, ..s },
            node,
            SessionActionView::Reply(
                "HTTP/1.1 200 OK\r\nTransfer-Encoding: chunked\r\nConnection: close\r\n\r\n0\r\n\r\n"@,
            ),
        ),
        (SessionPhase::Replying, SessionEvent::Replied) => end_of_turn(s, node),
        (SessionPhase::Replying, SessionEvent::Failed) => closed(
            s,
            node,
            SessionEnd::Failed(SessionError::Reply),
        ),
        _ => closed(s, node, SessionEnd::Failed(SessionError::OutOfTurn)),
    }
}


impl Session {
    /// A session that is not connected yet, for a node with this key, nonce
    /// and version, whose last look at the catalog counts as made at
    /// `local_last_refresh`.
    pub fn new(key: String, nonce: u64, node_version: String, local_last_refresh: i64) -> (session:
        Session)
        ensures
            session@ == (SessionView {
                phase: SessionPhase::Disconnected,
                key: key@,
                nonce,
                node_version: node_version@,
                local_refresh: local_last_refresh,
                optimized_poll: false,
                models: "/"@,
            }),
    {
        Session {
            phase: SessionPhase::Disconnected,
            key,
            nonce,
            node_version,
            local_refresh: local_last_refresh,
            optimized_poll: false,
            models: "/".to_owned(),
        }
    }

    /// Where the session stands.
    pub fn phase(&self) -> (phase: SessionPhase)
        ensures
            phase == self@.phase,
    {
        self.phase
    }

    /// Ends the session.
    fn close(&mut self, end: SessionEnd) -> (action: SessionAction)
        ensures
            final(self)@ == (SessionView { phase: SessionPhase::Closed, ..old(self)@ }),
            action@ == SessionActionView::Close(end),
    {
        self.phase = SessionPhase::Closed;
        SessionAction::Close(end)
    }

    /// Opens a turn.
    fn next_poll(&mut self, node: &NodeState) -> (action: SessionAction)
        ensures
            (final(self)@, *node, action@) == next_poll(old(self)@, *node),
    {
        if get_last_refresh(node) > self.local_refresh {
            self.phase = SessionPhase::Refreshing;
            SessionAction::QueryCatalog
        } else {
            match poll(self.models.as_str(), self.optimized_poll) {
                Some(frame) => {
                    self.phase = SessionPhase::Polling;
                    self.optimized_poll = true;
                    SessionAction::Exchange(frame)
                },
                None => self.close(SessionEnd::Failed(SessionError::Poll)),
            }
        }
    }

    /// Ends a turn.
    fn end_of_turn(&mut self, node: &NodeState) -> (action: SessionAction)
        ensures
            (final(self)@, *node, action@) == end_of_turn(old(self)@, *node),
    {
        if get_reboot(node) || get_shutdown(node) {
            self.close(SessionEnd::Stopped)
        } else {
            self.next_poll(node)
        }
    }
}

/// Decides the next action of a session from what happened since the last
/// one. `node` is the state that all sessions share. A change of the
/// catalog is recorded at the time that the clock shows then; nothing else
/// depends on the time.
pub fn run_protocol(session: &mut Session, node: &mut NodeState, event: SessionEvent) -> (action:
    SessionAction)
    ensures
        exists|now: i64|
            (final(session)@, *final(node), action@) == #[trigger] session_step(
                old(session)@,
                *old(node),
                event,
                now,
            ),
        !(event matches SessionEvent::Relayed(RelayOutcome::Completed { refresh: true }))
            ==> (final(session)@, *final(node), action@) == session_step(
            old(session)@,
            *old(node),
            event,
            0,
        ),
{
    let ghost given = event;
    let ghost mut now: i64 = 0;
    let action = match event {
        SessionEvent::Start => match session.phase {
            SessionPhase::Disconnected => {
                session.phase = SessionPhase::Connecting;
                SessionAction::Connect
            },
            _ => session.close(SessionEnd::Failed(SessionError::OutOfTurn)),
        },
        SessionEvent::Connected => match session.phase {
            SessionPhase::Connecting => {
                session.phase = SessionPhase::InitialCatalog;
                SessionAction::QueryCatalog
            },
            _ => session.close(SessionEnd::Failed(SessionError::OutOfTurn)),
        },
        SessionEvent::Catalog(tags) => match session.phase {
            SessionPhase::InitialCatalog => {
                refresh_poll_models(node, tags, &mut session.local_refresh, &mut session.models);
                session.phase = SessionPhase::Versioning;
                SessionAction::QueryBackendVersion
            },
            SessionPhase::Refreshing => {
                refresh_poll_models(node, tags, &mut session.local_refresh, &mut session.models);
                match poll(session.models.as_str(), false) {
                    Some(frame) => {
                        session.phase = SessionPhase::Polling;
                        session.optimized_poll = true;
                        SessionAction::Exchange(frame)
                    },
                    None => session.close(SessionEnd::Failed(SessionError::Poll)),
                }
            },
            _ => session.close(SessionEnd::Failed(SessionError::OutOfTurn)),
        },
        SessionEvent::BackendVersion(reported) => match session.phase {
            SessionPhase::Versioning => {
                let version = get_ollama_version(reported);
                match authenticate(
                    session.key.as_str(),
                    session.nonce,
                    session.node_version.as_str(),
                    version.as_str(),
                ) {
                    Some(frame) => {
                        session.phase = SessionPhase::Authenticating;
                        SessionAction::Exchange(frame)
                    },
                    None => session.close(SessionEnd::Failed(SessionError::Authenticate)),
                }
            },
            _ => session.close(SessionEnd::Failed(SessionError::OutOfTurn)),
        },
        SessionEvent::Frame(message) => match session.phase {
            SessionPhase::Authenticating => {
                set_node_name(node, message.uri);
                session.next_poll(node)
            },
            SessionPhase::Polling => {
                if same_text(message.protocol.as_str(), "HIVE") {
                    match handle_hive_request(&message, node) {
                        ControlAction::UpgradeBackend => {
                            session.phase = SessionPhase::Upgrading;
                            SessionAction::UpgradeBackend
                        },
                        ControlAction::Continue => session.end_of_turn(node),
                    }
                } else {
                    session.phase = SessionPhase::Relaying;
                    SessionAction::Relay(message)
                }
            },
            _ => session.close(SessionEnd::Failed(SessionError::OutOfTurn)),
        },
        SessionEvent::Relayed(outcome) => match session.phase {
            SessionPhase::Relaying => match outcome {
                RelayOutcome::Completed { refresh } => {
                    if refresh {
                        let ghost before = *node;
                        notify_refresh(node);
                        proof {
                            now = choose|t: i64|
                                *node == (NodeState {
                                    last_refresh: #[trigger] advanced(before.last_refresh, t),
                                    ..before
                                });
                        }
                    }
                    session.end_of_turn(node)
                },
                RelayOutcome::BackendFailed => session.end_of_turn(node),
                RelayOutcome::HubFailed => session.close(SessionEnd::Failed(SessionError::Relay)),
            },
            _ => session.close(SessionEnd::Failed(SessionError::OutOfTurn)),
        },
        SessionEvent::Upgraded => match session.phase {
            SessionPhase::Upgrading => {
                session.phase = SessionPhase::Replying;
                SessionAction::Reply(handle_ollama_update())
            },
            _ => session.close(SessionEnd::Failed(SessionError::OutOfTurn)),
        },
        SessionEvent::Replied => match session.phase {
            SessionPhase::Replying => session.end_of_turn(node),
            _ => session.close(SessionEnd::Failed(SessionError::OutOfTurn)),
        },
        SessionEvent::Failed => {
            let why = match session.phase {
                SessionPhase::Connecting => SessionError::Connect,
                SessionPhase::InitialCatalog => SessionError::RefreshAvailableModels,
                SessionPhase::Versioning => SessionError::Authenticate,
                SessionPhase::Authenticating => SessionError::Authenticate,
                SessionPhase::Refreshing => SessionError::RefreshModels,
                SessionPhase::Polling => SessionError::Poll,
                SessionPhase::Replying => SessionError::Reply,
                _ => SessionError::OutOfTurn,
            };
            session.close(SessionEnd::Failed(why))
        },
    };
    assert((session@, *node, action@) == session_step(old(session)@, *old(node), given, now));
    action
}


/// Seconds to wait before the hub is connected again.
pub const RECONNECT_SECS: u64 = 10;

/// Decides what follows the end of a session, however it ended: after a
/// shutdown nothing, and the node stays as it is; otherwise the reboot flag
/// is cleared and the hub is connected again after the seconds given.
pub fn reconnect_delay(node: &mut NodeState) -> (wait: Option<u64>)
    ensures
        old(node).shutdown ==> wait is None && *final(node) == *old(node),
        !old(node).shutdown ==> wait == Some(RECONNECT_SECS) && *final(node) == (NodeState {
            reboot: false,
            ..*old(node)
        }),
{
    if get_shutdown(node) {
        None
    } else {
        set_reboot(node, false);
        Some(RECONNECT_SECS)
    }
}


/// A poll names the models unless an earlier poll of the session has named
/// them, and none is sent while a change of the catalog waits to be seen:
/// the first poll after a catalog names the models of that catalog. A poll
/// goes out as the frame of its line.
pub proof fn lemma_poll_names_models_until_known(
    s: SessionView,
    node: NodeState,
    e: SessionEvent,
    now: i64,
)
    ensures
        (s.phase == SessionPhase::Authenticating || s.phase == SessionPhase::Polling || s.phase
            == SessionPhase::Relaying || s.phase == SessionPhase::Replying) ==> (session_step(
            s,
            node,
            e,
            now,
        ).2 matches SessionActionView::Exchange(frame) ==> {
            &&& Some(frame) == framed(poll_line(s.models, s.optimized_poll))
            &&& session_step(s, node, e, now).0.optimized_poll
            &&& session_step(s, node, e, now).1.last_refresh <= s.local_refresh
        }),
        s.phase == SessionPhase::Refreshing ==> (session_step(s, node, e, now).2 matches SessionActionView::Exchange(
            frame,
        ) ==> e matches SessionEvent::Catalog(tags) && Some(frame) == framed(
            poll_line(poll_target(poll_names(tags.names())), false),
        ) && session_step(s, node, e, now).0.local_refresh == node.last_refresh),
{
}

/// A session that has ended stays ended, and changes nothing.
pub proof fn lemma_closed_stays_closed(s: SessionView, node: NodeState, e: SessionEvent, now: i64)
    requires
        s.phase == SessionPhase::Closed,
    ensures
        session_step(s, node, e, now) == (
            s,
            node,
            SessionActionView::Close(SessionEnd::Failed(SessionError::OutOfTurn)),
        ),
{
}

} // verus!
