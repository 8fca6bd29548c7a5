//! Backend lifecycle: which container to run, which devices to hand it, and
//! the decisions that start, stop and replace it.

use crate::text::{
    chars_of, push_str, same_text, span_texts, spans_within, split_on, split_spans,
    string_from_chars, string_of, texts, trim, trim_span,
};
use vstd::prelude::*;

verus! {

/// A request for devices, as the container runtime takes it.
#[derive(Debug)]
pub struct DeviceRequest {
    /// Number of devices asked for; `-1` asks for all of them.
    pub count: Option<i64>,
    /// The devices asked for by identifier.
    pub device_ids: Option<Vec<String>>,
    /// The capabilities that the devices must have.
    pub capabilities: Vec<Vec<String>>,
}

/// What a `DeviceRequest` asks for: all GPUs, or the GPUs with the given
/// identifiers.
pub enum GpuChoice {
    All,
    Devices(Seq<Seq<char>>),
}

impl DeviceRequest {
    /// Whether this request asks for exactly `choice`, with the capability
    /// `gpu`.
    pub open spec fn asks_for(&self, choice: GpuChoice) -> bool {
        &&& self.capabilities@.len() == 1
        &&& texts(self.capabilities@[0]@) == seq!["gpu"@]
        &&& match choice {
            GpuChoice::All => self.count == Some(-1i64) && self.device_ids is None,
            GpuChoice::Devices(ids) => self.count is None && self.device_ids is Some && texts(
                self.device_ids->0@,
            ) == ids,
        }
    }
}

/// The identifiers among `pieces`: each piece trimmed, the empty ones left
/// out.
pub open spec fn device_ids(pieces: Seq<Seq<char>>) -> Seq<Seq<char>>
    decreases pieces.len(),
{
    if pieces.len() == 0 {
        Seq::empty()
    } else if trim(pieces.last()).len() == 0 {
        device_ids(pieces.drop_last())
    } else {
        device_ids(pieces.drop_last()).push(trim(pieces.last()))
    }
}

/// The devices that a passthrough setting selects, given how many GPUs the
/// enumeration probe found (`None` when the probe failed).
///
/// No setting, a blank one, a failed probe or no GPU at all select nothing;
/// `-1` selects all GPUs; anything else is a comma-separated list of
/// identifiers, which selects nothing when it holds none.
pub open spec fn gpu_choice(setting: Option<Seq<char>>, gpu_count: Option<u32>) -> Option<
    GpuChoice,
> {
    match setting {
        None => None,
        Some(raw) => {
            let wanted = trim(raw);
            if wanted.len() == 0 {
                None
            } else if gpu_count is None || gpu_count->0 == 0 {
                None
            } else if wanted == "-1"@ {
                Some(GpuChoice::All)
            } else if device_ids(split_on(wanted, ',')).len() == 0 {
                None
            } else {
                Some(GpuChoice::Devices(device_ids(split_on(wanted, ','))))
            }
        },
    }
}

/// Whether a passthrough setting asks for devices at all, so that the
/// device-enumeration probe is worth making: it is set and not blank.
pub fn gpu_probe_needed(setting: Option<&str>) -> (needed: bool)
    ensures
        needed == (match setting {
            Some(s) => trim(s@).len() > 0,
            None => false,
        }),
        !needed ==> gpu_choice(
            match setting {
                Some(s) => Some(s@),
                None => None,
            },
            None,
        ) == gpu_choice(
            match setting {
                Some(s) => Some(s@),
                None => None,
            },
            Some(1),
        ),
{
    match setting {
        Some(s) => {
            let chars = chars_of(s);
            let (from, to) = trim_span(&chars, 0, chars.len());
            assert(chars@.subrange(0, chars.len() as int) =~= chars@);
            from < to
        },
        None => false,
    }
}

/// The capability list `[["gpu"]]`.
fn gpu_capabilities() -> (caps: Vec<Vec<String>>)
    ensures
        caps@.len() == 1,
        texts(caps@[0]@) == seq!["gpu"@],
{
    let mut inner: Vec<String> = Vec::new();
    inner.push("gpu".to_owned());
    let mut caps: Vec<Vec<String>> = Vec::new();
    caps.push(inner);
    assert(texts(caps@[0]@) =~= seq!["gpu"@]);
    caps
}

/// Decides which devices the backend container is given.
///
/// `setting` is the passthrough selector (`None` when it is not set) and
/// `gpu_count` the result of the device-enumeration probe (`None` when it
/// failed). The result is `None` for a CPU-only container.
pub fn get_gpu_device_requests(setting: Option<&str>, gpu_count: Option<u32>) -> (request: Option<
    DeviceRequest,
>)
    ensures
        match gpu_choice(
            match setting {
                Some(s) => Some(s@),
                None => None,
            },
            gpu_count,
        ) {
            None => request is None,
            Some(choice) => request is Some && request->0.asks_for(choice),
        },
{
    let raw = match setting {
        Some(s) => s,
        None => {
            return None;
        },
    };
    let chars = chars_of(raw);
    let (from, to) = trim_span(&chars, 0, chars.len());
    assert(chars@.subrange(0, chars.len() as int) =~= chars@);
    if from == to {
        return None;
    }
    match gpu_count {
        None => {
            return None;
        },
        Some(n) => {
            if n == 0 {
                return None;
            }
        },
    }
    let wanted = string_of(&chars, from, to);
    if same_text(wanted.as_str(), "-1") {
        let all_gpus = DeviceRequest {
            count: Some(-1),
            device_ids: None,
            capabilities: gpu_capabilities(),
        };
        return Some(all_gpus);
    }
    let pieces = split_spans(&chars, from, to, ',');
    let mut ids: Vec<String> = Vec::new();
    let mut k: usize = 0;
    let ghost all = split_on(chars@.subrange(from as int, to as int), ',');
    assert(texts(ids@) =~= device_ids(all.take(0)));
    while k < pieces.len()
        invariant
            k <= pieces.len(),
            spans_within(pieces@, chars.len() as int),
            span_texts(chars@, pieces@) == all,
            texts(ids@) == device_ids(all.take(k as int)),
        decreases pieces.len() - k,
    {
        let (a, b) = pieces[k];
        let (ta, tb) = trim_span(&chars, a, b);
        proof {
            assert(all.take(k + 1).drop_last() =~= all.take(k as int));
            assert(all.take(k + 1).last() == chars@.subrange(a as int, b as int));
        }
        if ta < tb {
            let ghost before = texts(ids@);
            ids.push(string_of(&chars, ta, tb));
            assert(texts(ids@) =~= before.push(chars@.subrange(ta as int, tb as int)));
        }
        k += 1;
    }
    assert(all.take(pieces.len() as int) =~= all);
    if ids.len() == 0 {
        None
    } else {
        let chosen = DeviceRequest {
            count: None,
            device_ids: Some(ids),
            capabilities: gpu_capabilities(),
        };
        Some(chosen)
    }
}


/// The container to create for the backend.
#[derive(Debug)]
pub struct ContainerSpec {
    /// The well-known name of the container.
    pub name: String,
    /// The image that the container runs.
    pub image: String,
    /// The volume mounts, each `host path:container path`.
    pub binds: Vec<String>,
    /// The port of the backend inside the container, with its protocol.
    pub container_port: String,
    /// The host address that the port is bound to.
    pub host_ip: String,
    /// The host port that the port is bound to.
    pub host_port: String,
    /// The devices handed to the container; `None` for CPU only.
    pub device_request: Option<DeviceRequest>,
}

/// An image to pull: the repository, with or without a tag, and the tag asked
/// for beside it.
#[derive(Debug)]
pub struct ImagePull {
    pub from_image: String,
    pub tag: String,
}

/// Number of characters of the key that the container's name carries.
pub const KEY_PREFIX_LEN: usize = 5;

/// Health probes made when the backend is started, at most.
pub const START_PROBES: u32 = 60;

/// Milliseconds slept after a failed health probe when the backend is started.
pub const START_PROBE_INTERVAL_MS: u64 = 1000;

/// Health probes made when the backend is replaced, at most.
pub const UPGRADE_PROBES: u32 = 20;

/// Milliseconds slept after a failed health probe when the backend is replaced.
pub const UPGRADE_PROBE_INTERVAL_MS: u64 = 500;

/// The name of the backend container of the node with the given key:
/// `ollama-hive-` and the first five characters of the key. A shorter key
/// names no container.
pub fn container_name(key: &str) -> (name: Option<String>)
    ensures
        key@.len() < KEY_PREFIX_LEN ==> name is None,
        key@.len() >= KEY_PREFIX_LEN ==> name is Some && name->0@ == "ollama-hive-"@ + key@.take(
            KEY_PREFIX_LEN as int,
        ),
{
    let chars = chars_of(key);
    if chars.len() < KEY_PREFIX_LEN {
        return None;
    }
    let mut out: Vec<char> = Vec::new();
    push_str(&mut out, "ollama-hive-");
    let mut i: usize = 0;
    while i < KEY_PREFIX_LEN
        invariant
            i <= KEY_PREFIX_LEN <= chars.len(),
            chars@ == key@,
            out@ == "ollama-hive-"@ + key@.take(i as int),
        decreases KEY_PREFIX_LEN - i,
    {
        out.push(chars[i]);
        assert(out@ =~= "ollama-hive-"@ + key@.take(i + 1));
        i += 1;
    }
    Some(string_from_chars(&out))
}

/// The image pulled before the backend is first started.
pub fn start_image() -> (image: ImagePull)
    ensures
        image.from_image@ == "ollama/ollama:0.6.8"@,
        image.tag@ == "latest"@,
{
    ImagePull { from_image: "ollama/ollama:0.6.8".to_owned(), tag: "latest".to_owned() }
}

/// The image pulled before the backend is replaced.
pub fn upgrade_image() -> (image: ImagePull)
    ensures
        image.from_image@ == "ollama/ollama"@,
        image.tag@ == "latest"@,
{
    ImagePull { from_image: "ollama/ollama".to_owned(), tag: "latest".to_owned() }
}

/// The address of the backend on this host, given its port.
pub fn local_backend_url(port: &str) -> (url: String)
    ensures
        url@ == "http://127.0.0.1:"@ + port@,
{
    let mut out: Vec<char> = Vec::new();
    push_str(&mut out, "http://127.0.0.1:");
    push_str(&mut out, port);
    string_from_chars(&out)
}

/// The address that a health probe asks, given the backend's address.
pub fn health_url(backend_url: &str) -> (url: String)
    ensures
        url@ == backend_url@ + "/api/version"@,
{
    let mut out: Vec<char> = Vec::new();
    push_str(&mut out, backend_url);
    push_str(&mut out, "/api/version");
    string_from_chars(&out)
}

/// The container of the backend: named after the key, running the backend's
/// image, with the model store mounted, the backend's port bound to
/// `host_port` on every address, and the given devices. `None` when the key
/// names no container.
pub fn container_spec(
    models_dir: &str,
    key: &str,
    host_port: &str,
    device_request: Option<DeviceRequest>,
) -> (spec: Option<ContainerSpec>)
    ensures
        key@.len() < KEY_PREFIX_LEN ==> spec is None,
        key@.len() >= KEY_PREFIX_LEN ==> spec is Some && {
            let c = spec->0;
            &&& c.name@ == "ollama-hive-"@ + key@.take(KEY_PREFIX_LEN as int)
            &&& c.image@ == "ollama/ollama:latest"@
            &&& texts(c.binds@) == seq![models_dir@ + ":/root/.ollama"@]
            &&& c.container_port@ == "11434/tcp"@
            &&& c.host_ip@ == "0.0.0.0"@
            &&& c.host_port@ == host_port@
            &&& c.device_request == device_request
        },
{
    let name = match container_name(key) {
        Some(n) => n,
        None => {
            return None;
        },
    };
    let mut bind: Vec<char> = Vec::new();
    push_str(&mut bind, models_dir);
    push_str(&mut bind, ":/root/.ollama");
    let mut binds: Vec<String> = Vec::new();
    binds.push(string_from_chars(&bind));
    assert(texts(binds@) =~= seq![models_dir@ + ":/root/.ollama"@]);
    Some(
        ContainerSpec {
            name,
            image: "ollama/ollama:latest".to_owned(),
            binds,
            container_port: "11434/tcp".to_owned(),
            host_ip: "0.0.0.0".to_owned(),
            host_port: host_port.to_owned(),
            device_request,
        },
    )
}

/// What the container runtime answered to a request on a container.
#[derive(Clone, Copy, Debug, PartialEq, Eq, Structural)]
pub enum DockerOutcome {
    /// The request was carried out.
    Done,
    /// The runtime answered with this error status.
    Status(u16),
    /// The request failed in another way.
    Failed,
}

/// What a lookup of the running backend container found.
#[derive(Clone, Copy, Debug, PartialEq, Eq, Structural)]
pub enum Lookup {
    Running,
    NotRunning,
    Failed,
}

/// Where the start of the backend stands.
#[derive(Clone, Copy, Debug, PartialEq, Eq, Structural)]
pub enum StartPhase {
    Idle,
    Finding,
    Removing,
    Pulling,
    Creating,
    Starting,
    Probing,
    Sleeping,
    Finished,
}

/// The start of the backend: its phase and the health probes that have
/// failed so far.
#[derive(Clone, Copy, Debug, PartialEq, Eq, Structural)]
pub struct StartState {
    pub phase: StartPhase,
    pub failed_probes: u32,
}

/// What happened since the last action of the start.
#[derive(Clone, Copy, Debug, PartialEq, Eq, Structural)]
pub enum StartEvent {
    /// The start is asked for.
    Begin,
    /// The lookup of a running container ended.
    Found(Lookup),
    /// The removal of a stale container ended.
    Removed(DockerOutcome),
    /// The pull of the image ended, well or not.
    Pulled(bool),
    /// The creation of the container ended, well or not.
    Created(bool),
    /// The start of the container ended, well or not.
    Started(bool),
    /// A health probe was answered or not.
    Probed(bool),
    /// The pause after a failed probe is over.
    Slept,
    /// The container runtime cannot be reached.
    Unavailable,
}

/// Why the backend could not be started.
#[derive(Clone, Copy, Debug, PartialEq, Eq, Structural)]
pub enum StartError {
    Runtime,
    Lookup,
    RemoveStale,
    Pull,
    Create,
    Start,
    Unhealthy,
    OutOfTurn,
}

/// What to do next to start the backend.
#[derive(Clone, Copy, Debug, PartialEq, Eq, Structural)]
pub enum StartAction {
    /// Look for a running container of the well-known name.
    FindRunning,
    /// Force-remove any container of the well-known name.
    RemoveStale,
    /// Pull the image of `start_image`.
    PullImage,
    /// Create the container of `container_spec`.
    CreateContainer,
    /// Start the created container.
    StartContainer,
    /// Ask the health endpoint once.
    ProbeHealth,
    /// Pause for `START_PROBE_INTERVAL_MS`.
    Sleep,
    /// The backend runs: of the container found running, or of the one
    /// created.
    Succeed,
    /// The start failed; nothing is removed.
    Fail(StartError),
}

/// One more failed probe, without overflow.
pub open spec fn one_more(n: u32) -> u32 {
    if n < u32::MAX {
        (n + 1) as u32
    } else {
        n
    }
}

/// The next state and action of the start of the backend.
///
/// A container found running ends the start at once. Otherwise a stale
/// container is removed (that there is none is no error), the image pulled,
/// the container created and started, and its health endpoint asked up to
/// `START_PROBES` times with a pause after each failure. When no probe is
/// answered the start fails as `Unhealthy`, and the container stays. Any
/// other failure ends the start with the step that failed; an event that the
/// phase does not expect ends it as `OutOfTurn`.
pub open spec fn start_step(s: StartState, e: StartEvent) -> (StartState, StartAction) {
    let fail = |why: StartError|
        (StartState { phase: StartPhase::Finished, failed_probes: s.failed_probes }, StartAction::Fail(why));
    let go = |phase: StartPhase, action: StartAction|
        (StartState { phase, failed_probes: s.failed_probes }, action);
    match (s.phase, e) {
        (StartPhase::Finished, _) => fail(StartError::OutOfTurn),
        (_, StartEvent::Unavailable) => fail(StartError::Runtime),
        (StartPhase::Idle, StartEvent::Begin) => go(StartPhase::Finding, StartAction::FindRunning),
        (StartPhase::Finding, StartEvent::Found(Lookup::Running)) => go(
            StartPhase::Finished,
            StartAction::Succeed,
        ),
        (StartPhase::Finding, StartEvent::Found(Lookup::NotRunning)) => go(
            StartPhase::Removing,
            StartAction::RemoveStale,
        ),
        (StartPhase::Finding, StartEvent::Found(Lookup::Failed)) => fail(StartError::Lookup),
        (StartPhase::Removing, StartEvent::Removed(outcome)) => if outcome == DockerOutcome::Done
            || outcome == DockerOutcome::Status(404) {
            go(StartPhase::Pulling, StartAction::PullImage)
        } else {
            fail(StartError::RemoveStale)
        },
        (StartPhase::Pulling, StartEvent::Pulled(ok)) => if ok {
            go(StartPhase::Creating, StartAction::CreateContainer)
        } else {
            fail(StartError::Pull)
        },
        (StartPhase::Creating, StartEvent::Created(ok)) => if ok {
            go(StartPhase::Starting, StartAction::StartContainer)
        } else {
            fail(StartError::Create)
        },
        (StartPhase::Starting, StartEvent::Started(ok)) => if ok {
            (StartState { phase: StartPhase::Probing, failed_probes: 0 }, StartAction::ProbeHealth)
        } else {
            fail(StartError::Start)
        },
        (StartPhase::Probing, StartEvent::Probed(ok)) => if ok {
            go(StartPhase::Finished, StartAction::Succeed)
        } else {
            (
                StartState { phase: StartPhase::Sleeping, failed_probes: one_more(s.failed_probes) },
                StartAction::Sleep,
            )
        },
        (StartPhase::Sleeping, StartEvent::Slept) => if s.failed_probes < START_PROBES {
            go(StartPhase::Probing, StartAction::ProbeHealth)
        } else {
            fail(StartError::Unhealthy)
        },
        _ => fail(StartError::OutOfTurn),
    }
}

impl StartState {
    /// The state before the start is asked for.
    pub fn new() -> (s: StartState)
        ensures
            s == (StartState { phase: StartPhase::Idle, failed_probes: 0 }),
    {
        StartState { phase: StartPhase::Idle, failed_probes: 0 }
    }
}

/// Ends the start with an error.
fn start_failed(state: &mut StartState, why: StartError) -> (action: StartAction)
    ensures
        *final(state) == (StartState {
            phase: StartPhase::Finished,
            failed_probes: old(state).failed_probes,
        }),
        action == StartAction::Fail(why),
{
    state.phase = StartPhase::Finished;
    StartAction::Fail(why)
}

/// Decides the next action of the start of the backend from what happened
/// since the last one.
pub fn start_ollama_docker(state: &mut StartState, event: StartEvent) -> (action: StartAction)
    ensures
        (*final(state), action) == start_step(*old(state), event),
{
    match (state.phase, event) {
        (StartPhase::Finished, _) => start_failed(state, StartError::OutOfTurn),
        (_, StartEvent::Unavailable) => start_failed(state, StartError::Runtime),
        (StartPhase::Idle, StartEvent::Begin) => {
            state.phase = StartPhase::Finding;
            StartAction::FindRunning
        },
        (StartPhase::Finding, StartEvent::Found(Lookup::Running)) => {
            state.phase = StartPhase::Finished;
            StartAction::Succeed
        },
        (StartPhase::Finding, StartEvent::Found(Lookup::NotRunning)) => {
            state.phase = StartPhase::Removing;
            StartAction::RemoveStale
        },
        (StartPhase::Finding, StartEvent::Found(Lookup::Failed)) => start_failed(
            state,
            StartError::Lookup,
        ),
        (StartPhase::Removing, StartEvent::Removed(outcome)) => {
            let gone = match outcome {
                DockerOutcome::Done => true,
                DockerOutcome::Status(code) => code == 404,
                DockerOutcome::Failed => false,
            };
            if gone {
                state.phase = StartPhase::Pulling;
                StartAction::PullImage
            } else {
                start_failed(state, StartError::RemoveStale)
            }
        },
        (StartPhase::Pulling, StartEvent::Pulled(ok)) => {
            if ok {
                state.phase = StartPhase::Creating;
                StartAction::CreateContainer
            } else {
                start_failed(state, StartError::Pull)
            }
        },
        (StartPhase::Creating, StartEvent::Created(ok)) => {
            if ok {
                state.phase = StartPhase::Starting;
                StartAction::StartContainer
            } else {
                start_failed(state, StartError::Create)
            }
        },
        (StartPhase::Starting, StartEvent::Started(ok)) => {
            if ok {
                state.phase = StartPhase::Probing;
                state.failed_probes = 0;
                StartAction::ProbeHealth
            } else {
                start_failed(state, StartError::Start)
            }
        },
        (StartPhase::Probing, StartEvent::Probed(ok)) => {
            if ok {
                state.phase = StartPhase::Finished;
                StartAction::Succeed
            } else {
                state.phase = StartPhase::Sleeping;
                if state.failed_probes < u32::MAX {
                    state.failed_probes = state.failed_probes + 1;
                }
                StartAction::Sleep
            }
        },
        (StartPhase::Sleeping, StartEvent::Slept) => {
            if state.failed_probes < START_PROBES {
                state.phase = StartPhase::Probing;
                StartAction::ProbeHealth
            } else {
                start_failed(state, StartError::Unhealthy)
            }
        },
        _ => start_failed(state, StartError::OutOfTurn),
    }
}


/// The state of the start after `n` health probes have failed in a row, each
/// followed by its pause, counted from the moment the container was started.
pub open spec fn after_failed_probes(n: nat) -> StartState
    decreases n,
{
    if n == 0 {
        StartState { phase: StartPhase::Probing, failed_probes: 0 }
    } else {
        start_step(
            start_step(after_failed_probes((n - 1) as nat), StartEvent::Probed(false)).0,
            StartEvent::Slept,
        ).0
    }
}

/// As long as fewer than `START_PROBES` probes have failed the start keeps
/// probing; the failure of the last one ends it as `Unhealthy`.
pub proof fn lemma_start_probe_bound(n: nat)
    requires
        n < START_PROBES,
    ensures
        after_failed_probes(n) == (StartState { phase: StartPhase::Probing, failed_probes: n as u32 }),
        n + 1 < START_PROBES ==> start_step(
            start_step(after_failed_probes(n), StartEvent::Probed(false)).0,
            StartEvent::Slept,
        ).1 == StartAction::ProbeHealth,
        n + 1 == START_PROBES ==> start_step(
            start_step(after_failed_probes(n), StartEvent::Probed(false)).0,
            StartEvent::Slept,
        ) == (
            StartState { phase: StartPhase::Finished, failed_probes: START_PROBES },
            StartAction::Fail(StartError::Unhealthy),
        ),
    decreases n,
{
    if n > 0 {
        lemma_start_probe_bound((n - 1) as nat);
    }
}

/// Once the container is created nothing removes it: a removal is asked for
/// only in answer to the lookup, and an unhealthy backend is reported only
/// after a pause.
pub proof fn lemma_start_never_removes_created(s: StartState, e: StartEvent)
    ensures
        start_step(s, e).1 == StartAction::RemoveStale ==> s.phase == StartPhase::Finding,
        start_step(s, e).1 == StartAction::Fail(StartError::Unhealthy) ==> s.phase
            == StartPhase::Sleeping && s.failed_probes >= START_PROBES,
{
}

/// Where the replacement of the backend stands.
#[derive(Clone, Copy, Debug, PartialEq, Eq, Structural)]
pub enum UpgradePhase {
    Idle,
    Pulling,
    AwaitingWriter,
    Stopping,
    Removing,
    Creating,
    Starting,
    Probing,
    Sleeping,
    Finished,
}

/// The replacement of the backend: its phase, the health probes that have
/// failed so far, and whether it holds the exclusion token as the writer.
#[derive(Clone, Copy, Debug, PartialEq, Eq, Structural)]
pub struct UpgradeState {
    pub phase: UpgradePhase,
    pub failed_probes: u32,
    pub holds_writer: bool,
}

/// What happened since the last action of the replacement.
#[derive(Clone, Copy, Debug, PartialEq, Eq, Structural)]
pub enum UpgradeEvent {
    /// The replacement is asked for.
    Begin,
    /// The pull of the image ended, well or not.
    Pulled(bool),
    /// The exclusion token is held as the writer.
    WriterAcquired,
    /// The stop of the old container ended.
    Stopped(DockerOutcome),
    /// The removal of the old container ended.
    Removed(DockerOutcome),
    /// The creation of the new container ended, well or not.
    Created(bool),
    /// The start of the new container ended, well or not.
    Started(bool),
    /// A health probe was answered or not.
    Probed(bool),
    /// The pause after a failed probe is over.
    Slept,
    /// The container runtime cannot be reached.
    Unavailable,
}

/// Why the backend could not be replaced.
#[derive(Clone, Copy, Debug, PartialEq, Eq, Structural)]
pub enum UpgradeError {
    Runtime,
    Pull,
    Remove,
    Create,
    Start,
    OutOfTurn,
}

/// How the replacement ended.
#[derive(Clone, Copy, Debug, PartialEq, Eq, Structural)]
pub enum UpgradeOutcome {
    /// The new container runs; `healthy` says whether a probe was answered
    /// within the bound.
    Replaced { healthy: bool },
    /// The replacement failed.
    Failed(UpgradeError),
}

/// What to do next to replace the backend.
#[derive(Clone, Copy, Debug, PartialEq, Eq, Structural)]
pub enum UpgradeAction {
    /// Pull the image of `upgrade_image`.
    PullImage,
    /// Take the exclusion token as the writer, waiting for the relays in
    /// flight.
    AcquireWriter,
    /// Stop the container of the well-known name.
    StopContainer,
    /// Force-remove the container of the well-known name.
    RemoveContainer,
    /// Create the container of `container_spec`.
    CreateContainer,
    /// Start the created container.
    StartContainer,
    /// Ask the health endpoint once.
    ProbeHealth,
    /// Pause for `UPGRADE_PROBE_INTERVAL_MS`.
    Sleep,
    /// The replacement is over; give the exclusion token back where
    /// `release_writer` says so.
    Finish { release_writer: bool, outcome: UpgradeOutcome },
}

/// The next state and action of the replacement of the backend.
///
/// The image is pulled first, without the token. Then the token is taken as
/// the writer, the old container stopped (whatever the runtime answers) and
/// removed (that it is gone, or that the removal is already under way, is no
/// error), a new one created and started, and its health endpoint asked up to
/// `UPGRADE_PROBES` times with a pause after each failure. The replacement
/// then ends, healthy or not. Every end gives the token back if it is held.
pub open spec fn upgrade_step(s: UpgradeState, e: UpgradeEvent) -> (UpgradeState, UpgradeAction) {
    let end = |outcome: UpgradeOutcome|
        (
            UpgradeState {
                phase: UpgradePhase::Finished,
                failed_probes: s.failed_probes,
                holds_writer: false,
            },
            UpgradeAction::Finish { release_writer: s.holds_writer, outcome },
        );
    let go = |phase: UpgradePhase, action: UpgradeAction|
        (UpgradeState { phase, failed_probes: s.failed_probes, holds_writer: s.holds_writer }, action);
    match (s.phase, e) {
        (UpgradePhase::Finished, _) => end(UpgradeOutcome::Failed(UpgradeError::OutOfTurn)),
        (_, UpgradeEvent::Unavailable) => end(UpgradeOutcome::Failed(UpgradeError::Runtime)),
        (UpgradePhase::Idle, UpgradeEvent::Begin) => go(
            UpgradePhase::Pulling,
            UpgradeAction::PullImage,
        ),
        (UpgradePhase::Pulling, UpgradeEvent::Pulled(ok)) => if ok {
            go(UpgradePhase::AwaitingWriter, UpgradeAction::AcquireWriter)
        } else {
            end(UpgradeOutcome::Failed(UpgradeError::Pull))
        },
        (UpgradePhase::AwaitingWriter, UpgradeEvent::WriterAcquired) => (
            UpgradeState {
                phase: UpgradePhase::Stopping,
                failed_probes: s.failed_probes,
                holds_writer: true,
            },
            UpgradeAction::StopContainer,
        ),
        (UpgradePhase::Stopping, UpgradeEvent::Stopped(_)) => go(
            UpgradePhase::Removing,
            UpgradeAction::RemoveContainer,
        ),
        (UpgradePhase::Removing, UpgradeEvent::Removed(outcome)) => if outcome
            == DockerOutcome::Done || outcome == DockerOutcome::Status(404) || outcome
            == DockerOutcome::Status(409) {
            go(UpgradePhase::Creating, UpgradeAction::CreateContainer)
        } else {
            end(UpgradeOutcome::Failed(UpgradeError::Remove))
        },
        (UpgradePhase::Creating, UpgradeEvent::Created(ok)) => if ok {
            go(UpgradePhase::Starting, UpgradeAction::StartContainer)
        } else {
            end(UpgradeOutcome::Failed(UpgradeError::Create))
        },
        (UpgradePhase::Starting, UpgradeEvent::Started(ok)) => if ok {
            (
                UpgradeState {
                    phase: UpgradePhase::Probing,
                    failed_probes: 0,
                    holds_writer: s.holds_writer,
                },
                UpgradeAction::ProbeHealth,
            )
        } else {
            end(UpgradeOutcome::Failed(UpgradeError::Start))
        },
        (UpgradePhase::Probing, UpgradeEvent::Probed(ok)) => if ok {
            end(UpgradeOutcome::Replaced { healthy: true })
        } else {
            (
                UpgradeState {
                    phase: UpgradePhase::Sleeping,
                    failed_probes: one_more(s.failed_probes),
                    holds_writer: s.holds_writer,
                },
                UpgradeAction::Sleep,
            )
        },
        (UpgradePhase::Sleeping, UpgradeEvent::Slept) => if s.failed_probes < UPGRADE_PROBES {
            go(UpgradePhase::Probing, UpgradeAction::ProbeHealth)
        } else {
            end(UpgradeOutcome::Replaced { healthy: false })
        },
        _ => end(UpgradeOutcome::Failed(UpgradeError::OutOfTurn)),
    }
}

impl UpgradeState {
    /// The state before the replacement is asked for.
    pub fn new() -> (s: UpgradeState)
        ensures
            s == (UpgradeState {
                phase: UpgradePhase::Idle,
                failed_probes: 0,
                holds_writer: false,
            }),
    {
        UpgradeState { phase: UpgradePhase::Idle, failed_probes: 0, holds_writer: false }
    }

    /// The states that a replacement driven from `new` can be in: the token
    /// is held exactly from the stop of the old container to the end.
    pub open spec fn coherent(&self) -> bool {
        self.holds_writer <==> (self.phase == UpgradePhase::Stopping || self.phase
            == UpgradePhase::Removing || self.phase == UpgradePhase::Creating || self.phase
            == UpgradePhase::Starting || self.phase == UpgradePhase::Probing || self.phase
            == UpgradePhase::Sleeping)
    }
}

/// Ends the replacement.
fn upgrade_ended(state: &mut UpgradeState, outcome: UpgradeOutcome) -> (action: UpgradeAction)
    ensures
        *final(state) == (UpgradeState {
            phase: UpgradePhase::Finished,
            failed_probes: old(state).failed_probes,
            holds_writer: false,
        }),
        action == (UpgradeAction::Finish { release_writer: old(state).holds_writer, outcome }),
{
    let release_writer = state.holds_writer;
    state.phase = UpgradePhase::Finished;
    state.holds_writer = false;
    UpgradeAction::Finish { release_writer, outcome }
}

/// Decides the next action of the replacement of the backend from what
/// happened since the last one.
pub fn upgrade_ollama_docker(state: &mut UpgradeState, event: UpgradeEvent) -> (action:
    UpgradeAction)
    ensures
        (*final(state), action) == upgrade_step(*old(state), event),
{
    match (state.phase, event) {
        (UpgradePhase::Finished, _) => upgrade_ended(
            state,
            UpgradeOutcome::Failed(UpgradeError::OutOfTurn),
        ),
        (_, UpgradeEvent::Unavailable) => upgrade_ended(
            state,
            UpgradeOutcome::Failed(UpgradeError::Runtime),
        ),
        (UpgradePhase::Idle, UpgradeEvent::Begin) => {
            state.phase = UpgradePhase::Pulling;
            UpgradeAction::PullImage
        },
        (UpgradePhase::Pulling, UpgradeEvent::Pulled(ok)) => {
            if ok {
                state.phase = UpgradePhase::AwaitingWriter;
                UpgradeAction::AcquireWriter
            } else {
                upgrade_ended(state, UpgradeOutcome::Failed(UpgradeError::Pull))
            }
        },
        (UpgradePhase::AwaitingWriter, UpgradeEvent::WriterAcquired) => {
            state.phase = UpgradePhase::Stopping;
            state.holds_writer = true;
            UpgradeAction::StopContainer
        },
        (UpgradePhase::Stopping, UpgradeEvent::Stopped(_)) => {
            state.phase = UpgradePhase::Removing;
            UpgradeAction::RemoveContainer
        },
        (UpgradePhase::Removing, UpgradeEvent::Removed(outcome)) => {
            let gone = match outcome {
                DockerOutcome::Done => true,
                DockerOutcome::Status(code) => code == 404 || code == 409,
                DockerOutcome::Failed => false,
            };
            if gone {
                state.phase = UpgradePhase::Creating;
                UpgradeAction::CreateContainer
            } else {
                upgrade_ended(state, UpgradeOutcome::Failed(UpgradeError::Remove))
            }
        },
        (UpgradePhase::Creating, UpgradeEvent::Created(ok)) => {
            if ok {
                state.phase = UpgradePhase::Starting;
                UpgradeAction::StartContainer
            } else {
                upgrade_ended(state, UpgradeOutcome::Failed(UpgradeError::Create))
            }
        },
        (UpgradePhase::Starting, UpgradeEvent::Started(ok)) => {
            if ok {
                state.phase = UpgradePhase::Probing;
                state.failed_probes = 0;
                UpgradeAction::ProbeHealth
            } else {
                upgrade_ended(state, UpgradeOutcome::Failed(UpgradeError::Start))
            }
        },
        (UpgradePhase::Probing, UpgradeEvent::Probed(ok)) => {
            if ok {
                upgrade_ended(state, UpgradeOutcome::Replaced { healthy: true })
            } else {
                state.phase = UpgradePhase::Sleeping;
                if state.failed_probes < u32::MAX {
                    state.failed_probes = state.failed_probes + 1;
                }
                UpgradeAction::Sleep
            }
        },
        (UpgradePhase::Sleeping, UpgradeEvent::Slept) => {
            if state.failed_probes < UPGRADE_PROBES {
                state.phase = UpgradePhase::Probing;
                UpgradeAction::ProbeHealth
            } else {
                upgrade_ended(state, UpgradeOutcome::Replaced { healthy: false })
            }
        },
        _ => upgrade_ended(state, UpgradeOutcome::Failed(UpgradeError::OutOfTurn)),
    }
}

/// The token is held exactly while the container is being replaced: every
/// step keeps a coherent state coherent, touches the container only with
/// the token held, and gives the token back when it ends.
pub proof fn lemma_upgrade_holds_writer(s: UpgradeState, e: UpgradeEvent)
    requires
        s.coherent(),
    ensures
        upgrade_step(s, e).0.coherent(),
        ({
            let a = upgrade_step(s, e).1;
            a == UpgradeAction::StopContainer || a == UpgradeAction::RemoveContainer || a
                == UpgradeAction::CreateContainer || a == UpgradeAction::StartContainer
        }) ==> upgrade_step(s, e).0.holds_writer,
        upgrade_step(s, e).1 matches UpgradeAction::Finish { release_writer, .. }
            ==> release_writer == s.holds_writer && !upgrade_step(s, e).0.holds_writer,
{
}

/// Where the stop of the backend stands.
#[derive(Clone, Copy, Debug, PartialEq, Eq, Structural)]
pub enum StopPhase {
    Idle,
    Stopping,
    Removing,
    Finished,
}

/// What happened since the last action of the stop.
#[derive(Clone, Copy, Debug, PartialEq, Eq, Structural)]
pub enum StopEvent {
    /// The stop is asked for.
    Begin,
    /// The stop of the container ended.
    Stopped(DockerOutcome),
    /// The removal of the container ended.
    Removed(DockerOutcome),
    /// The container runtime cannot be reached.
    Unavailable,
}

/// Why the backend could not be stopped.
#[derive(Clone, Copy, Debug, PartialEq, Eq, Structural)]
pub enum StopError {
    Runtime,
    Remove,
    OutOfTurn,
}

/// What to do next to stop the backend.
#[derive(Clone, Copy, Debug, PartialEq, Eq, Structural)]
pub enum StopAction {
    /// Stop the container.
    StopContainer,
    /// Force-remove the container.
    RemoveContainer,
    /// The container is gone.
    Succeed,
    /// The stop failed.
    Fail(StopError),
}

/// The next phase and action of the stop of the backend.
///
/// The container is stopped, whatever the runtime answers, and then
/// force-removed. That it is already gone counts as removed.
pub open spec fn stop_step(phase: StopPhase, e: StopEvent) -> (StopPhase, StopAction) {
    match (phase, e) {
        (StopPhase::Finished, _) => (StopPhase::Finished, StopAction::Fail(StopError::OutOfTurn)),
        (_, StopEvent::Unavailable) => (StopPhase::Finished, StopAction::Fail(StopError::Runtime)),
        (StopPhase::Idle, StopEvent::Begin) => (StopPhase::Stopping, StopAction::StopContainer),
        (StopPhase::Stopping, StopEvent::Stopped(_)) => (
            StopPhase::Removing,
            StopAction::RemoveContainer,
        ),
        (StopPhase::Removing, StopEvent::Removed(outcome)) => if outcome == DockerOutcome::Done
            || outcome == DockerOutcome::Status(404) {
            (StopPhase::Finished, StopAction::Succeed)
        } else {
            (StopPhase::Finished, StopAction::Fail(StopError::Remove))
        },
        _ => (StopPhase::Finished, StopAction::Fail(StopError::OutOfTurn)),
    }
}

/// Decides the next action of the stop of the backend from what happened
/// since the last one.
pub fn stop_ollama_docker(phase: &mut StopPhase, event: StopEvent) -> (action: StopAction)
    ensures
        (*final(phase), action) == stop_step(*old(phase), event),
{
    let (next, action) = match (*phase, event) {
        (StopPhase::Finished, _) => (StopPhase::Finished, StopAction::Fail(StopError::OutOfTurn)),
        (_, StopEvent::Unavailable) => (StopPhase::Finished, StopAction::Fail(StopError::Runtime)),
        (StopPhase::Idle, StopEvent::Begin) => (StopPhase::Stopping, StopAction::StopContainer),
        (StopPhase::Stopping, StopEvent::Stopped(_)) => (
            StopPhase::Removing,
            StopAction::RemoveContainer,
        ),
        (StopPhase::Removing, StopEvent::Removed(outcome)) => {
            let gone = match outcome {
                DockerOutcome::Done => true,
                DockerOutcome::Status(code) => code == 404,
                DockerOutcome::Failed => false,
            };
            if gone {
                (StopPhase::Finished, StopAction::Succeed)
            } else {
                (StopPhase::Finished, StopAction::Fail(StopError::Remove))
            }
        },
        _ => (StopPhase::Finished, StopAction::Fail(StopError::OutOfTurn)),
    };
    *phase = next;
    action
}

/// The exclusion between relays and the replacement of the backend: any
/// number of readers, or one writer.
#[derive(Debug)]
pub struct UpgradeLock {
    readers: usize,
    writer: bool,
}

impl UpgradeLock {
    /// Number of readers that hold the token.
    pub closed spec fn readers(&self) -> nat {
        self.readers as nat
    }

    /// Whether a writer holds the token.
    pub closed spec fn writer(&self) -> bool {
        self.writer
    }

    /// A writer never holds the token together with a reader.
    pub open spec fn wf(&self) -> bool {
        !(self.writer() && self.readers() > 0)
    }

    /// A token that nobody holds.
    pub fn new() -> (lock: UpgradeLock)
        ensures
            lock.wf(),
            lock.readers() == 0,
            !lock.writer(),
    {
        UpgradeLock { readers: 0, writer: false }
    }

    /// Takes the token as a reader, unless a writer holds it (or no further
    /// reader can be counted). Says whether it was taken; a caller that was
    /// refused has to wait.
    pub fn try_read(&mut self) -> (granted: bool)
        requires
            old(self).wf(),
        ensures
            final(self).wf(),
            granted == (!old(self).writer() && old(self).readers() < usize::MAX),
            final(self).writer() == old(self).writer(),
            final(self).readers() == old(self).readers() + (if granted { 1nat } else { 0nat }),
    {
        if !self.writer && self.readers < usize::MAX {
            self.readers = self.readers + 1;
            true
        } else {
            false
        }
    }

    /// Gives back one reader's hold. Says whether there was one.
    pub fn release_read(&mut self) -> (released: bool)
        requires
            old(self).wf(),
        ensures
            final(self).wf(),
            released == (old(self).readers() > 0),
            final(self).writer() == old(self).writer(),
            final(self).readers() == old(self).readers() - (if released { 1nat } else { 0nat }),
    {
        if self.readers > 0 {
            self.readers = self.readers - 1;
            true
        } else {
            false
        }
    }

    /// Takes the token as the writer, unless a reader or another writer
    /// holds it. Says whether it was taken; a caller that was refused has to
    /// wait.
    pub fn try_write(&mut self) -> (granted: bool)
        requires
            old(self).wf(),
        ensures
            final(self).wf(),
            granted == (!old(self).writer() && old(self).readers() == 0),
            final(self).writer() == (old(self).writer() || granted),
            final(self).readers() == old(self).readers(),
    {
        if !self.writer && self.readers == 0 {
            self.writer = true;
            true
        } else {
            false
        }
    }

    /// Gives back the writer's hold. Says whether there was one.
    pub fn release_write(&mut self) -> (released: bool)
        requires
            old(self).wf(),
        ensures
            final(self).wf(),
            released == old(self).writer(),
            !final(self).writer(),
            final(self).readers() == old(self).readers(),
    {
        let released = self.writer;
        self.writer = false;
        released
    }
}

} // verus!
