//! The supervisor of a connection: it follows the hub from authentication
//! to work, has workers started for the models to load, and routes each job
//! to the worker of its model.

use crate::llm::models::model_core::config::ModelConfig;
use crate::managers::errors::{error_envelope, ProtocolError};
use crate::managers::manager::{state_name, State};
use crate::text::{push_str, string_from_chars};
use crate::ws::messages::message::{IncommingMessage, OutgoingMessage, OutgoingMessageView};
use crate::ws::messages::message_type::{IncommingMessageBody, IncommingMessageType};
use crate::ws::messages::variants::incomming::load_models::{LoadModels, RequestModelConfig};
use vstd::prelude::*;

verus! {

/// The concurrent map of the `dashmap` crate. Nothing is known of what it
/// holds but through the wrappers below.
#[verifier::external_type_specification]
#[verifier::external_body]
#[verifier::reject_recursive_types(K)]
#[verifier::reject_recursive_types(V)]
#[verifier::reject_recursive_types(S)]
pub struct ExDashMap<K, V, S>(dashmap::DashMap<K, V, S>);

/// The keys that a registry holds.
pub uninterp spec fn registered(map: dashmap::DashMap<String, ()>) -> Set<Seq<char>>;

/// `DashMap::new`: a map that holds nothing.
#[verifier::external_body]
fn registry_new() -> (map: dashmap::DashMap<String, ()>)
    ensures
        registered(map) == Set::<Seq<char>>::empty(),
{
    dashmap::DashMap::new()
}

/// `DashMap::insert`: the map then holds the key besides what it held.
#[verifier::external_body]
fn registry_insert(map: &mut dashmap::DashMap<String, ()>, key: String)
    ensures
        registered(*final(map)) == registered(*old(map)).insert(key@),
{
    map.insert(key, ());
}

/// `DashMap::contains_key`: whether the map holds the key.
#[verifier::external_body]
fn registry_contains(map: &dashmap::DashMap<String, ()>, key: &str) -> (found: bool)
    ensures
        found == registered(*map).contains(key@),
{
    map.contains_key(key)
}

/// `DashMap::is_empty`: whether the map holds nothing.
#[verifier::external_body]
fn registry_is_empty(map: &dashmap::DashMap<String, ()>) -> (empty: bool)
    ensures
        empty == (registered(*map) == Set::<Seq<char>>::empty()),
{
    map.is_empty()
}

/// The supervisor of a connection.
#[derive(Debug)]
pub struct ProtocolManager {
    state: State,
    models: dashmap::DashMap<String, ()>,
}

/// What a supervisor has done for an envelope.
#[derive(Debug)]
pub enum ProtocolAction {
    /// Send this envelope to the hub.
    Reply(OutgoingMessage),
    /// Start a worker for a model with this configuration, reachable under
    /// the identifier of the configuration.
    Spawn(ModelConfig),
    /// Hand this envelope to the worker with this identifier.
    Forward { model_id: String, message: IncommingMessage },
}

/// The text with which a supervisor turns a request down.
pub open spec fn rejection(state: State) -> Seq<char> {
    "The node does not allow the request in this state: "@ + state_name(state)
}

/// Whether a supervisor in `state` expects an envelope of this kind.
pub open spec fn expects(state: State, kind: IncommingMessageType) -> bool {
    match (state, kind) {
        (State::Unauthenticated, IncommingMessageType::Success) => true,
        (State::Authenticated, IncommingMessageType::LoadModels) => true,
        (State::Ready, IncommingMessageType::LoadModels) => true,
        (State::Ready, IncommingMessageType::SubmitEmbed) => true,
        (State::Ready, IncommingMessageType::SubmitPrompt) => true,
        _ => false,
    }
}

/// The model that a job is for.
pub open spec fn target_model(body: IncommingMessageBody) -> Seq<char> {
    match body {
        IncommingMessageBody::SubmitPrompt(b) => b.model_id@,
        IncommingMessageBody::SubmitEmbed(b) => b.model@,
        _ => Seq::empty(),
    }
}

impl ProtocolAction {
    /// Whether the action is to send exactly this envelope to the hub.
    pub open spec fn replies(&self, envelope: OutgoingMessageView) -> bool {
        match self {
            ProtocolAction::Reply(r) => r.well_formed() && r@ == envelope,
            _ => false,
        }
    }

    /// Whether the action answers the request to load the model of
    /// `settings` for the task `task_id`: a worker for a model that is
    /// known, an `UnableToLoadModel` error for any other.
    pub open spec fn loads(&self, settings: RequestModelConfig, task_id: Seq<char>) -> bool {
        if settings.model_name@ == "llama3_8b"@ {
            match self {
                ProtocolAction::Spawn(config) => config.made_for(settings, task_id, config.id@),
                _ => false,
            }
        } else {
            self.replies(
                error_envelope(
                    task_id,
                    422,
                    "Unknown model identifier: \""@ + settings.model_name@ + "\""@,
                ),
            )
        }
    }
}

impl ProtocolAction {
    /// Whether what the action sends or starts goes under the identifier
    /// `task_id`; an envelope handed to a worker keeps its own.
    pub open spec fn carries(&self, task_id: Seq<char>) -> bool {
        match self {
            ProtocolAction::Reply(r) => r@.task_id == task_id,
            ProtocolAction::Spawn(config) => config.request_packet_id@ == task_id,
            ProtocolAction::Forward { message, .. } => message.task_id@ == task_id,
        }
    }
}

/// The identifiers of the workers that a list of actions starts.
pub open spec fn spawned(actions: Seq<ProtocolAction>) -> Set<Seq<char>>
    decreases actions.len(),
{
    if actions.len() == 0 {
        Set::empty()
    } else {
        match actions.last() {
            ProtocolAction::Spawn(config) => spawned(actions.drop_last()).insert(config.id@),
            _ => spawned(actions.drop_last()),
        }
    }
}

impl ProtocolManager {
    /// The state of the supervisor.
    pub closed spec fn state(&self) -> State {
        self.state
    }

    /// The identifiers of the workers registered.
    pub closed spec fn registry(&self) -> Set<Seq<char>> {
        registered(self.models)
    }

    /// A supervisor that is not started yet, without workers.
    pub fn new() -> (manager: ProtocolManager)
        ensures
            manager.state() == State::Offline,
            manager.registry() == Set::<Seq<char>>::empty(),
    {
        ProtocolManager { state: State::Offline, models: registry_new() }
    }

    /// The state of the supervisor.
    pub fn get_state(&self) -> (state: &State)
        ensures
            *state == self.state(),
    {
        &self.state
    }

    /// Puts the supervisor in a state.
    pub fn set_state(&mut self, new_state: State) -> (changed: bool)
        ensures
            changed,
            final(self).state() == new_state,
            final(self).registry() == old(self).registry(),
    {
        self.state = new_state;
        true
    }

    /// Starts the supervisor: from then on it waits for the hub to confirm
    /// the authentication. Says whether it was started now.
    pub fn start(&mut self) -> (started: bool)
        ensures
            started == (old(self).state() == State::Offline),
            final(self).state() == (if started {
                State::Unauthenticated
            } else {
                old(self).state()
            }),
            final(self).registry() == old(self).registry(),
    {
        if self.state != State::Offline {
            return false;
        }
        self.state = State::Unauthenticated;
        true
    }

    /// Whether a worker is registered under `model_id`.
    pub fn is_registered(&self, model_id: &str) -> (found: bool)
        ensures
            found == self.registry().contains(model_id@),
    {
        registry_contains(&self.models, model_id)
    }

    /// The envelope that turns a request down in the supervisor's state.
    pub fn reject_incomming_message(&self, task_id: String) -> (envelope: OutgoingMessage)
        ensures
            envelope@ == error_envelope(task_id@, 300, rejection(self.state())),
            envelope.well_formed(),
    {
        let mut text: Vec<char> = Vec::new();
        push_str(&mut text, "The node does not allow the request in this state: ");
        push_str(&mut text, self.state.name());
        ProtocolError::BadRequest(string_from_chars(&text), task_id).into_message()
    }

    /// Takes the hub's confirmation of the authentication.
    pub fn handle_successfull_authentication(&mut self)
        ensures
            final(self).state() == State::Authenticated,
            final(self).registry() == old(self).registry(),
    {
        self.state = State::Authenticated;
    }
}


impl ProtocolAction {
    /// Whether the action routes the job `message`, given the workers
    /// registered: to the worker of its model, unchanged, or, where no
    /// worker has the identifier, back to the hub as `ModelNotFound`.
    pub open spec fn routes(&self, message: IncommingMessage, registry: Set<Seq<char>>) -> bool {
        if registry.contains(target_model(message.body)) {
            match self {
                ProtocolAction::Forward { model_id, message: handed } => model_id@ == target_model(
                    message.body,
                ) && *handed == message,
                _ => false,
            }
        } else {
            self.replies(error_envelope(message.task_id@, 404, "Model identifier not found"@))
        }
    }
}

/// The envelope that tells the hub that the worker of a job is gone.
pub fn handle_unreachable_model(message: IncommingMessage) -> (envelope: OutgoingMessage)
    ensures
        envelope@ == error_envelope(message.task_id@, 500, "Can't reach model"@),
        envelope.well_formed(),
{
    ProtocolError::CantReachModel(message.task_id).into_message()
}

impl ProtocolManager {
    /// Has a worker started for each model of a load-models command.
    ///
    /// Each model is answered on its own and in order: a model that is
    /// known gets a configuration with a fresh identifier, under which its
    /// worker is registered; any other is reported as `UnableToLoadModel`
    /// without an end to the rest. With at least one worker registered the
    /// supervisor is ready.
    pub fn handle_load_models(&mut self, models_to_load: LoadModels, task_id: String) -> (actions:
        Vec<ProtocolAction>)
        ensures
            actions@.len() == models_to_load.model@.len(),
            forall|i: int|
                0 <= i < actions@.len() ==> (#[trigger] actions@[i]).loads(
                    models_to_load.model@[i],
                    task_id@,
                ),
            final(self).registry() == old(self).registry().union(spawned(actions@)),
            final(self).state() == (if final(self).registry() != Set::<Seq<char>>::empty() {
                State::Ready
            } else {
                old(self).state()
            }),
    {
        let mut actions: Vec<ProtocolAction> = Vec::new();
        let mut i: usize = 0;
        assert(self.registry() =~= old(self).registry().union(spawned(actions@)));
        while i < models_to_load.model.len()
            invariant
                i <= models_to_load.model.len(),
                actions@.len() == i,
                forall|k: int|
                    0 <= k < i ==> (#[trigger] actions@[k]).loads(
                        models_to_load.model@[k],
                        task_id@,
                    ),
                self.registry() == old(self).registry().union(spawned(actions@)),
                self.state() == old(self).state(),
            decreases models_to_load.model.len() - i,
        {
            let wanted = &models_to_load.model[i];
            let settings = RequestModelConfig {
                model_name: wanted.model_name.clone(),
                device: wanted.device,
                max_sample_len: wanted.max_sample_len,
            };
            let ghost before = actions@;
            let ghost held = self.registry();
            let action = match ModelConfig::try_from(settings, task_id.clone()) {
                Ok(config) => {
                    registry_insert(&mut self.models, config.id.clone());
                    assert(self.registry() =~= held.insert(config.id@));
                    ProtocolAction::Spawn(config)
                },
                Err(e) => ProtocolAction::Reply(
                    ProtocolError::UnableToLoadModel(e, task_id.clone()).into_message(),
                ),
            };
            assert(action.loads(models_to_load.model@[i as int], task_id@));
            let ghost pushed = action;
            actions.push(action);
            proof {
                assert(actions@.drop_last() =~= before);
                assert(actions@.last() == pushed);
                match pushed {
                    ProtocolAction::Spawn(config) => {
                        assert(spawned(actions@) == spawned(before).insert(config.id@));
                    },
                    _ => {
                        assert(spawned(actions@) == spawned(before));
                    },
                }
                assert(self.registry() =~= old(self).registry().union(spawned(actions@)));
            }
            i += 1;
        }
        if !registry_is_empty(&self.models) {
            self.state = State::Ready;
        }
        actions
    }

    /// Routes a job to the worker of its model.
    pub fn handle_prompt_request(&self, message: IncommingMessage) -> (action: ProtocolAction)
        ensures
            action.routes(message, self.registry()),
    {
        let model_id = match &message.body {
            IncommingMessageBody::SubmitPrompt(b) => b.model_id.clone(),
            IncommingMessageBody::SubmitEmbed(b) => b.model.clone(),
            _ => String::new(),
        };
        if self.is_registered(model_id.as_str()) {
            ProtocolAction::Forward { model_id, message }
        } else {
            ProtocolAction::Reply(ProtocolError::ModelNotFound(message.task_id).into_message())
        }
    }

    /// Takes an envelope of the hub.
    ///
    /// An envelope whose kind is not that of its body, or that the state
    /// does not expect, is turned down as a bad request under its task, and
    /// nothing changes. The confirmation of the authentication makes the
    /// supervisor authenticated; a load-models command is carried out model
    /// by model; a job is routed to the worker of its model.
    pub fn handle_incomming_message(&mut self, message: IncommingMessage) -> (actions: Vec<
        ProtocolAction,
    >)
        ensures
            forall|i: int| 0 <= i < actions@.len() ==> (#[trigger] actions@[i]).carries(message.task_id@),
            old(self).registry().subset_of(final(self).registry()),
            final(self).state() == State::Ready && old(self).state() != State::Ready
                ==> final(self).registry() != Set::<Seq<char>>::empty(),
            !(message.well_formed() && expects(old(self).state(), message.body.kind())) ==> {
                &&& final(self).state() == old(self).state()
                &&& final(self).registry() == old(self).registry()
                &&& actions@.len() == 1
                &&& actions@[0].replies(
                    error_envelope(message.task_id@, 300, rejection(old(self).state())),
                )
            },
            message.well_formed() && expects(old(self).state(), message.body.kind())
                ==> match message.body {
                IncommingMessageBody::LoadModels(wanted) => {
                    &&& actions@.len() == wanted.model@.len()
                    &&& forall|i: int|
                        0 <= i < actions@.len() ==> (#[trigger] actions@[i]).loads(
                            wanted.model@[i],
                            message.task_id@,
                        )
                    &&& final(self).registry() == old(self).registry().union(spawned(actions@))
                    &&& final(self).state() == (if final(self).registry() != Set::<
                        Seq<char>,
                    >::empty() {
                        State::Ready
                    } else {
                        old(self).state()
                    })
                },
                IncommingMessageBody::SubmitPrompt(_) | IncommingMessageBody::SubmitEmbed(_) => {
                    &&& final(self).state() == old(self).state()
                    &&& final(self).registry() == old(self).registry()
                    &&& actions@.len() == 1
                    &&& actions@[0].routes(message, old(self).registry())
                },
                _ => {
                    &&& final(self).state() == State::Authenticated
                    &&& final(self).registry() == old(self).registry()
                    &&& actions@.len() == 0
                },
            },
    {
        let kind = message.body.message_type();
        let expected = match (self.state, kind) {
            (State::Unauthenticated, IncommingMessageType::Success) => true,
            (State::Authenticated, IncommingMessageType::LoadModels) => true,
            (State::Ready, IncommingMessageType::LoadModels) => true,
            (State::Ready, IncommingMessageType::SubmitEmbed) => true,
            (State::Ready, IncommingMessageType::SubmitPrompt) => true,
            _ => false,
        };
        let mut actions: Vec<ProtocolAction> = Vec::new();
        if !message.is_well_formed() || !expected {
            actions.push(ProtocolAction::Reply(self.reject_incomming_message(message.task_id)));
            return actions;
        }
        match message.body {
            IncommingMessageBody::LoadModels(wanted) => self.handle_load_models(
                wanted,
                message.task_id,
            ),
            IncommingMessageBody::SubmitPrompt(_) | IncommingMessageBody::SubmitEmbed(_) => {
                actions.push(self.handle_prompt_request(message));
                actions
            },
            _ => {
                self.handle_successfull_authentication();
                actions
            },
        }
    }
}

/// A job is reported as `ModelNotFound` exactly when no worker is
/// registered under the identifier of its model; otherwise it is handed to
/// that worker.
pub proof fn lemma_model_not_found_iff_absent(
    action: ProtocolAction,
    message: IncommingMessage,
    registry: Set<Seq<char>>,
)
    requires
        action.routes(message, registry),
    ensures
        action.replies(error_envelope(message.task_id@, 404, "Model identifier not found"@))
            <==> !registry.contains(target_model(message.body)),
        action is Forward <==> registry.contains(target_model(message.body)),
{
}

} // verus!
