//! The worker of one loaded model: it acknowledges the load, then takes
//! prompts.

use crate::llm::models::model_core::config::{ModelConfig, ModelConfigPublic};
use crate::llm::traits::model::Model;
use crate::managers::errors::{error_envelope, ModelManagerError, ProtocolError};
use crate::managers::manager::{state_name, State};
use crate::text::{push_str, string_from_chars};
use crate::ws::messages::message::{IncommingMessage, OutgoingMessage, OutgoingMessageView};
use crate::ws::messages::message_type::{
    IncommingMessageBody, IncommingMessageType, OutgoingBodyView, OutgoingMessageBody,
    OutgoingMessageType,
};
use crate::ws::messages::variants::incomming::submit_embed::SubmitEmbed;
use crate::ws::messages::variants::incomming::submit_prompt::SubmitPrompt;
use crate::ws::messages::variants::outgoing::response_load_model::ResponseLoadModel;
use vstd::prelude::*;

verus! {

/// The worker of one loaded model.
#[derive(Debug)]
pub struct ModelManager {
    state: State,
    model: Model,
    model_config: ModelConfig,
}

/// What a worker does with an envelope.
#[derive(Debug)]
pub enum ModelAction {
    /// Send this envelope to the hub.
    Reply(OutgoingMessage),
    /// Run the model on this prompt, for the job with this identifier.
    Prompt { task_id: String, body: SubmitPrompt },
    /// Embed this text with the model, for the job with this identifier.
    Embed { task_id: String, body: SubmitEmbed },
}

/// The text with which a worker turns a request down.
pub open spec fn worker_rejection(state: State) -> Seq<char> {
    "The model manager does not allow the request in this state: "@ + state_name(state)
}

impl ModelAction {
    /// Whether the action is to send exactly this envelope to the hub.
    pub open spec fn replies(&self, envelope: OutgoingMessageView) -> bool {
        match self {
            ModelAction::Reply(r) => r.well_formed() && r@ == envelope,
            _ => false,
        }
    }
}

impl ModelManager {
    /// The state of the worker.
    pub closed spec fn state(&self) -> State {
        self.state
    }

    /// The configuration of the worker's model.
    pub closed spec fn config(&self) -> ModelConfig {
        self.model_config
    }

    /// The model of the worker.
    pub closed spec fn model(&self) -> Model {
        self.model
    }

    /// The worker of a model with this configuration, not started yet, or
    /// what is wrong with the model's name.
    pub fn try_from(model_config: ModelConfig) -> (manager: Result<ModelManager, String>)
        ensures
            model_config.model_name@ == "llama3_8b"@ ==> manager is Ok && {
                let m = manager->Ok_0;
                &&& m.state() == State::Offline
                &&& m.config() == model_config
                &&& m.model() == Model::LanguageModel(
                    crate::llm::models::llama3_8b::Llama3_8b {
                        max_seq_len: model_config.max_seq_len,
                        max_sample_len: model_config.max_sample_len,
                    },
                )
            },
            model_config.model_name@ != "llama3_8b"@ ==> manager is Err && manager->Err_0@
                == "Unknown model identifier: \""@ + model_config.model_name@ + "\""@,
    {
        match Model::try_from(&model_config) {
            Ok(model) => Ok(ModelManager { state: State::Offline, model, model_config }),
            Err(e) => Err(e),
        }
    }

    /// The identifier of the worker.
    pub fn get_id(&self) -> (id: String)
        ensures
            id@ == self.config().id@,
    {
        self.model_config.id.clone()
    }

    /// The public part of the model's configuration.
    pub fn get_loaded_config(&self) -> (public: ModelConfigPublic)
        ensures
            public.model_name@ == self.config().model_name@,
            public.max_seq_len == self.config().max_seq_len,
            public.max_sample_len == self.config().max_sample_len,
    {
        ModelConfigPublic::from(&self.model_config)
    }

    /// The state of the worker.
    pub fn get_state(&self) -> (state: &State)
        ensures
            *state == self.state(),
    {
        &self.state
    }

    /// Puts the worker in a state.
    pub fn set_state(&mut self, new_state: State) -> (changed: bool)
        ensures
            changed,
            final(self).state() == new_state,
            final(self).config() == old(self).config(),
            final(self).model() == old(self).model(),
    {
        self.state = new_state;
        true
    }

    /// Starts the worker: it is ready at once and acknowledges the load to
    /// the task that asked for it. A worker that was started before gives
    /// nothing.
    pub fn start(&mut self) -> (ack: Option<OutgoingMessage>)
        ensures
            final(self).config() == old(self).config(),
            final(self).model() == old(self).model(),
            old(self).state() != State::Offline ==> ack is None && final(self).state() == old(
                self,
            ).state(),
            old(self).state() == State::Offline ==> final(self).state() == State::Ready && ack
                is Some && ack->0.well_formed() && ack->0@ == (OutgoingMessageView {
                message_type: OutgoingMessageType::ResponseLoadModel,
                task_id: old(self).config().request_packet_id@,
                body: OutgoingBodyView::ResponseLoadModel {
                    handler_id: old(self).config().id@,
                    model_name: old(self).config().model_name@,
                    max_seq_len: old(self).config().max_seq_len,
                    max_sample_len: old(self).config().max_sample_len,
                },
            }),
    {
        if self.state != State::Offline {
            return None;
        }
        self.state = State::Ready;
        Some(
            OutgoingMessage {
                message_type: OutgoingMessageType::ResponseLoadModel,
                task_id: self.model_config.request_packet_id.clone(),
                body: OutgoingMessageBody::ResponseLoadModel(
                    ResponseLoadModel {
                        handler_id: self.get_id(),
                        config: self.get_loaded_config(),
                    },
                ),
            },
        )
    }

    /// The envelope that turns a request down in the worker's state.
    fn reject_message(&self, task_id: String) -> (envelope: OutgoingMessage)
        ensures
            envelope@ == error_envelope(task_id@, 300, worker_rejection(self.state())),
            envelope.well_formed(),
    {
        let mut text: Vec<char> = Vec::new();
        push_str(&mut text, "The model manager does not allow the request in this state: ");
        push_str(&mut text, self.state.name());
        ProtocolError::BadRequest(string_from_chars(&text), task_id).into_message()
    }

    /// Decides what to do with an envelope.
    ///
    /// A worker that is not ready answers `ModelNotReady`. A ready worker
    /// takes a prompt or a text to embed where its model can do that, and
    /// answers `InvalidModelAction` where it cannot; anything else it turns
    /// down as a bad request. Every answer goes under the identifier that
    /// the envelope carries.
    pub fn handle_incomming_message(&self, message: IncommingMessage) -> (action: ModelAction)
        ensures
            self.state() != State::Ready ==> action.replies(
                error_envelope(message.task_id@, 500, "Model is not ready for action."@),
            ),
            self.state() == State::Ready && !message.well_formed() ==> action.replies(
                error_envelope(message.task_id@, 300, worker_rejection(State::Ready)),
            ),
            self.state() == State::Ready && message.well_formed() ==> match (
                self.model(),
                message.body,
            ) {
                (Model::LanguageModel(_), IncommingMessageBody::SubmitPrompt(b)) => action == (
                ModelAction::Prompt { task_id: message.task_id, body: b }),
                (Model::EmbeddingModel, IncommingMessageBody::SubmitEmbed(b)) => action == (
                ModelAction::Embed { task_id: message.task_id, body: b }),
                (_, IncommingMessageBody::SubmitPrompt(_)) | (
                    _,
                    IncommingMessageBody::SubmitEmbed(_),
                ) => action.replies(
                    error_envelope(
                        message.task_id@,
                        300,
                        "This action is not avalible for the chosen model"@,
                    ),
                ),
                _ => action.replies(
                    error_envelope(message.task_id@, 300, worker_rejection(State::Ready)),
                ),
            },
    {
        if self.state != State::Ready {
            return ModelAction::Reply(
                ModelManagerError::ModelNotReady(message.task_id).into_message(),
            );
        }
        if !message.is_well_formed() {
            return ModelAction::Reply(self.reject_message(message.task_id));
        }
        match message.body.message_type() {
            IncommingMessageType::SubmitPrompt => match self.model.prompt(message) {
                Ok((task_id, body)) => ModelAction::Prompt { task_id, body },
                Err(e) => ModelAction::Reply(e.into_message()),
            },
            IncommingMessageType::SubmitEmbed => match self.model.embed(message) {
                Ok((task_id, body)) => ModelAction::Embed { task_id, body },
                Err(e) => ModelAction::Reply(e.into_message()),
            },
            _ => ModelAction::Reply(self.reject_message(message.task_id)),
        }
    }
}

} // verus!
