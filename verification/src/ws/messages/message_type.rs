//! The kinds of envelopes and their bodies.

use crate::ws::messages::variants::bidirectional::error::ErrorMessage;
use crate::ws::messages::variants::bidirectional::success::SuccessMessage;
use crate::ws::messages::variants::incomming::load_models::LoadModels;
use crate::ws::messages::variants::incomming::submit_embed::SubmitEmbed;
use crate::ws::messages::variants::incomming::submit_prompt::SubmitPrompt;
use crate::ws::messages::variants::outgoing::authentication::Authentication;
use crate::ws::messages::variants::outgoing::response_load_model::ResponseLoadModel;
use crate::ws::messages::variants::outgoing::response_prompt::ResponsePrompt;
use crate::ws::messages::variants::outgoing::response_prompt_token::ResponsePromptToken;
use vstd::prelude::*;

verus! {

/// The kind of an envelope that the hub sends.
#[derive(Clone, Copy, Debug, PartialEq, Eq, Structural)]
pub enum IncommingMessageType {
    Success,
    LoadModels,
    SubmitEmbed,
    SubmitPrompt,
    Error,
}

/// The body of an envelope that the hub sends.
#[derive(Debug)]
pub enum IncommingMessageBody {
    Success(SuccessMessage),
    LoadModels(LoadModels),
    SubmitEmbed(SubmitEmbed),
    SubmitPrompt(SubmitPrompt),
    Error(ErrorMessage),
}

/// The kind of an envelope that the node sends.
#[derive(Clone, Copy, Debug, PartialEq, Eq, Structural)]
pub enum OutgoingMessageType {
    Authentication,
    ResponseEmbed,
    ResponsePrompt,
    ResponsePromptToken,
    ResponseLoadModel,
    Error,
}

/// The body of an envelope that the node sends.
#[derive(Debug)]
pub enum OutgoingMessageBody {
    Authentication(Authentication),
    ResponseLoadModel(ResponseLoadModel),
    ResponsePrompt(ResponsePrompt),
    ResponsePromptToken(ResponsePromptToken),
    Error(ErrorMessage),
}

/// The body of an envelope that the node sends, as a mathematical value.
pub enum OutgoingBodyView {
    Authentication(Authentication),
    ResponseLoadModel {
        handler_id: Seq<char>,
        model_name: Seq<char>,
        max_seq_len: usize,
        max_sample_len: usize,
    },
    ResponsePrompt {
        model: Seq<char>,
        system_mesage: Seq<char>,
        mode: Seq<char>,
        response: Seq<char>,
        tokenizer_time: u64,
        inference_time: u64,
        tokens_processed: u32,
        tokens_generated: u64,
    },
    ResponsePromptToken { model: Seq<char>, token: Seq<char> },
    Error { code: u32, message: Seq<char> },
}

impl View for OutgoingMessageBody {
    type V = OutgoingBodyView;

    open spec fn view(&self) -> OutgoingBodyView {
        match self {
            OutgoingMessageBody::Authentication(a) => OutgoingBodyView::Authentication(*a),
            OutgoingMessageBody::ResponseLoadModel(r) => OutgoingBodyView::ResponseLoadModel {
                handler_id: r.handler_id@,
                model_name: r.config.model_name@,
                max_seq_len: r.config.max_seq_len,
                max_sample_len: r.config.max_sample_len,
            },
            OutgoingMessageBody::ResponsePrompt(r) => OutgoingBodyView::ResponsePrompt {
                model: r.model@,
                system_mesage: r.system_mesage@,
                mode: r.mode@,
                response: r.response@,
                tokenizer_time: r.tokenizer_time,
                inference_time: r.inference_time,
                tokens_processed: r.tokens_processed,
                tokens_generated: r.tokens_generated,
            },
            OutgoingMessageBody::ResponsePromptToken(r) => OutgoingBodyView::ResponsePromptToken {
                model: r.model@,
                token: r.token@,
            },
            OutgoingMessageBody::Error(e) => OutgoingBodyView::Error {
                code: e.code,
                message: e.message@,
            },
        }
    }
}

impl IncommingMessageBody {
    /// The kind of envelope that carries this body.
    pub open spec fn kind(&self) -> IncommingMessageType {
        match self {
            IncommingMessageBody::Success(_) => IncommingMessageType::Success,
            IncommingMessageBody::LoadModels(_) => IncommingMessageType::LoadModels,
            IncommingMessageBody::SubmitEmbed(_) => IncommingMessageType::SubmitEmbed,
            IncommingMessageBody::SubmitPrompt(_) => IncommingMessageType::SubmitPrompt,
            IncommingMessageBody::Error(_) => IncommingMessageType::Error,
        }
    }

    /// Tells the kind of envelope that carries this body.
    pub fn message_type(&self) -> (kind: IncommingMessageType)
        ensures
            kind == self.kind(),
    {
        match self {
            IncommingMessageBody::Success(_) => IncommingMessageType::Success,
            IncommingMessageBody::LoadModels(_) => IncommingMessageType::LoadModels,
            IncommingMessageBody::SubmitEmbed(_) => IncommingMessageType::SubmitEmbed,
            IncommingMessageBody::SubmitPrompt(_) => IncommingMessageType::SubmitPrompt,
            IncommingMessageBody::Error(_) => IncommingMessageType::Error,
        }
    }
}

impl OutgoingMessageBody {
    /// The kind of envelope that carries this body.
    pub open spec fn kind(&self) -> OutgoingMessageType {
        match self {
            OutgoingMessageBody::Authentication(_) => OutgoingMessageType::Authentication,
            OutgoingMessageBody::ResponseLoadModel(_) => OutgoingMessageType::ResponseLoadModel,
            OutgoingMessageBody::ResponsePrompt(_) => OutgoingMessageType::ResponsePrompt,
            OutgoingMessageBody::ResponsePromptToken(_) => OutgoingMessageType::ResponsePromptToken,
            OutgoingMessageBody::Error(_) => OutgoingMessageType::Error,
        }
    }
}

} // verus!
