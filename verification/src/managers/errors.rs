//! The errors of the structured protocol and the envelopes that report them.

use crate::text::{push_str, string_from_chars};
use crate::ws::messages::message::{OutgoingMessage, OutgoingMessageView};
use crate::ws::messages::message_type::{OutgoingBodyView, OutgoingMessageBody, OutgoingMessageType};
use crate::ws::messages::variants::bidirectional::error::ErrorMessage;
use vstd::prelude::*;

verus! {

/// An error of a model's worker, with the task that met it.
#[derive(Debug)]
pub enum ModelManagerError {
    /// The worker is not ready.
    ModelNotReady(String),
    /// The model cannot do what was asked.
    InvalidModelAction(String),
}

/// An error of the supervisor, with the task that met it.
#[derive(Debug)]
pub enum ProtocolError {
    /// The request is not allowed in the supervisor's state.
    BadRequest(String, String),
    /// The model could not be loaded, for the reason given.
    UnableToLoadModel(String, String),
    /// No model has the identifier asked for.
    ModelNotFound(String),
    /// The model's worker is gone.
    CantReachModel(String),
}

/// The envelope that reports an error to the hub.
pub open spec fn error_envelope(task_id: Seq<char>, code: u32, message: Seq<char>) -> OutgoingMessageView {
    OutgoingMessageView {
        message_type: OutgoingMessageType::Error,
        task_id,
        body: OutgoingBodyView::Error { code, message },
    }
}

/// Makes the envelope that reports an error to the hub.
pub fn error_message(task_id: String, code: u32, message: String) -> (envelope: OutgoingMessage)
    ensures
        envelope@ == error_envelope(task_id@, code, message@),
        envelope.well_formed(),
{
    OutgoingMessage {
        message_type: OutgoingMessageType::Error,
        task_id,
        body: OutgoingMessageBody::Error(ErrorMessage { code, message }),
    }
}

/// A line of the form `[TASK: id] text`, with `more` behind it where there
/// is more.
fn task_line(task_id: &str, text: &str, more: Option<&str>) -> (line: String)
    ensures
        line@ == "[TASK: "@ + task_id@ + "] "@ + text@ + (match more {
            Some(m) => m@,
            None => Seq::empty(),
        }),
{
    let mut out: Vec<char> = Vec::new();
    push_str(&mut out, "[TASK: ");
    push_str(&mut out, task_id);
    push_str(&mut out, "] ");
    push_str(&mut out, text);
    match more {
        Some(m) => {
            push_str(&mut out, m);
        },
        None => {},
    }
    assert(out@ =~= "[TASK: "@ + task_id@ + "] "@ + text@ + (match more {
        Some(m) => m@,
        None => Seq::empty(),
    }));
    string_from_chars(&out)
}

impl ModelManagerError {
    /// The task that met the error.
    pub open spec fn task(&self) -> Seq<char> {
        match self {
            ModelManagerError::ModelNotReady(t) => t@,
            ModelManagerError::InvalidModelAction(t) => t@,
        }
    }

    /// The code under which the error is reported.
    pub open spec fn code(&self) -> u32 {
        match self {
            ModelManagerError::ModelNotReady(_) => 500,
            ModelManagerError::InvalidModelAction(_) => 300,
        }
    }

    /// The text with which the error is reported.
    pub open spec fn text(&self) -> Seq<char> {
        match self {
            ModelManagerError::ModelNotReady(_) => "Model is not ready for action."@,
            ModelManagerError::InvalidModelAction(_) =>
                "This action is not avalible for the chosen model"@,
        }
    }

    /// The error in words, for a log.
    pub fn to_string(&self) -> (line: String)
        ensures
            line@ == "[TASK: "@ + self.task() + "] "@ + (match self {
                ModelManagerError::ModelNotReady(_) => "Model is not ready for action."@,
                ModelManagerError::InvalidModelAction(_) =>
                    "This action is not available for the chosen model."@,
            }),
    {
        match self {
            ModelManagerError::ModelNotReady(t) => task_line(
                t.as_str(),
                "Model is not ready for action.",
                None,
            ),
            ModelManagerError::InvalidModelAction(t) => task_line(
                t.as_str(),
                "This action is not available for the chosen model.",
                None,
            ),
        }
    }

    /// The envelope that reports the error to the hub, under the task that
    /// met it.
    pub fn into_message(self) -> (envelope: OutgoingMessage)
        ensures
            envelope@ == error_envelope(self.task(), self.code(), self.text()),
            envelope.well_formed(),
    {
        match self {
            ModelManagerError::ModelNotReady(t) => error_message(
                t,
                500,
                "Model is not ready for action.".to_owned(),
            ),
            ModelManagerError::InvalidModelAction(t) => error_message(
                t,
                300,
                "This action is not avalible for the chosen model".to_owned(),
            ),
        }
    }
}

impl ProtocolError {
    /// The task that met the error.
    pub open spec fn task(&self) -> Seq<char> {
        match self {
            ProtocolError::BadRequest(_, t) => t@,
            ProtocolError::UnableToLoadModel(_, t) => t@,
            ProtocolError::ModelNotFound(t) => t@,
            ProtocolError::CantReachModel(t) => t@,
        }
    }

    /// The code under which the error is reported.
    pub open spec fn code(&self) -> u32 {
        match self {
            ProtocolError::BadRequest(_, _) => 300,
            ProtocolError::UnableToLoadModel(_, _) => 422,
            ProtocolError::ModelNotFound(_) => 404,
            ProtocolError::CantReachModel(_) => 500,
        }
    }

    /// The text with which the error is reported.
    pub open spec fn text(&self) -> Seq<char> {
        match self {
            ProtocolError::BadRequest(m, _) => m@,
            ProtocolError::UnableToLoadModel(e, _) => e@,
            ProtocolError::ModelNotFound(_) => "Model identifier not found"@,
            ProtocolError::CantReachModel(_) => "Can't reach model"@,
        }
    }

    /// The error in words, for a log.
    pub fn to_string(&self) -> (line: String)
        ensures
            line@ == "[TASK: "@ + self.task() + "] "@ + (match self {
                ProtocolError::BadRequest(_, _) => "Bad request: "@,
                ProtocolError::UnableToLoadModel(_, _) => "Unable to load model: "@,
                ProtocolError::ModelNotFound(_) => "Model identifier not found"@,
                ProtocolError::CantReachModel(_) => "Can't reach model"@,
            }) + (match self {
                ProtocolError::BadRequest(m, _) => m@,
                ProtocolError::UnableToLoadModel(e, _) => e@,
                _ => Seq::empty(),
            }),
    {
        match self {
            ProtocolError::BadRequest(m, t) => task_line(
                t.as_str(),
                "Bad request: ",
                Some(m.as_str()),
            ),
            ProtocolError::UnableToLoadModel(e, t) => task_line(
                t.as_str(),
                "Unable to load model: ",
                Some(e.as_str()),
            ),
            ProtocolError::ModelNotFound(t) => task_line(
                t.as_str(),
                "Model identifier not found",
                None,
            ),
            ProtocolError::CantReachModel(t) => task_line(t.as_str(), "Can't reach model", None),
        }
    }

    /// The envelope that reports the error to the hub, under the task that
    /// met it.
    pub fn into_message(self) -> (envelope: OutgoingMessage)
        ensures
            envelope@ == error_envelope(self.task(), self.code(), self.text()),
            envelope.well_formed(),
    {
        match self {
            ProtocolError::BadRequest(m, t) => error_message(t, 300, m),
            ProtocolError::UnableToLoadModel(e, t) => error_message(t, 422, e),
            ProtocolError::ModelNotFound(t) => error_message(
                t,
                404,
                "Model identifier not found".to_owned(),
            ),
            ProtocolError::CantReachModel(t) => error_message(
                t,
                500,
                "Can't reach model".to_owned(),
            ),
        }
    }
}

} // verus!
