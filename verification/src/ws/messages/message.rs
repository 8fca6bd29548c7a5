//! The envelopes: a kind, the identifier of the task and a body.

use crate::ws::messages::message_type::{
    IncommingMessageBody, IncommingMessageType, OutgoingBodyView, OutgoingMessageBody,
    OutgoingMessageType,
};
use vstd::prelude::*;

verus! {

/// An envelope that the hub sends.
#[derive(Debug)]
pub struct IncommingMessage {
    pub message_type: IncommingMessageType,
    pub task_id: String,
    pub body: IncommingMessageBody,
}

/// An envelope that the node sends.
#[derive(Debug)]
pub struct OutgoingMessage {
    pub message_type: OutgoingMessageType,
    pub task_id: String,
    pub body: OutgoingMessageBody,
}

/// An envelope that the node sends, as a mathematical value.
pub struct OutgoingMessageView {
    pub message_type: OutgoingMessageType,
    pub task_id: Seq<char>,
    pub body: OutgoingBodyView,
}

impl View for OutgoingMessage {
    type V = OutgoingMessageView;

    open spec fn view(&self) -> OutgoingMessageView {
        OutgoingMessageView {
            message_type: self.message_type,
            task_id: self.task_id@,
            body: self.body@,
        }
    }
}

impl IncommingMessage {
    /// The kind of the envelope is the kind of its body.
    pub open spec fn well_formed(&self) -> bool {
        self.message_type == self.body.kind()
    }

    /// Tests whether the kind of the envelope is the kind of its body.
    pub fn is_well_formed(&self) -> (ok: bool)
        ensures
            ok == self.well_formed(),
    {
        self.message_type == self.body.message_type()
    }
}

impl OutgoingMessage {
    /// The kind of the envelope is the kind of its body.
    pub open spec fn well_formed(&self) -> bool {
        self.message_type == self.body.kind()
    }
}

} // verus!
