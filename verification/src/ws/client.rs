//! What the client says to the hub when an envelope cannot be taken.

use crate::managers::errors::{error_envelope, error_message};
use crate::text::{push_str, string_from_chars};
use crate::ws::messages::message::OutgoingMessage;
use vstd::prelude::*;

verus! {

/// Why an envelope of the hub was not taken.
#[derive(Debug)]
pub enum ReceiveFailure {
    /// What came was no text.
    NotText,
    /// The text is no envelope, for the reason given.
    Parse(String),
    /// The envelope could not be handed to the supervisor, for the reason
    /// given.
    Forward(String),
}

/// The text that reports why an envelope was not taken.
pub open spec fn failure_text(failure: ReceiveFailure) -> Seq<char> {
    match failure {
        ReceiveFailure::NotText => "Can't parse message type"@,
        ReceiveFailure::Parse(e) => "Failed while parsing message: "@ + e@,
        ReceiveFailure::Forward(e) => "Failed passing message to protocol: "@ + e@,
    }
}

/// The envelope that reports an error of the client, which belongs to no
/// job: it goes under the identifier `0`.
pub fn send_error_to_server(code: u32, message: String) -> (envelope: OutgoingMessage)
    ensures
        envelope@ == error_envelope("0"@, code, message@),
        envelope.well_formed(),
{
    error_message("0".to_owned(), code, message)
}

/// The envelope that tells the hub why what it sent was not taken.
pub fn recieve_message_form_server(failure: ReceiveFailure) -> (envelope: OutgoingMessage)
    ensures
        envelope@ == error_envelope("0"@, 0, failure_text(failure)),
        envelope.well_formed(),
{
    let mut text: Vec<char> = Vec::new();
    match failure {
        ReceiveFailure::NotText => {
            push_str(&mut text, "Can't parse message type");
        },
        ReceiveFailure::Parse(e) => {
            push_str(&mut text, "Failed while parsing message: ");
            push_str(&mut text, e.as_str());
        },
        ReceiveFailure::Forward(e) => {
            push_str(&mut text, "Failed passing message to protocol: ");
            push_str(&mut text, e.as_str());
        },
    }
    assert(text@ =~= failure_text(failure));
    send_error_to_server(0, string_from_chars(&text))
}

} // verus!
