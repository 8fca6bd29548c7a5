//! A request of the hub, read from the text of a frame.

use crate::messages::headers::Headers;
use crate::messages::proxy_message::{parse_message, ProxyMessage, ProxyMessageView};
use vstd::prelude::*;

verus! {

/// A request of the hub.
#[derive(Debug)]
pub struct ProxyRequest {
    pub protocol: String,
    pub method: String,
    pub uri: String,
    pub headers: Headers,
    pub body: String,
}

impl View for ProxyRequest {
    type V = ProxyMessageView;

    open spec fn view(&self) -> ProxyMessageView {
        ProxyMessageView {
            protocol: self.protocol@,
            method: self.method@,
            uri: self.uri@,
            headers: self.headers@,
            body: self.body@,
        }
    }
}

impl ProxyRequest {
    /// Reads a request from its text, as a frame is read.
    pub fn from(raw_request: String) -> (request: ProxyRequest)
        ensures
            request@ == parse_message(raw_request@),
            request.headers.wf(),
    {
        let m = ProxyMessage::from(raw_request);
        ProxyRequest {
            protocol: m.protocol,
            method: m.method,
            uri: m.uri,
            headers: m.headers,
            body: m.body,
        }
    }
}

} // verus!
