//! A frame of the relay protocol: a request line, header fields and a body.

use crate::messages::headers::Headers;
use crate::text::{
    chars_of, find_pair, first_match, first_pair, join, lemma_first_match_is, lemma_first_pair,
    lemma_join_push, line_spans, lines, push_span, same_text, span_texts, string_from_chars,
    string_of, trim, trim_span, word_spans, words,
};
use vstd::prelude::*;

verus! {

/// A frame: what the hub asks of this node or of its backend.
#[derive(Debug)]
pub struct ProxyMessage {
    pub protocol: String,
    pub method: String,
    pub uri: String,
    pub headers: Headers,
    pub body: String,
}

/// A frame as a mathematical value.
pub struct ProxyMessageView {
    pub protocol: Seq<char>,
    pub method: Seq<char>,
    pub uri: Seq<char>,
    pub headers: Map<Seq<char>, Seq<char>>,
    pub body: Seq<char>,
}

impl View for ProxyMessage {
    type V = ProxyMessageView;

    open spec fn view(&self) -> ProxyMessageView {
        ProxyMessageView {
            protocol: self.protocol@,
            method: self.method@,
            uri: self.uri@,
            headers: self.headers@,
            body: self.body@,
        }
    }
}

/// The text of the member `key` of the JSON object that `text` holds, as
/// `serde_json` reads it: `None` where `text` is no JSON document, holds no
/// object, or the object has no member `key` that is a string.
pub uninterp spec fn json_string_member(text: Seq<char>, key: Seq<char>) -> Option<Seq<char>>;

/// Parses `text` with `serde_json::from_str` as a `serde_json::Value`, looks
/// the member `key` up with `Value::get` and takes it as text with
/// `Value::as_str`. The result is a function of the two texts alone.
#[verifier::external_body]
fn json_string_member_of(text: &str, key: &str) -> (member: Option<String>)
    ensures
        (match member {
            Some(m) => Some(m@),
            None => None,
        }) == json_string_member(text@, key@),
{
    let parsed: serde_json::Value = serde_json::from_str(text).ok()?;
    parsed.get(key)?.as_str().map(String::from)
}

/// The model that a body names, given what its JSON member `model` holds:
/// none where the body is blank.
pub open spec fn model_of(body: Seq<char>) -> Option<Seq<char>> {
    if trim(body).len() == 0 {
        None
    } else {
        json_string_member(trim(body), "model"@)
    }
}

/// The word at place `i`, or the empty text when there are fewer words.
pub open spec fn word_at(ws: Seq<Seq<char>>, i: int) -> Seq<char> {
    if 0 <= i < ws.len() {
        ws[i]
    } else {
        Seq::empty()
    }
}

/// The name of a header line: what stands before the first colon and space,
/// or the whole line.
pub open spec fn header_name(line: Seq<char>) -> Seq<char> {
    line.take(first_pair(line, ':', ' '))
}

/// The value of a header line: what stands behind the first colon and space,
/// or nothing.
pub open spec fn header_value(line: Seq<char>) -> Seq<char> {
    if first_pair(line, ':', ' ') < line.len() {
        line.skip(first_pair(line, ':', ' ') + 2)
    } else {
        Seq::empty()
    }
}

/// The fields of a list of header lines, a later line replacing an earlier
/// one of the same name.
pub open spec fn header_fields(ls: Seq<Seq<char>>) -> Map<Seq<char>, Seq<char>>
    decreases ls.len(),
{
    if ls.len() == 0 {
        Map::empty()
    } else {
        header_fields(ls.drop_last()).insert(header_name(ls.last()), header_value(ls.last()))
    }
}

/// The predicate "is an empty line".
pub open spec fn is_blank() -> spec_fn(Seq<char>) -> bool {
    |l: Seq<char>| l.len() == 0
}

/// Number of header lines: the lines after the first one, up to the first
/// empty line.
pub open spec fn header_count(ls: Seq<Seq<char>>) -> int {
    if ls.len() == 0 {
        0
    } else {
        first_match(ls.skip(1), is_blank())
    }
}

/// The header lines.
pub open spec fn header_lines(ls: Seq<Seq<char>>) -> Seq<Seq<char>> {
    if ls.len() == 0 {
        Seq::empty()
    } else {
        ls.subrange(1, 1 + header_count(ls))
    }
}

/// The lines of the body: those behind the empty line that ends the header.
pub open spec fn body_lines(ls: Seq<Seq<char>>) -> Seq<Seq<char>> {
    if header_count(ls) + 2 <= ls.len() {
        ls.skip(header_count(ls) + 2)
    } else {
        Seq::empty()
    }
}

/// The frame that a text stands for.
///
/// The first line holds the method, the address and the protocol, separated
/// by white space; what is missing is empty. The lines behind it, up to the
/// first empty one, are header fields. The remaining lines, joined by line
/// feeds, are the body.
pub open spec fn parse_message(raw: Seq<char>) -> ProxyMessageView {
    let ls = lines(raw);
    let request = words(word_at(ls, 0));
    ProxyMessageView {
        method: word_at(request, 0),
        uri: word_at(request, 1),
        protocol: word_at(request, 2),
        headers: header_fields(header_lines(ls)),
        body: join(body_lines(ls), seq!['\n']),
    }
}

/// The word at place `i` of `spans`, or the empty string.
fn word(chars: &Vec<char>, spans: &Vec<(usize, usize)>, i: usize) -> (w: String)
    requires
        crate::text::spans_within(spans@, chars.len() as int),
    ensures
        w@ == word_at(span_texts(chars@, spans@), i as int),
{
    if i < spans.len() {
        let (a, b) = spans[i];
        string_of(chars, a, b)
    } else {
        String::new()
    }
}

impl ProxyMessage {
    /// Reads a frame from its text.
    pub fn from(raw_request: String) -> (message: ProxyMessage)
        ensures
            message@ == parse_message(raw_request@),
            message.headers.wf(),
    {
        let chars = chars_of(raw_request.as_str());
        let spans = line_spans(&chars);
        let ghost ls = lines(chars@);
        let (method, uri, protocol) = if spans.len() > 0 {
            let (a, b) = spans[0];
            let ws = word_spans(&chars, a, b);
            assert(word_at(ls, 0) == chars@.subrange(a as int, b as int));
            (word(&chars, &ws, 0), word(&chars, &ws, 1), word(&chars, &ws, 2))
        } else {
            let none: Vec<(usize, usize)> = Vec::new();
            proof {
                assert(word_at(ls, 0) =~= Seq::<char>::empty());
                assert(words(Seq::<char>::empty()) =~= Seq::<Seq<char>>::empty());
                assert(span_texts(chars@, none@) =~= Seq::<Seq<char>>::empty());
            }
            (word(&chars, &none, 0), word(&chars, &none, 1), word(&chars, &none, 2))
        };
        let mut headers = Headers::new();
        let mut i: usize = 1;
        proof {
            if ls.len() > 0 {
                assert(ls.subrange(1, 1) =~= Seq::<Seq<char>>::empty());
            }
        }
        while i < spans.len() && spans[i].0 != spans[i].1
            invariant
                1 <= i,
                i <= spans.len() || spans.len() == 0,
                crate::text::spans_within(spans@, chars.len() as int),
                span_texts(chars@, spans@) == ls,
                headers.wf(),
                spans.len() > 0 ==> headers@ == header_fields(ls.subrange(1, i as int)),
                spans.len() == 0 ==> headers@ == Map::<Seq<char>, Seq<char>>::empty(),
                forall|j: int| 1 <= j < i && j < ls.len() ==> (#[trigger] ls[j]).len() > 0,
            decreases spans.len() - i,
        {
            let (a, b) = spans[i];
            let at = find_pair(&chars, a, b, ':', ' ');
            let ghost line = chars@.subrange(a as int, b as int);
            assert(ls[i as int] == line);
            let name = string_of(&chars, a, at);
            let value = if at < b {
                string_of(&chars, at + 2, b)
            } else {
                String::new()
            };
            proof {
                lemma_first_pair(line, ':', ' ');
                assert(line.take(at - a) =~= chars@.subrange(a as int, at as int));
                if at < b {
                    assert(line.skip(at - a + 2) =~= chars@.subrange(at + 2, b as int));
                }
                assert(ls.subrange(1, i + 1).drop_last() =~= ls.subrange(1, i as int));
                assert(ls.subrange(1, i + 1).last() == line);
            }
            headers.insert(name, value);
            i += 1;
        }
        proof {
            if spans.len() > 0 {
                let rest = ls.skip(1);
                assert forall|j: int| 0 <= j < i - 1 implies !is_blank()(#[trigger] rest[j]) by {
                    assert(rest[j] == ls[j + 1]);
                }
                if i < spans.len() {
                    assert(rest[i - 1] == ls[i as int]);
                    assert(ls[i as int].len() == spans[i as int].1 - spans[i as int].0);
                }
                lemma_first_match_is(rest, is_blank(), i - 1);
            }
            assert(header_count(ls) == (if spans.len() > 0 {
                i - 1
            } else {
                0
            }));
        }
        let mut body: Vec<char> = Vec::new();
        if spans.len() > 0 && i < spans.len() {
            let first: usize = i + 1;
            let mut j: usize = first;
            proof {
                assert(ls.subrange(first as int, first as int) =~= Seq::<Seq<char>>::empty());
            }
            while j < spans.len()
                invariant
                    first <= j <= spans.len(),
                    crate::text::spans_within(spans@, chars.len() as int),
                    span_texts(chars@, spans@) == ls,
                    body@ == join(ls.subrange(first as int, j as int), seq!['\n']),
                decreases spans.len() - j,
            {
                let (a, b) = spans[j];
                let ghost before = ls.subrange(first as int, j as int);
                proof {
                    lemma_join_push(before, ls[j as int], seq!['\n']);
                    assert(before.push(ls[j as int]) =~= ls.subrange(first as int, j + 1));
                }
                if j > first {
                    body.push('\n');
                    assert(body@ =~= join(before, seq!['\n']) + seq!['\n']);
                }
                push_span(&mut body, &chars, a, b);
                j += 1;
            }
            proof {
                assert(ls.subrange(first as int, ls.len() as int) =~= ls.skip(first as int));
            }
        }
        ProxyMessage { protocol, method, uri, headers, body: string_from_chars(&body) }
    }

    /// The frame of a `GET` request for `uri`, without header fields and
    /// with a body of one line feed.
    pub fn new_http_get(uri: &str) -> (message: ProxyMessage)
        ensures
            message@ == (ProxyMessageView {
                protocol: "HTTP/1.1"@,
                method: "GET"@,
                uri: uri@,
                headers: Map::empty(),
                body: "\n"@,
            }),
            message.headers.wf(),
    {
        ProxyMessage {
            protocol: "HTTP/1.1".to_owned(),
            method: "GET".to_owned(),
            uri: uri.to_owned(),
            headers: Headers::new(),
            body: "\n".to_owned(),
        }
    }

    /// The model that the body of this frame names: the text of the member
    /// `model` of the JSON object in the body, white space around the body
    /// aside.
    pub fn extract_model(&self) -> (model: Option<String>)
        ensures
            (match model {
                Some(m) => Some(m@),
                None => None,
            }) == model_of(self@.body),
    {
        let chars = chars_of(self.body.as_str());
        let (from, to) = trim_span(&chars, 0, chars.len());
        assert(chars@.subrange(0, chars.len() as int) =~= chars@);
        if from == to {
            return None;
        }
        let trimmed = string_of(&chars, from, to);
        json_string_member_of(trimmed.as_str(), "model")
    }

    /// Whether relaying this frame changes the backend's model catalog: it
    /// pulls or deletes a model.
    pub fn modifies_poll(&self) -> (changes: bool)
        ensures
            changes == (self@.protocol == "HTTP/1.1"@ && ((self@.method == "POST"@ && self@.uri
                == "/api/pull"@) || (self@.method == "DELETE"@ && self@.uri == "/api/delete"@))),
    {
        if !same_text(self.protocol.as_str(), "HTTP/1.1") {
            return false;
        }
        (same_text(self.method.as_str(), "POST") && same_text(self.uri.as_str(), "/api/pull")) || (
        same_text(self.method.as_str(), "DELETE") && same_text(self.uri.as_str(), "/api/delete"))
    }
}

} // verus!
