//! Writing a frame as text, and reading it back.

use crate::messages::headers::{header_map, Header};
use crate::messages::proxy_message::{
    body_lines, header_count, header_fields, header_lines, header_name, header_value, is_blank,
    parse_message, word_at, ProxyMessage,
};
use crate::text::{
    first_match, first_pair, is_char, is_not_space_fn, is_space, is_space_fn, join,
    lemma_first_match, lemma_first_match_is, lemma_first_pair, lines, push_str, string_from_chars,
    strip_cr, words,
};
use vstd::prelude::*;

verus! {

/// A carriage return and a line feed.
pub open spec fn crlf() -> Seq<char> {
    seq!['\r', '\n']
}

/// The line of a header field: its name, a colon and a space, its value.
pub open spec fn header_line(field: Header) -> Seq<char> {
    field.name@ + seq![':', ' '] + field.value@
}

/// The lines of a list of header fields, each with its line end.
pub open spec fn header_text(fields: Seq<Header>) -> Seq<char>
    decreases fields.len(),
{
    if fields.len() == 0 {
        Seq::empty()
    } else {
        header_text(fields.drop_last()) + header_line(fields.last()) + crlf()
    }
}

/// The request line of a frame: method, address and protocol with a space
/// between them.
pub open spec fn request_line(m: ProxyMessage) -> Seq<char> {
    m.method@ + seq![' '] + m.uri@ + seq![' '] + m.protocol@
}

/// A frame as text: the request line, one line for each header field in the
/// order of the fields, an empty line, and the body.
pub open spec fn rendered(m: ProxyMessage) -> Seq<char> {
    request_line(m) + crlf() + header_text(m.headers.fields()) + crlf() + m.body@
}

impl ProxyMessage {
    /// Writes the frame as text.
    pub fn to_text(&self) -> (text: String)
        ensures
            text@ == rendered(*self),
    {
        let mut out: Vec<char> = Vec::new();
        push_str(&mut out, self.method.as_str());
        out.push(' ');
        push_str(&mut out, self.uri.as_str());
        out.push(' ');
        push_str(&mut out, self.protocol.as_str());
        out.push('\r');
        out.push('\n');
        assert(out@ =~= request_line(*self) + crlf());
        let fields = self.headers.entries();
        let mut i: usize = 0;
        let ghost head = out@;
        assert(fields@.take(0) =~= Seq::<Header>::empty());
        assert(out@ =~= head + header_text(fields@.take(0)));
        while i < fields.len()
            invariant
                i <= fields.len(),
                out@ == head + header_text(fields@.take(i as int)),
            decreases fields.len() - i,
        {
            proof {
                assert(fields@.take(i + 1).drop_last() =~= fields@.take(i as int));
                assert(fields@.take(i + 1).last() == fields@[i as int]);
            }
            push_str(&mut out, fields[i].name.as_str());
            out.push(':');
            out.push(' ');
            push_str(&mut out, fields[i].value.as_str());
            out.push('\r');
            out.push('\n');
            assert(out@ =~= head + header_text(fields@.take(i + 1)));
            i += 1;
        }
        assert(fields@.take(fields.len() as int) =~= fields@);
        out.push('\r');
        out.push('\n');
        push_str(&mut out, self.body.as_str());
        assert(out@ =~= rendered(*self));
        string_from_chars(&out)
    }
}


/// Where nothing of `first` matches, the first match of `first + second` is
/// that of `second`, behind `first`.
pub proof fn lemma_first_match_behind<A>(first: Seq<A>, second: Seq<A>, p: spec_fn(A) -> bool)
    requires
        forall|i: int| 0 <= i < first.len() ==> !p(#[trigger] first[i]),
    ensures
        first_match(first + second, p) == first.len() + first_match(second, p),
{
    let whole = first + second;
    lemma_first_match(second, p);
    let k = first.len() + first_match(second, p);
    assert forall|i: int| 0 <= i < k implies !p(#[trigger] whole[i]) by {
        if i < first.len() {
            assert(whole[i] == first[i]);
        } else {
            assert(whole[i] == second[i - first.len()]);
        }
    }
    if k < whole.len() {
        assert(whole[k] == second[k - first.len()]);
    }
    lemma_first_match_is(whole, p, k);
}

/// A text without a line feed, then a line end, then more: the text is the
/// first line, and the lines of the rest follow.
pub proof fn lemma_lines_first(line: Seq<char>, rest: Seq<char>)
    requires
        forall|i: int| 0 <= i < line.len() ==> #[trigger] line[i] != '\n',
    ensures
        lines(line + crlf() + rest) == seq![line] + lines(rest),
{
    let whole = line + crlf() + rest;
    let front = line + seq!['\r'];
    assert(whole =~= front + (seq!['\n'] + rest));
    assert forall|i: int| 0 <= i < front.len() implies !is_char('\n')(#[trigger] front[i]) by {
        if i < line.len() {
            assert(front[i] == line[i]);
        }
    }
    lemma_first_match_behind(front, seq!['\n'] + rest, is_char('\n'));
    assert((seq!['\n'] + rest)[0] == '\n');
    assert(first_match(seq!['\n'] + rest, is_char('\n')) == 0);
    let i = (line.len() + 1) as int;
    assert(first_match(whole, is_char('\n')) == i);
    assert(whole.take(i) =~= front);
    assert(strip_cr(front) =~= line);
    assert(whole.skip(i + 1) =~= rest);
}

/// A word before white space or the end is the first word.
pub proof fn lemma_words_first(word: Seq<char>, rest: Seq<char>)
    requires
        word.len() > 0,
        forall|i: int| 0 <= i < word.len() ==> !is_space(#[trigger] word[i]),
        rest.len() == 0 || is_space(rest[0]),
    ensures
        words(word + rest) == seq![word] + words(rest),
{
    let s = word + rest;
    assert(s[0] == word[0]);
    lemma_first_match_is(s, is_not_space_fn(), 0);
    assert(s.skip(0) =~= s);
    assert forall|i: int| 0 <= i < word.len() implies !is_space_fn()(#[trigger] word[i]) by {}
    lemma_first_match_behind(word, rest, is_space_fn());
    if rest.len() > 0 {
        lemma_first_match_is(rest, is_space_fn(), 0);
    }
    let n = word.len() as int;
    assert(first_match(s, is_space_fn()) == n);
    assert(s.take(n) =~= word);
    assert(s.skip(n) =~= rest);
}

/// White space before a text adds no word.
pub proof fn lemma_words_behind_space(rest: Seq<char>)
    ensures
        words(seq![' '] + rest) == words(rest),
{
    let s = seq![' '] + rest;
    assert(is_space(' '));
    assert forall|i: int| 0 <= i < 1 implies !is_not_space_fn()(#[trigger] seq![' '][i]) by {}
    lemma_first_match_behind(seq![' '], rest, is_not_space_fn());
    lemma_first_match(rest, is_not_space_fn());
    let start = first_match(rest, is_not_space_fn());
    assert(s.skip(1 + start) =~= rest.skip(start));
}

/// Nothing has no words.
pub proof fn lemma_words_of_nothing()
    ensures
        words(Seq::<char>::empty()) == Seq::<Seq<char>>::empty(),
{
}


/// The lines of a list of header fields.
pub open spec fn header_lines_of(fields: Seq<Header>) -> Seq<Seq<char>> {
    Seq::new(fields.len(), |i: int| header_line(fields[i]))
}

/// A text that holds no line feed.
pub open spec fn one_line(text: Seq<char>) -> bool {
    forall|i: int| 0 <= i < text.len() ==> #[trigger] text[i] != '\n'
}

/// A text that holds no white space.
pub open spec fn unbroken(text: Seq<char>) -> bool {
    forall|i: int| 0 <= i < text.len() ==> !is_space(#[trigger] text[i])
}

/// A header field that its line gives back: neither name nor value holds a
/// line feed, and the name holds no colon before a space.
pub open spec fn field_writable(field: Header) -> bool {
    &&& one_line(field.name@)
    &&& one_line(field.value@)
    &&& forall|i: int|
        0 <= i && i + 1 < field.name@.len() ==> !(field.name@[i] == ':' && #[trigger] field.name@[i
            + 1] == ' ')
}

impl ProxyMessage {
    /// The frames that their text gives back: method, address and protocol
    /// hold no white space, and none of them stands behind an empty one; the
    /// header fields have distinct names and each is given back by its
    /// line; and the body is made of lines joined by line feeds, without a
    /// carriage return before a line feed and without a line feed at its
    /// end.
    pub open spec fn writable(&self) -> bool {
        &&& unbroken(self.method@)
        &&& unbroken(self.uri@)
        &&& unbroken(self.protocol@)
        &&& (self.uri@.len() > 0 ==> self.method@.len() > 0)
        &&& (self.protocol@.len() > 0 ==> self.uri@.len() > 0)
        &&& self.headers.wf()
        &&& forall|i: int|
            0 <= i < self.headers.fields().len() ==> field_writable(
                #[trigger] self.headers.fields()[i],
            )
        &&& join(lines(self.body@), seq!['\n']) == self.body@
    }
}

/// The line of a writable header field gives its name and its value back.
pub proof fn lemma_header_line(field: Header)
    requires
        field_writable(field),
    ensures
        header_name(header_line(field)) == field.name@,
        header_value(header_line(field)) == field.value@,
        header_line(field).len() > 0,
        one_line(header_line(field)),
{
    let name = field.name@;
    let line = header_line(field);
    let k = name.len() as int;
    assert(line[k] == ':' && line[k + 1] == ' ');
    lemma_first_pair(line, ':', ' ');
    let f = first_pair(line, ':', ' ');
    if f < k {
        assert(line[f] == name[f]);
        if f + 1 < k {
            assert(line[f + 1] == name[f + 1]);
        }
    } else if f > k {
        assert(!(line[k] == ':' && line[k + 1] == ' '));
    }
    assert(line.take(k) =~= name);
    assert(line.skip(k + 2) =~= field.value@);
    assert forall|i: int| 0 <= i < line.len() implies #[trigger] line[i] != '\n' by {
        if i < k {
            assert(line[i] == name[i]);
        } else if i >= k + 2 {
            assert(line[i] == field.value@[i - k - 2]);
        }
    }
}

/// The text of writable header fields, then more: the lines of the fields,
/// and the lines of the rest behind them.
pub proof fn lemma_header_text_lines(fields: Seq<Header>, rest: Seq<char>)
    requires
        forall|i: int| 0 <= i < fields.len() ==> field_writable(#[trigger] fields[i]),
    ensures
        lines(header_text(fields) + rest) == header_lines_of(fields) + lines(rest),
    decreases fields.len(),
{
    if fields.len() == 0 {
        assert(header_text(fields) + rest =~= rest);
        assert(header_lines_of(fields) + lines(rest) =~= lines(rest));
    } else {
        let front = fields.drop_last();
        let last = fields.last();
        let more = header_line(last) + crlf() + rest;
        assert forall|i: int| 0 <= i < front.len() implies field_writable(#[trigger] front[i]) by {
            assert(front[i] == fields[i]);
        }
        lemma_header_text_lines(front, more);
        lemma_header_line(last);
        lemma_lines_first(header_line(last), rest);
        assert(header_text(fields) + rest =~= header_text(front) + more);
        assert(header_lines_of(fields) =~= header_lines_of(front) + seq![header_line(last)]);
        assert(header_lines_of(front) + (seq![header_line(last)] + lines(rest)) =~= header_lines_of(
            fields,
        ) + lines(rest));
    }
}

/// The lines of writable header fields stand for the map of the fields.
pub proof fn lemma_header_fields(fields: Seq<Header>)
    requires
        forall|i: int| 0 <= i < fields.len() ==> field_writable(#[trigger] fields[i]),
    ensures
        header_fields(header_lines_of(fields)) == header_map(fields),
    decreases fields.len(),
{
    if fields.len() > 0 {
        let front = fields.drop_last();
        assert forall|i: int| 0 <= i < front.len() implies field_writable(#[trigger] front[i]) by {
            assert(front[i] == fields[i]);
        }
        lemma_header_fields(front);
        lemma_header_line(fields.last());
        assert(header_lines_of(fields).drop_last() =~= header_lines_of(front));
        assert(header_lines_of(fields).last() == header_line(fields.last()));
    }
}

/// The request line of a writable frame gives method, address and protocol
/// back.
pub proof fn lemma_request_line(m: ProxyMessage)
    requires
        m.writable(),
    ensures
        word_at(words(request_line(m)), 0) == m.method@,
        word_at(words(request_line(m)), 1) == m.uri@,
        word_at(words(request_line(m)), 2) == m.protocol@,
        one_line(request_line(m)),
{
    let method = m.method@;
    let uri = m.uri@;
    let protocol = m.protocol@;
    let space = seq![' '];
    let line = request_line(m);
    let nothing = Seq::<char>::empty();
    assert(is_space(' '));
    assert(is_space('\n'));
    assert forall|i: int| 0 <= i < line.len() implies #[trigger] line[i] != '\n' by {
        if i < method.len() {
            assert(line[i] == method[i]);
        } else if i == method.len() {
        } else if i < method.len() + 1 + uri.len() {
            assert(line[i] == uri[i - method.len() - 1]);
        } else if i == method.len() + 1 + uri.len() {
        } else {
            assert(line[i] == protocol[i - method.len() - uri.len() - 2]);
        }
    }
    lemma_words_of_nothing();
    // the words of what stands behind the address
    let tail = space + protocol;
    lemma_words_behind_space(protocol);
    if protocol.len() > 0 {
        lemma_words_first(protocol, nothing);
        assert(protocol + nothing =~= protocol);
        assert(words(tail) =~= seq![protocol]);
    } else {
        assert(protocol =~= nothing);
        assert(words(tail) =~= Seq::<Seq<char>>::empty());
    }
    // the words of what stands behind the method
    let middle = space + (uri + tail);
    lemma_words_behind_space(uri + tail);
    assert(tail[0] == ' ');
    if uri.len() > 0 {
        lemma_words_first(uri, tail);
        assert(words(middle) =~= seq![uri] + words(tail));
    } else {
        assert(uri + tail =~= tail);
        assert(words(middle) =~= words(tail));
    }
    assert(line =~= method + middle);
    assert(middle[0] == ' ');
    if method.len() > 0 {
        lemma_words_first(method, middle);
        assert(words(line) =~= seq![method] + words(middle));
    } else {
        assert(method + middle =~= middle);
        assert(uri =~= nothing);
        assert(protocol =~= nothing);
    }
}

/// A writable frame, written as text and read back, is the frame: its
/// method, address and protocol, its header fields and its body.
pub proof fn lemma_parse_rendered(m: ProxyMessage)
    requires
        m.writable(),
    ensures
        parse_message(rendered(m)) == m@,
{
    let fields = m.headers.fields();
    let body = m.body@;
    let nothing = Seq::<char>::empty();
    let heads = header_lines_of(fields);
    let behind = crlf() + body;
    let raw = rendered(m);
    lemma_request_line(m);
    assert(raw =~= request_line(m) + crlf() + (header_text(fields) + behind));
    lemma_lines_first(request_line(m), header_text(fields) + behind);
    lemma_header_text_lines(fields, behind);
    assert(behind =~= nothing + crlf() + body);
    lemma_lines_first(nothing, body);
    let ls = lines(raw);
    assert(ls =~= seq![request_line(m)] + heads + seq![nothing] + lines(body));
    assert(word_at(ls, 0) == request_line(m));
    let after = ls.skip(1);
    let n = heads.len() as int;
    assert forall|i: int| 0 <= i < n implies !is_blank()(#[trigger] after[i]) by {
        assert(after[i] == heads[i]);
        lemma_header_line(fields[i]);
    }
    assert(after[n] == nothing);
    lemma_first_match_is(after, is_blank(), n);
    assert(header_count(ls) == n);
    assert(header_lines(ls) =~= heads);
    lemma_header_fields(fields);
    assert(body_lines(ls) =~= lines(body));
    let parsed = parse_message(raw);
    assert(parsed.method == m@.method);
    assert(parsed.uri == m@.uri);
    assert(parsed.protocol == m@.protocol);
    assert(parsed.headers == m@.headers);
    assert(parsed.body == m@.body);
}

} // verus!
