//! Text helpers over sequences of characters: white space, searching,
//! trimming, splitting, joining and number formatting.

use vstd::prelude::*;

verus! {

/// `String::push` appends one character at the end of the string.
pub assume_specification[ String::push ](s: &mut String, c: char)
    ensures
        final(s)@ == old(s)@.push(c),
;

/// `==` on string slices holds exactly when both hold the same characters.
pub assume_specification[ <str as PartialEq>::eq ](a: &str, b: &str) -> (same: bool)
    ensures
        same == (a@ == b@),
;

/// Tests whether two string slices hold the same characters.
pub fn same_text(a: &str, b: &str) -> (same: bool)
    ensures
        same == (a@ == b@),
{
    a.eq(b)
}

/// The texts of a list of strings.
pub open spec fn texts(v: Seq<String>) -> Seq<Seq<char>> {
    Seq::new(v.len(), |i: int| v[i]@)
}

/// The characters of a string, in order.
pub fn chars_of(s: &str) -> (out: Vec<char>)
    ensures
        out@ == s@,
{
    let mut out: Vec<char> = Vec::new();
    for c in it: s.chars()
        invariant
            out@ == it.seq().take(it.index() as int),
    {
        out.push(c);
    }
    out
}

/// The string made of `chars[from..to]`.
pub fn string_of(chars: &Vec<char>, from: usize, to: usize) -> (out: String)
    requires
        from <= to <= chars.len(),
    ensures
        out@ == chars@.subrange(from as int, to as int),
{
    let mut out = String::new();
    let mut i: usize = from;
    while i < to
        invariant
            from <= i <= to <= chars.len(),
            out@ == chars@.subrange(from as int, i as int),
        decreases to - i,
    {
        out.push(chars[i]);
        assert(chars@.subrange(from as int, i + 1) =~= chars@.subrange(from as int, i as int).push(
            chars@[i as int],
        ));
        i += 1;
    }
    out
}

/// The string made of all of `chars`.
pub fn string_from_chars(chars: &Vec<char>) -> (out: String)
    ensures
        out@ == chars@,
{
    let out = string_of(chars, 0, chars.len());
    assert(chars@.subrange(0, chars.len() as int) =~= chars@);
    out
}

/// Whether `c` has the Unicode property `White_Space`.
pub open spec fn is_space(c: char) -> bool {
    let u = c as u32;
    ||| 0x09 <= u <= 0x0D
    ||| u == 0x20
    ||| u == 0x85
    ||| u == 0xA0
    ||| u == 0x1680
    ||| 0x2000 <= u <= 0x200A
    ||| u == 0x2028
    ||| u == 0x2029
    ||| u == 0x202F
    ||| u == 0x205F
    ||| u == 0x3000
}

/// Tests a character for white space.
pub fn is_whitespace(c: char) -> (b: bool)
    ensures
        b == is_space(c),
{
    let u: u32 = c as u32;
    (0x09 <= u && u <= 0x0D) || u == 0x20 || u == 0x85 || u == 0xA0 || u == 0x1680 || (0x2000 <= u
        && u <= 0x200A) || u == 0x2028 || u == 0x2029 || u == 0x202F || u == 0x205F || u == 0x3000
}

/// Index of the first element of `s` that satisfies `p`, or `s.len()` when
/// none does.
pub open spec fn first_match<A>(s: Seq<A>, p: spec_fn(A) -> bool) -> int
    decreases s.len(),
{
    if s.len() == 0 || p(s[0]) {
        0
    } else {
        1 + first_match(s.drop_first(), p)
    }
}

/// `first_match` is in range, nothing before it matches, and the element at
/// it matches when there is one.
pub proof fn lemma_first_match<A>(s: Seq<A>, p: spec_fn(A) -> bool)
    ensures
        0 <= first_match(s, p) <= s.len(),
        forall|i: int| 0 <= i < first_match(s, p) ==> !p(#[trigger] s[i]),
        first_match(s, p) < s.len() ==> p(s[first_match(s, p)]),
    decreases s.len(),
{
    if s.len() == 0 || p(s[0]) {
    } else {
        let t = s.drop_first();
        lemma_first_match(t, p);
        assert forall|i: int| 0 <= i < first_match(s, p) implies !p(#[trigger] s[i]) by {
            if i > 0 {
                assert(s[i] == t[i - 1]);
            }
        }
    }
}

/// An index with a match and none before it is the first match.
pub proof fn lemma_first_match_is<A>(s: Seq<A>, p: spec_fn(A) -> bool, k: int)
    requires
        0 <= k <= s.len(),
        forall|i: int| 0 <= i < k ==> !p(#[trigger] s[i]),
        k < s.len() ==> p(s[k]),
    ensures
        first_match(s, p) == k,
{
    lemma_first_match(s, p);
    let f = first_match(s, p);
    if f < k {
        assert(!p(s[f]));
    } else if k < f {
        assert(!p(s[k]));
    }
}

/// The predicate "is the character `c`".
pub open spec fn is_char(c: char) -> spec_fn(char) -> bool {
    |x: char| x == c
}

/// The predicate "is white space".
pub open spec fn is_space_fn() -> spec_fn(char) -> bool {
    |x: char| is_space(x)
}

/// The predicate "is not white space".
pub open spec fn is_not_space_fn() -> spec_fn(char) -> bool {
    |x: char| !is_space(x)
}

/// Index of the first `c` in `chars[from..to]`, counted from the start of
/// `chars`; `to` when there is none.
pub fn find_char(chars: &Vec<char>, from: usize, to: usize, c: char) -> (at: usize)
    requires
        from <= to <= chars.len(),
    ensures
        from <= at <= to,
        at == from + first_match(chars@.subrange(from as int, to as int), is_char(c)),
{
    let mut i: usize = from;
    while i < to && chars[i] != c
        invariant
            from <= i <= to <= chars.len(),
            forall|j: int| from <= j < i ==> chars@[j] != c,
        decreases to - i,
    {
        i += 1;
    }
    proof {
        let sub = chars@.subrange(from as int, to as int);
        assert forall|j: int| 0 <= j < i - from implies !is_char(c)(#[trigger] sub[j]) by {
            assert(sub[j] == chars@[from + j]);
        }
        lemma_first_match_is(sub, is_char(c), i - from);
    }
    i
}

/// Index of the first white-space character in `chars[from..to]`, counted
/// from the start of `chars`; `to` when there is none.
pub fn find_space(chars: &Vec<char>, from: usize, to: usize) -> (at: usize)
    requires
        from <= to <= chars.len(),
    ensures
        from <= at <= to,
        at == from + first_match(chars@.subrange(from as int, to as int), is_space_fn()),
{
    let mut i: usize = from;
    while i < to && !is_whitespace(chars[i])
        invariant
            from <= i <= to <= chars.len(),
            forall|j: int| from <= j < i ==> !is_space(chars@[j]),
        decreases to - i,
    {
        i += 1;
    }
    proof {
        let sub = chars@.subrange(from as int, to as int);
        assert forall|j: int| 0 <= j < i - from implies !is_space_fn()(#[trigger] sub[j]) by {
            assert(sub[j] == chars@[from + j]);
        }
        lemma_first_match_is(sub, is_space_fn(), i - from);
    }
    i
}

/// Index of the first character in `chars[from..to]` that is not white
/// space, counted from the start of `chars`; `to` when there is none.
pub fn skip_spaces(chars: &Vec<char>, from: usize, to: usize) -> (at: usize)
    requires
        from <= to <= chars.len(),
    ensures
        from <= at <= to,
        at == from + first_match(chars@.subrange(from as int, to as int), is_not_space_fn()),
{
    let mut i: usize = from;
    while i < to && is_whitespace(chars[i])
        invariant
            from <= i <= to <= chars.len(),
            forall|j: int| from <= j < i ==> is_space(chars@[j]),
        decreases to - i,
    {
        i += 1;
    }
    proof {
        let sub = chars@.subrange(from as int, to as int);
        assert forall|j: int| 0 <= j < i - from implies !is_not_space_fn()(#[trigger] sub[j]) by {
            assert(sub[j] == chars@[from + j]);
        }
        lemma_first_match_is(sub, is_not_space_fn(), i - from);
    }
    i
}

/// `s` without its leading white space.
pub open spec fn trim_start(s: Seq<char>) -> Seq<char> {
    s.skip(first_match(s, is_not_space_fn()))
}

/// Number of characters of `s` that remain once trailing white space is
/// dropped.
pub open spec fn trimmed_len(s: Seq<char>) -> int
    decreases s.len(),
{
    if s.len() == 0 || !is_space(s.last()) {
        s.len() as int
    } else {
        trimmed_len(s.drop_last())
    }
}

/// `s` without its trailing white space.
pub open spec fn trim_end(s: Seq<char>) -> Seq<char> {
    s.take(trimmed_len(s))
}

/// `s` without leading and trailing white space.
pub open spec fn trim(s: Seq<char>) -> Seq<char> {
    trim_end(trim_start(s))
}

/// `trimmed_len` is in range, everything from it on is white space, and the
/// character before it is not.
pub proof fn lemma_trimmed_len(s: Seq<char>)
    ensures
        0 <= trimmed_len(s) <= s.len(),
        forall|i: int| trimmed_len(s) <= i < s.len() ==> is_space(#[trigger] s[i]),
        trimmed_len(s) > 0 ==> !is_space(s[trimmed_len(s) - 1]),
    decreases s.len(),
{
    if s.len() == 0 || !is_space(s.last()) {
    } else {
        let t = s.drop_last();
        lemma_trimmed_len(t);
        assert forall|i: int| trimmed_len(s) <= i < s.len() implies is_space(#[trigger] s[i]) by {
            if i < s.len() - 1 {
                assert(s[i] == t[i]);
            }
        }
        if trimmed_len(s) > 0 {
            assert(t[trimmed_len(s) - 1] == s[trimmed_len(s) - 1]);
        }
    }
}

/// A length after which all is white space and before which stands a
/// character that is not, is the trimmed length.
pub proof fn lemma_trimmed_len_is(s: Seq<char>, k: int)
    requires
        0 <= k <= s.len(),
        forall|i: int| k <= i < s.len() ==> is_space(#[trigger] s[i]),
        k > 0 ==> !is_space(s[k - 1]),
    ensures
        trimmed_len(s) == k,
{
    lemma_trimmed_len(s);
    let t = trimmed_len(s);
    if t < k {
        assert(is_space(s[k - 1]));
    } else if k < t {
        assert(is_space(s[t - 1]));
    }
}

/// The bounds of `chars[from..to]` once white space is trimmed at both ends.
pub fn trim_span(chars: &Vec<char>, from: usize, to: usize) -> (span: (usize, usize))
    requires
        from <= to <= chars.len(),
    ensures
        from <= span.0 <= span.1 <= to,
        chars@.subrange(span.0 as int, span.1 as int) == trim(
            chars@.subrange(from as int, to as int),
        ),
{
    let start = skip_spaces(chars, from, to);
    let mut end: usize = to;
    while end > start && is_whitespace(chars[end - 1])
        invariant
            start <= end <= to <= chars.len(),
            forall|j: int| end <= j < to ==> is_space(chars@[j]),
        decreases end,
    {
        end -= 1;
    }
    proof {
        let sub = chars@.subrange(from as int, to as int);
        let lead = trim_start(sub);
        lemma_first_match(sub, is_not_space_fn());
        assert(lead =~= chars@.subrange(start as int, to as int));
        assert forall|i: int| end - start <= i < lead.len() implies is_space(#[trigger] lead[i]) by {
            assert(lead[i] == chars@[start + i]);
        }
        if end > start {
            assert(lead[end - start - 1] == chars@[end - 1]);
        } else if start < to {
            assert(sub[start - from] == chars@[start as int]);
        }
        lemma_trimmed_len_is(lead, end - start);
        assert(lead.take(end - start) =~= chars@.subrange(start as int, end as int));
    }
    (start, end)
}


/// A line without the carriage return that ends it, if one does.
pub open spec fn strip_cr(line: Seq<char>) -> Seq<char> {
    if line.len() > 0 && line.last() == '\r' {
        line.drop_last()
    } else {
        line
    }
}

/// The lines of `s`: split after every line feed, each line without its line
/// feed and without a carriage return before it. A final line ending opens no
/// further line.
pub open spec fn lines(s: Seq<char>) -> Seq<Seq<char>>
    decreases s.len(),
{
    let i = first_match(s, is_char('\n'));
    if s.len() == 0 {
        Seq::empty()
    } else if 0 <= i < s.len() {
        seq![strip_cr(s.take(i))] + lines(s.skip(i + 1))
    } else {
        seq![s]
    }
}

/// The pieces of `s` between occurrences of `c`; an empty `s` has one empty
/// piece.
pub open spec fn split_on(s: Seq<char>, c: char) -> Seq<Seq<char>>
    decreases s.len(),
{
    let i = first_match(s, is_char(c));
    if 0 <= i < s.len() {
        seq![s.take(i)] + split_on(s.skip(i + 1), c)
    } else {
        seq![s]
    }
}

/// The maximal runs of characters of `s` that are not white space.
pub open spec fn words(s: Seq<char>) -> Seq<Seq<char>>
    decreases s.len(),
{
    let start = first_match(s, is_not_space_fn());
    let rest = s.skip(start);
    let n = first_match(rest, is_space_fn());
    if 0 <= start < s.len() && 0 < n <= rest.len() {
        seq![rest.take(n)] + words(rest.skip(n))
    } else {
        Seq::empty()
    }
}

/// The texts that a list of spans cuts out of `s`.
pub open spec fn span_texts(s: Seq<char>, spans: Seq<(usize, usize)>) -> Seq<Seq<char>> {
    Seq::new(spans.len(), |k: int| s.subrange(spans[k].0 as int, spans[k].1 as int))
}

/// Every span lies inside a text of length `len`.
pub open spec fn spans_within(spans: Seq<(usize, usize)>, len: int) -> bool {
    forall|k: int| 0 <= k < spans.len() ==> (#[trigger] spans[k]).0 <= spans[k].1 <= len
}

/// The spans of the lines of `chars`.
pub fn line_spans(chars: &Vec<char>) -> (spans: Vec<(usize, usize)>)
    ensures
        spans_within(spans@, chars.len() as int),
        span_texts(chars@, spans@) == lines(chars@),
{
    let mut spans: Vec<(usize, usize)> = Vec::new();
    let mut pos: usize = 0;
    let len = chars.len();
    assert(chars@.skip(0) =~= chars@);
    assert(span_texts(chars@, spans@) =~= Seq::<Seq<char>>::empty());
    while pos < len
        invariant
            pos <= len == chars.len(),
            spans_within(spans@, len as int),
            lines(chars@) == span_texts(chars@, spans@) + lines(chars@.skip(pos as int)),
        decreases len - pos,
    {
        let nl = find_char(chars, pos, len, '\n');
        let ghost rest = chars@.skip(pos as int);
        let ghost before = span_texts(chars@, spans@);
        assert(rest =~= chars@.subrange(pos as int, len as int));
        if nl < len {
            let end: usize = if nl > pos && chars[nl - 1] == '\r' {
                nl - 1
            } else {
                nl
            };
            spans.push((pos, end));
            proof {
                let i = nl - pos;
                assert(rest.take(i) =~= chars@.subrange(pos as int, nl as int));
                assert(strip_cr(rest.take(i)) =~= chars@.subrange(pos as int, end as int));
                assert(rest.skip(i + 1) =~= chars@.skip(nl + 1));
                assert(span_texts(chars@, spans@) =~= before + seq![
                    chars@.subrange(pos as int, end as int),
                ]);
            }
            pos = nl + 1;
        } else {
            spans.push((pos, len));
            proof {
                assert(chars@.skip(len as int) =~= Seq::<char>::empty());
                assert(span_texts(chars@, spans@) =~= before + seq![rest]);
            }
            pos = len;
        }
    }
    proof {
        assert(chars@.skip(len as int) =~= Seq::<char>::empty());
    }
    spans
}

/// The spans of the pieces of `chars[from..to]` between occurrences of `c`.
pub fn split_spans(chars: &Vec<char>, from: usize, to: usize, c: char) -> (spans: Vec<
    (usize, usize),
>)
    requires
        from <= to <= chars.len(),
    ensures
        spans_within(spans@, chars.len() as int),
        span_texts(chars@, spans@) == split_on(chars@.subrange(from as int, to as int), c),
{
    let mut spans: Vec<(usize, usize)> = Vec::new();
    let mut pos: usize = from;
    let mut open: bool = true;
    assert(span_texts(chars@, spans@) =~= Seq::<Seq<char>>::empty());
    while open
        invariant
            from <= pos <= to <= chars.len(),
            spans_within(spans@, chars.len() as int),
            open ==> split_on(chars@.subrange(from as int, to as int), c) == span_texts(
                chars@,
                spans@,
            ) + split_on(chars@.subrange(pos as int, to as int), c),
            !open ==> split_on(chars@.subrange(from as int, to as int), c) == span_texts(
                chars@,
                spans@,
            ),
        decreases to - pos + (if open { 1int } else { 0int }),
    {
        let at = find_char(chars, pos, to, c);
        let ghost rest = chars@.subrange(pos as int, to as int);
        let ghost before = span_texts(chars@, spans@);
        spans.push((pos, at));
        proof {
            assert(rest.take(at - pos) =~= chars@.subrange(pos as int, at as int));
            assert(span_texts(chars@, spans@) =~= before + seq![
                chars@.subrange(pos as int, at as int),
            ]);
        }
        if at < to {
            proof {
                assert(rest.skip(at - pos + 1) =~= chars@.subrange(at + 1, to as int));
            }
            pos = at + 1;
        } else {
            open = false;
        }
    }
    spans
}

/// The spans of the words of `chars[from..to]`.
pub fn word_spans(chars: &Vec<char>, from: usize, to: usize) -> (spans: Vec<(usize, usize)>)
    requires
        from <= to <= chars.len(),
    ensures
        spans_within(spans@, chars.len() as int),
        span_texts(chars@, spans@) == words(chars@.subrange(from as int, to as int)),
{
    let mut spans: Vec<(usize, usize)> = Vec::new();
    let mut pos: usize = from;
    let mut open: bool = true;
    assert(span_texts(chars@, spans@) =~= Seq::<Seq<char>>::empty());
    while open
        invariant
            from <= pos <= to <= chars.len(),
            spans_within(spans@, chars.len() as int),
            open ==> words(chars@.subrange(from as int, to as int)) == span_texts(chars@, spans@)
                + words(chars@.subrange(pos as int, to as int)),
            !open ==> words(chars@.subrange(from as int, to as int)) == span_texts(
                chars@,
                spans@,
            ),
        decreases to - pos + (if open { 1int } else { 0int }),
    {
        let start = skip_spaces(chars, pos, to);
        let ghost s = chars@.subrange(pos as int, to as int);
        let ghost before = span_texts(chars@, spans@);
        if start < to {
            let end = find_space(chars, start, to);
            proof {
                let rest = s.skip(start - pos);
                assert(rest =~= chars@.subrange(start as int, to as int));
                lemma_first_match(s, is_not_space_fn());
                lemma_first_match(rest, is_space_fn());
                assert(rest[0] == s[start - pos]);
                assert(!is_space_fn()(rest[0]));
                assert(rest.take(end - start) =~= chars@.subrange(start as int, end as int));
                assert(rest.skip(end - start) =~= chars@.subrange(end as int, to as int));
            }
            spans.push((start, end));
            proof {
                assert(span_texts(chars@, spans@) =~= before + seq![
                    chars@.subrange(start as int, end as int),
                ]);
            }
            pos = end;
        } else {
            proof {
                assert(words(s) =~= Seq::<Seq<char>>::empty());
            }
            open = false;
        }
    }
    spans
}


/// Index of the first place in `s` where `a` stands directly before `b`, or
/// `s.len()` when there is none.
pub open spec fn first_pair(s: Seq<char>, a: char, b: char) -> int
    decreases s.len(),
{
    if s.len() < 2 {
        s.len() as int
    } else if s[0] == a && s[1] == b {
        0
    } else {
        1 + first_pair(s.drop_first(), a, b)
    }
}

/// `first_pair` is in range and, when it is not the length, the pair stands
/// there.
pub proof fn lemma_first_pair(s: Seq<char>, a: char, b: char)
    ensures
        0 <= first_pair(s, a, b) <= s.len(),
        first_pair(s, a, b) < s.len() ==> first_pair(s, a, b) + 1 < s.len() && s[first_pair(
            s,
            a,
            b,
        )] == a && s[first_pair(s, a, b) + 1] == b,
        forall|i: int|
            0 <= i < first_pair(s, a, b) && i + 1 < s.len() ==> !(s[i] == a && #[trigger] s[i + 1]
                == b),
    decreases s.len(),
{
    if s.len() < 2 {
    } else if s[0] == a && s[1] == b {
    } else {
        let t = s.drop_first();
        lemma_first_pair(t, a, b);
        let f = first_pair(s, a, b);
        assert forall|i: int| 0 <= i < f && i + 1 < s.len() implies !(s[i] == a && #[trigger] s[i
            + 1] == b) by {
            if i > 0 {
                assert(s[i] == t[i - 1]);
                assert(s[i + 1] == t[(i - 1) + 1]);
            }
        }
    }
}

/// Index of the first place in `chars[from..to]` where `a` stands directly
/// before `b`, counted from the start of `chars`; `to` when there is none.
pub fn find_pair(chars: &Vec<char>, from: usize, to: usize, a: char, b: char) -> (at: usize)
    requires
        from <= to <= chars.len(),
    ensures
        from <= at <= to,
        at < to ==> at + 1 < to,
        at == from + first_pair(chars@.subrange(from as int, to as int), a, b),
{
    let mut i: usize = from;
    let ghost whole = chars@.subrange(from as int, to as int);
    assert(chars@.subrange(from as int, to as int).skip(0) =~= whole);
    while i < to
        invariant
            from <= i <= to <= chars.len(),
            whole == chars@.subrange(from as int, to as int),
            first_pair(whole, a, b) == (i - from) + first_pair(whole.skip(i - from), a, b),
        decreases to - i,
    {
        let ghost rest = whole.skip(i - from);
        if to - i < 2 {
            proof {
                assert(rest.len() == to - i);
            }
            return to;
        }
        proof {
            assert(rest[0] == chars@[i as int]);
            assert(rest[1] == chars@[i + 1]);
            assert(rest.drop_first() =~= whole.skip(i + 1 - from));
        }
        if chars[i] == a && chars[i + 1] == b {
            return i;
        }
        i += 1;
    }
    proof {
        assert(whole.skip(to - from).len() == 0);
    }
    to
}

/// The parts joined, with `sep` between neighbours.
pub open spec fn join(parts: Seq<Seq<char>>, sep: Seq<char>) -> Seq<char>
    decreases parts.len(),
{
    if parts.len() == 0 {
        Seq::empty()
    } else if parts.len() == 1 {
        parts[0]
    } else {
        join(parts.drop_last(), sep) + sep + parts.last()
    }
}

/// Joining one more part puts the separator before it, unless it is the
/// first.
pub proof fn lemma_join_push(parts: Seq<Seq<char>>, last: Seq<char>, sep: Seq<char>)
    ensures
        join(parts.push(last), sep) == if parts.len() == 0 {
            last
        } else {
            join(parts, sep) + sep + last
        },
{
    assert(parts.push(last).drop_last() =~= parts);
}

/// Appends `chars[from..to]` to `out`.
pub fn push_span(out: &mut Vec<char>, chars: &Vec<char>, from: usize, to: usize)
    requires
        from <= to <= chars.len(),
    ensures
        final(out)@ == old(out)@ + chars@.subrange(from as int, to as int),
{
    let mut i: usize = from;
    assert(chars@.subrange(from as int, from as int) =~= Seq::<char>::empty());
    assert(out@ =~= old(out)@ + Seq::<char>::empty());
    while i < to
        invariant
            from <= i <= to <= chars.len(),
            out@ == old(out)@ + chars@.subrange(from as int, i as int),
        decreases to - i,
    {
        out.push(chars[i]);
        assert(out@ =~= old(out)@ + chars@.subrange(from as int, i + 1));
        i += 1;
    }
}

/// Appends all of `chars` to `out`.
pub fn push_chars(out: &mut Vec<char>, chars: &Vec<char>)
    ensures
        final(out)@ == old(out)@ + chars@,
{
    assert(chars@.subrange(0, chars.len() as int) =~= chars@);
    push_span(out, chars, 0, chars.len());
}

/// Appends the characters of `s` to `out`.
pub fn push_str(out: &mut Vec<char>, s: &str)
    ensures
        final(out)@ == old(out)@ + s@,
{
    let chars = chars_of(s);
    push_chars(out, &chars);
}

/// Whether `s` ends with `suffix`.
pub open spec fn ends_with(s: Seq<char>, suffix: Seq<char>) -> bool {
    suffix.len() <= s.len() && s.skip(s.len() - suffix.len()) == suffix
}

/// Tests whether `chars` ends with `suffix`.
pub fn has_suffix(chars: &Vec<char>, suffix: &Vec<char>) -> (b: bool)
    ensures
        b == ends_with(chars@, suffix@),
{
    let n = chars.len();
    let m = suffix.len();
    if m > n {
        return false;
    }
    let base: usize = n - m;
    let mut i: usize = 0;
    while i < m
        invariant
            m <= n == chars.len(),
            m == suffix.len(),
            base == n - m,
            i <= m,
            forall|j: int| 0 <= j < i ==> chars@[base + j] == suffix@[j],
        decreases m - i,
    {
        if chars[base + i] != suffix[i] {
            proof {
                assert(chars@.skip(base as int)[i as int] == chars@[base + i]);
            }
            return false;
        }
        i += 1;
    }
    assert(chars@.skip(base as int) =~= suffix@);
    true
}

/// The lower-case form of an ASCII capital; any other character unchanged.
pub open spec fn ascii_lower(c: char) -> char {
    if 'A' <= c <= 'Z' {
        ((c as u8) + 32) as char
    } else {
        c
    }
}

/// `s` with every ASCII capital in lower case.
pub open spec fn lower(s: Seq<char>) -> Seq<char> {
    Seq::new(s.len(), |i: int| ascii_lower(s[i]))
}

/// Puts an ASCII capital in lower case.
pub fn to_ascii_lower(c: char) -> (l: char)
    ensures
        l == ascii_lower(c),
{
    if 'A' <= c && c <= 'Z' {
        let b: u8 = c as u8;
        (b + 32) as char
    } else {
        c
    }
}

/// Tests whether `chars`, with its ASCII capitals in lower case, reads
/// `name`.
pub fn lower_equals(chars: &Vec<char>, name: &str) -> (b: bool)
    ensures
        b == (lower(chars@) == name@),
{
    let other = chars_of(name);
    if other.len() != chars.len() {
        return false;
    }
    let mut i: usize = 0;
    while i < chars.len()
        invariant
            i <= chars.len() == other.len(),
            other@ == name@,
            forall|j: int| 0 <= j < i ==> ascii_lower(chars@[j]) == other@[j],
        decreases chars.len() - i,
    {
        if to_ascii_lower(chars[i]) != other[i] {
            proof {
                assert(lower(chars@)[i as int] == ascii_lower(chars@[i as int]));
            }
            return false;
        }
        i += 1;
    }
    assert(lower(chars@) =~= name@);
    true
}

/// `s` with every element equal to `from` replaced by `to`.
pub open spec fn replace_char(s: Seq<char>, from: char, to: char) -> Seq<char> {
    Seq::new(
        s.len(),
        |i: int|
            if s[i] == from {
                to
            } else {
                s[i]
            },
    )
}

/// The character of a digit below sixteen, capitals for ten and above.
pub open spec fn digit_char(d: int) -> char {
    if d == 0 {
        '0'
    } else if d == 1 {
        '1'
    } else if d == 2 {
        '2'
    } else if d == 3 {
        '3'
    } else if d == 4 {
        '4'
    } else if d == 5 {
        '5'
    } else if d == 6 {
        '6'
    } else if d == 7 {
        '7'
    } else if d == 8 {
        '8'
    } else if d == 9 {
        '9'
    } else if d == 10 {
        'A'
    } else if d == 11 {
        'B'
    } else if d == 12 {
        'C'
    } else if d == 13 {
        'D'
    } else if d == 14 {
        'E'
    } else {
        'F'
    }
}

/// `n` in decimal, most significant digit first, without leading zeros; a
/// single `0` for zero.
pub open spec fn decimal(n: nat) -> Seq<char>
    decreases n,
{
    if n < 10 {
        seq![digit_char(n as int)]
    } else {
        decimal(n / 10).push(digit_char((n % 10) as int))
    }
}

/// `n` in hexadecimal with capital letters, most significant digit first,
/// without leading zeros; a single `0` for zero.
pub open spec fn hex_upper(n: nat) -> Seq<char>
    decreases n,
{
    if n < 16 {
        seq![digit_char(n as int)]
    } else {
        hex_upper(n / 16).push(digit_char((n % 16) as int))
    }
}

/// The character of a digit below sixteen.
pub fn digit_of(d: u8) -> (c: char)
    requires
        d < 16,
    ensures
        c == digit_char(d as int),
{
    if d == 0 {
        '0'
    } else if d == 1 {
        '1'
    } else if d == 2 {
        '2'
    } else if d == 3 {
        '3'
    } else if d == 4 {
        '4'
    } else if d == 5 {
        '5'
    } else if d == 6 {
        '6'
    } else if d == 7 {
        '7'
    } else if d == 8 {
        '8'
    } else if d == 9 {
        '9'
    } else if d == 10 {
        'A'
    } else if d == 11 {
        'B'
    } else if d == 12 {
        'C'
    } else if d == 13 {
        'D'
    } else if d == 14 {
        'E'
    } else {
        'F'
    }
}

/// Appends `n` in decimal to `out`.
pub fn push_decimal(out: &mut Vec<char>, n: u64)
    ensures
        final(out)@ == old(out)@ + decimal(n as nat),
    decreases n,
{
    if n < 10 {
        out.push(digit_of(n as u8));
        assert(out@ =~= old(out)@ + decimal(n as nat));
    } else {
        push_decimal(out, n / 10);
        out.push(digit_of((n % 10) as u8));
        assert(out@ =~= old(out)@ + decimal(n as nat));
    }
}

/// Appends `n` in hexadecimal, with capital letters, to `out`.
pub fn push_hex_upper(out: &mut Vec<char>, n: u64)
    ensures
        final(out)@ == old(out)@ + hex_upper(n as nat),
    decreases n,
{
    if n < 16 {
        out.push(digit_of(n as u8));
        assert(out@ =~= old(out)@ + hex_upper(n as nat));
    } else {
        push_hex_upper(out, n / 16);
        out.push(digit_of((n % 16) as u8));
        assert(out@ =~= old(out)@ + hex_upper(n as nat));
    }
}


/// Appends the UTF-8 bytes of `s` to `out`.
pub fn push_utf8(out: &mut Vec<u8>, s: &str)
    ensures
        final(out)@ == old(out)@ + vstd::utf8::encode_utf8(s@),
{
    let bytes = s.as_bytes();
    let mut i: usize = 0;
    assert(out@ =~= old(out)@ + bytes@.take(0));
    while i < bytes.len()
        invariant
            i <= bytes.len(),
            bytes@ == vstd::utf8::encode_utf8(s@),
            out@ == old(out)@ + bytes@.take(i as int),
        decreases bytes.len() - i,
    {
        out.push(bytes[i]);
        assert(out@ =~= old(out)@ + bytes@.take(i + 1));
        i += 1;
    }
    assert(bytes@.take(bytes.len() as int) =~= bytes@);
}

/// Appends all of `bytes` to `out`.
pub fn push_bytes(out: &mut Vec<u8>, bytes: &Vec<u8>)
    ensures
        final(out)@ == old(out)@ + bytes@,
{
    let mut i: usize = 0;
    assert(out@ =~= old(out)@ + bytes@.take(0));
    while i < bytes.len()
        invariant
            i <= bytes.len(),
            out@ == old(out)@ + bytes@.take(i as int),
        decreases bytes.len() - i,
    {
        out.push(bytes[i]);
        assert(out@ =~= old(out)@ + bytes@.take(i + 1));
        i += 1;
    }
    assert(bytes@.take(bytes.len() as int) =~= bytes@);
}

/// The UTF-8 bytes of a list of characters.
pub fn utf8_of(chars: &Vec<char>) -> (bytes: Vec<u8>)
    ensures
        bytes@ == vstd::utf8::encode_utf8(chars@),
{
    let s = string_from_chars(chars);
    let mut out: Vec<u8> = Vec::new();
    push_utf8(&mut out, s.as_str());
    assert(out@ =~= vstd::utf8::encode_utf8(chars@));
    out
}

/// The text that `String::from_utf8_lossy` reads from bytes.
pub uninterp spec fn utf8_lossy(bytes: Seq<u8>) -> Seq<char>;

/// `String::from_utf8_lossy`, made an owned string: the text of the bytes,
/// which is their decoding where they are valid UTF-8. What it puts in the
/// place of invalid bytes is not stated here.
#[verifier::external_body]
pub(crate) fn decode_lossy(bytes: &Vec<u8>) -> (s: String)
    ensures
        s@ == utf8_lossy(bytes@),
        vstd::utf8::valid_utf8(bytes@) ==> s@ == vstd::utf8::decode_utf8(bytes@),
{
    String::from_utf8_lossy(bytes).into_owned()
}

/// `String::from_utf8`: the decoding of the bytes where they are valid
/// UTF-8, and nothing otherwise.
#[verifier::external_body]
pub(crate) fn decode_strict(bytes: Vec<u8>) -> (s: Option<String>)
    ensures
        s is Some <==> vstd::utf8::valid_utf8(bytes@),
        s is Some ==> s->0@ == vstd::utf8::decode_utf8(bytes@),
{
    String::from_utf8(bytes).ok()
}

/// `input` with every carriage return and line feed replaced by a space.
pub open spec fn without_newlines(s: Seq<char>) -> Seq<char> {
    replace_char(replace_char(s, '\r', ' '), '\n', ' ')
}

/// Replaces carriage returns and line feeds by spaces.
pub fn remove_newlines(input: &str) -> (out: String)
    ensures
        out@ == without_newlines(input@),
{
    let chars = chars_of(input);
    let mut cleaned: Vec<char> = Vec::new();
    let mut i: usize = 0;
    while i < chars.len()
        invariant
            i <= chars.len(),
            chars@ == input@,
            cleaned@ == without_newlines(input@).take(i as int),
        decreases chars.len() - i,
    {
        let c = chars[i];
        if c == '\r' || c == '\n' {
            cleaned.push(' ');
        } else {
            cleaned.push(c);
        }
        assert(cleaned@ =~= without_newlines(input@).take(i + 1));
        i += 1;
    }
    assert(without_newlines(input@).take(chars.len() as int) =~= without_newlines(input@));
    string_from_chars(&cleaned)
}

} // verus!
