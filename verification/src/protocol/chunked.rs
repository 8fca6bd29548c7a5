//! Reading a chunked body back: what the hub gets is a chunked body that
//! holds the body of the backend, byte for byte.

use crate::protocol::network_util::{
    body_progress, chunk, chunks, is_line_feed, joined, last_chunk, lemma_body_is_chunked_by_lines,
    pieces,
};
use crate::text::{digit_char, first_match, hex_upper, lemma_first_match, lemma_first_match_is};
use vstd::prelude::*;
use vstd::utf8::{encode_utf8, is_ascii_chars, is_ascii_chars_encode_utf8};

verus! {

/// The byte of a digit below sixteen, capitals for ten and above.
pub open spec fn digit_byte(d: int) -> u8 {
    if d < 10 {
        (48 + d) as u8
    } else {
        (55 + d) as u8
    }
}

/// The value of the byte of a hexadecimal digit.
pub open spec fn digit_value(b: u8) -> Option<nat> {
    if 48 <= b <= 57 {
        Some((b - 48) as nat)
    } else if 65 <= b <= 70 {
        Some((b - 55) as nat)
    } else {
        None
    }
}

/// The bytes of `n` in hexadecimal with capital letters.
pub open spec fn hex_bytes(n: nat) -> Seq<u8>
    decreases n,
{
    if n < 16 {
        seq![digit_byte(n as int)]
    } else {
        hex_bytes(n / 16).push(digit_byte((n % 16) as int))
    }
}

/// The number that hexadecimal digits spell, if they are digits and at
/// least one.
pub open spec fn hex_number(digits: Seq<u8>) -> Option<nat>
    decreases digits.len(),
{
    if digits.len() == 0 {
        None
    } else if digits.len() == 1 {
        digit_value(digits[0])
    } else {
        match (hex_number(digits.drop_last()), digit_value(digits.last())) {
            (Some(high), Some(low)) => Some(high * 16 + low),
            _ => None,
        }
    }
}

/// The bytes of a number spell it, and hold no carriage return.
pub proof fn lemma_hex_number(n: nat)
    ensures
        hex_bytes(n).len() > 0,
        hex_number(hex_bytes(n)) == Some(n),
        forall|i: int| 0 <= i < hex_bytes(n).len() ==> #[trigger] hex_bytes(n)[i] != 13,
    decreases n,
{
    if n >= 16 {
        lemma_hex_number(n / 16);
        let high = hex_bytes(n / 16);
        let all = hex_bytes(n);
        assert(all.drop_last() =~= high);
        assert(all.last() == digit_byte((n % 16) as int));
        assert forall|i: int| 0 <= i < all.len() implies #[trigger] all[i] != 13 by {
            if i < high.len() {
                assert(all[i] == high[i]);
            }
        }
    }
}

/// The digits of a number are written as their bytes.
pub proof fn lemma_hex_upper_bytes(n: nat)
    ensures
        is_ascii_chars(hex_upper(n)),
        hex_upper(n).len() == hex_bytes(n).len(),
        forall|i: int| 0 <= i < hex_upper(n).len() ==> #[trigger] hex_upper(n)[i] as u8 == hex_bytes(
            n,
        )[i],
    decreases n,
{
    assert forall|d: int| 0 <= d < 16 implies '\0' <= #[trigger] digit_char(d) <= '\u{7f}'
        && digit_char(d) as u8 == digit_byte(d) by {}
    if n >= 16 {
        lemma_hex_upper_bytes(n / 16);
        let high = hex_upper(n / 16);
        let all = hex_upper(n);
        assert forall|i: int| 0 <= i < all.len() implies '\0' <= #[trigger] all[i] <= '\u{7f}'
            && all[i] as u8 == hex_bytes(n)[i] by {
            if i < high.len() {
                assert(all[i] == high[i]);
                assert(hex_bytes(n)[i] == hex_bytes(n / 16)[i]);
            }
        }
    }
}


/// A carriage return and a line feed.
pub open spec fn line_end() -> Seq<u8> {
    seq![13u8, 10u8]
}

/// A chunk, byte for byte: its size in hexadecimal, a line end, its data,
/// a line end.
pub proof fn lemma_chunk_bytes(data: Seq<u8>)
    ensures
        chunk(data) == hex_bytes(data.len()) + line_end() + data + line_end(),
{
    reveal_strlit("\r\n");
    let n = data.len();
    lemma_hex_upper_bytes(n);
    let head = hex_upper(n) + "\r\n"@;
    assert(is_ascii_chars(head)) by {
        assert forall|i: int| 0 <= i < head.len() implies '\0' <= #[trigger] head[i] <= '\u{7f}' by {
            if i < hex_upper(n).len() {
                assert(head[i] == hex_upper(n)[i]);
            } else {
                assert(head[i] == "\r\n"@[i - hex_upper(n).len()]);
            }
        }
    }
    is_ascii_chars_encode_utf8(head);
    assert(encode_utf8(head) =~= hex_bytes(n) + line_end()) by {
        assert forall|i: int| 0 <= i < head.len() implies encode_utf8(head)[i] == (hex_bytes(n)
            + line_end())[i] by {
            assert(encode_utf8(head)[i] == head[i] as u8);
            if i < hex_upper(n).len() {
                assert(head[i] == hex_upper(n)[i]);
            } else {
                assert(head[i] == "\r\n"@[i - hex_upper(n).len()]);
            }
        }
    }
    assert(is_ascii_chars("\r\n"@));
    is_ascii_chars_encode_utf8("\r\n"@);
    assert(encode_utf8("\r\n"@) =~= line_end()) by {
        assert(encode_utf8("\r\n"@)[0] == "\r\n"@[0] as u8);
        assert(encode_utf8("\r\n"@)[1] == "\r\n"@[1] as u8);
    }
}

/// The chunk that ends a body, byte for byte: a zero and two line ends.
pub proof fn lemma_last_chunk_bytes()
    ensures
        last_chunk() == seq![48u8] + line_end() + line_end(),
{
    reveal_strlit("0\r\n\r\n");
    let text = "0\r\n\r\n"@;
    assert(is_ascii_chars(text));
    is_ascii_chars_encode_utf8(text);
    assert(encode_utf8(text) =~= seq![48u8] + line_end() + line_end()) by {
        assert forall|i: int| 0 <= i < 5 implies encode_utf8(text)[i] == (seq![48u8] + line_end()
            + line_end())[i] by {
            assert(encode_utf8(text)[i] == text[i] as u8);
        }
    }
}


/// The predicate "is a carriage return".
pub open spec fn is_carriage_return() -> spec_fn(u8) -> bool {
    |b: u8| b == 13
}

/// The body that a chunked stream holds, if the stream is one: chunks of a
/// size in hexadecimal, a line end, that many bytes and a line end, up to a
/// chunk of size zero with nothing behind it.
pub open spec fn dechunk(stream: Seq<u8>) -> Option<Seq<u8>>
    decreases stream.len(),
{
    let i = first_match(stream, is_carriage_return());
    if !(0 <= i && i + 1 < stream.len() && stream[i + 1] == 10) {
        None
    } else {
        match hex_number(stream.take(i)) {
            None => None,
            Some(n) => {
                let from = i + 2;
                if n == 0 {
                    if stream.skip(from) == line_end() {
                        Some(Seq::empty())
                    } else {
                        None
                    }
                } else if !(from + n + 2 <= stream.len() && stream[from + n] == 13 && stream[from
                    + n + 1] == 10) {
                    None
                } else {
                    match dechunk(stream.skip(from + n + 2)) {
                        Some(rest) => Some(stream.subrange(from, from + n) + rest),
                        None => None,
                    }
                }
            },
        }
    }
}

/// The chunk that ends a body holds the empty body.
pub proof fn lemma_dechunk_last()
    ensures
        dechunk(last_chunk()) == Some(Seq::<u8>::empty()),
{
    lemma_last_chunk_bytes();
    let stream = last_chunk();
    assert(stream[0] == 48 && stream[1] == 13 && stream[2] == 10);
    lemma_first_match_is(stream, is_carriage_return(), 1);
    assert(stream.take(1) =~= seq![48u8]);
    assert(hex_number(seq![48u8]) == Some(0nat));
    assert(stream.skip(3) =~= line_end());
}

/// A chunk with data in it, before anything, holds its data and then what
/// the rest holds.
pub proof fn lemma_dechunk_chunk(data: Seq<u8>, tail: Seq<u8>)
    requires
        data.len() > 0,
    ensures
        dechunk(chunk(data) + tail) == match dechunk(tail) {
            Some(rest) => Some(data + rest),
            None => None,
        },
{
    lemma_chunk_bytes(data);
    let n = data.len();
    lemma_hex_number(n);
    let digits = hex_bytes(n);
    let k = digits.len() as int;
    let stream = chunk(data) + tail;
    assert forall|j: int| 0 <= j < k implies !is_carriage_return()(#[trigger] stream[j]) by {
        assert(stream[j] == digits[j]);
    }
    assert(stream[k] == 13);
    assert(stream[k + 1] == 10);
    lemma_first_match_is(stream, is_carriage_return(), k);
    assert(stream.take(k) =~= digits);
    let from = k + 2;
    assert(stream[from + n] == 13);
    assert(stream[from + n + 1] == 10);
    assert(stream.subrange(from, from + n) =~= data);
    assert(stream.skip(from + n + 2) =~= tail);
}

/// Every element of `parts` holds at least one byte.
pub open spec fn all_nonempty(parts: Seq<Seq<u8>>) -> bool {
    forall|i: int| 0 <= i < parts.len() ==> (#[trigger] parts[i]).len() > 0
}

/// The chunks of pieces that all hold something, and the chunk that ends a
/// body, hold the pieces one after another.
pub proof fn lemma_dechunk_chunks(parts: Seq<Seq<u8>>)
    requires
        all_nonempty(parts),
    ensures
        dechunk(chunks(parts) + last_chunk()) == Some(joined(parts)),
    decreases parts.len(),
{
    if parts.len() == 0 {
        lemma_dechunk_last();
        assert(chunks(parts) + last_chunk() =~= last_chunk());
    } else {
        let first = parts[0];
        let rest = parts.drop_first();
        assert(all_nonempty(rest)) by {
            assert forall|i: int| 0 <= i < rest.len() implies (#[trigger] rest[i]).len() > 0 by {
                assert(rest[i] == parts[i + 1]);
            }
        }
        lemma_dechunk_chunks(rest);
        lemma_chunks_front(parts);
        lemma_joined_front(parts);
        lemma_dechunk_chunk(first, chunks(rest) + last_chunk());
        assert(chunks(parts) + last_chunk() =~= chunk(first) + (chunks(rest) + last_chunk()));
    }
}

/// The chunks of a list of pieces begin with the chunk of the first.
pub proof fn lemma_chunks_front(parts: Seq<Seq<u8>>)
    requires
        parts.len() > 0,
    ensures
        chunks(parts) == chunk(parts[0]) + chunks(parts.drop_first()),
    decreases parts.len(),
{
    if parts.len() == 1 {
        assert(parts.drop_last() =~= Seq::<Seq<u8>>::empty());
        assert(parts.drop_first() =~= Seq::<Seq<u8>>::empty());
        assert(chunks(Seq::<Seq<u8>>::empty()) =~= Seq::<u8>::empty());
        assert(parts.last() == parts[0]);
        assert(chunks(parts) =~= chunk(parts[0]));
        assert(chunk(parts[0]) + chunks(parts.drop_first()) =~= chunk(parts[0]));
    } else {
        lemma_chunks_front(parts.drop_last());
        assert(parts.drop_last().drop_first() =~= parts.drop_first().drop_last());
        assert(parts.drop_first().last() == parts.last());
        assert(parts.drop_last()[0] == parts[0]);
        assert(chunks(parts) =~= chunk(parts[0]) + chunks(parts.drop_first()));
    }
}

/// Pieces joined begin with the first.
pub proof fn lemma_joined_front(parts: Seq<Seq<u8>>)
    requires
        parts.len() > 0,
    ensures
        joined(parts) == parts[0] + joined(parts.drop_first()),
    decreases parts.len(),
{
    if parts.len() == 1 {
        assert(parts.drop_last() =~= Seq::<Seq<u8>>::empty());
        assert(parts.drop_first() =~= Seq::<Seq<u8>>::empty());
        assert(joined(Seq::<Seq<u8>>::empty()) =~= Seq::<u8>::empty());
        assert(parts.last() == parts[0]);
        assert(joined(parts) =~= parts[0]);
        assert(parts[0] + joined(parts.drop_first()) =~= parts[0]);
    } else {
        lemma_joined_front(parts.drop_last());
        assert(parts.drop_last().drop_first() =~= parts.drop_first().drop_last());
        assert(parts.drop_first().last() == parts.last());
        assert(parts.drop_last()[0] == parts[0]);
        assert(joined(parts) =~= parts[0] + joined(parts.drop_first()));
    }
}

/// The pieces of a body all hold something, and joined they are the body.
pub proof fn lemma_pieces(body: Seq<u8>)
    ensures
        all_nonempty(pieces(body)),
        joined(pieces(body)) == body,
    decreases body.len(),
{
    if body.len() == 0 {
    } else {
        lemma_first_match(body, is_line_feed());
        let i = first_match(body, is_line_feed());
        if i < body.len() {
            let head = body.take(i + 1);
            let rest = body.skip(i + 1);
            lemma_pieces(rest);
            let all = pieces(body);
            assert(all =~= seq![head] + pieces(rest));
            assert(all.drop_first() =~= pieces(rest));
            lemma_joined_front(all);
            assert(head + rest =~= body);
            assert forall|k: int| 0 <= k < all.len() implies (#[trigger] all[k]).len() > 0 by {
                if k > 0 {
                    assert(all[k] == pieces(rest)[k - 1]);
                }
            }
        } else {
            let all = pieces(body);
            assert(all =~= seq![body]);
            assert(all.drop_last() =~= Seq::<Seq<u8>>::empty());
            assert(joined(Seq::<Seq<u8>>::empty()) =~= Seq::<u8>::empty());
            assert(all.last() == body);
            assert(joined(all) =~= body);
        }
    }
}

/// What the hub gets for a body is a chunked stream that holds the body,
/// byte for byte.
pub proof fn lemma_body_round_trip(body: Seq<u8>)
    ensures
        dechunk(chunks(pieces(body)) + last_chunk()) == Some(body),
{
    lemma_pieces(body);
    lemma_dechunk_chunks(pieces(body));
}


/// However the body of the backend is cut into blocks when it is read, what
/// is passed on of it, with what is written at its end, is a chunked stream
/// that holds the body, byte for byte.
pub proof fn lemma_relayed_body_round_trip(blocks: Seq<Seq<u8>>)
    ensures
        dechunk(
            body_progress(blocks).0 + (chunks(pieces(body_progress(blocks).1)) + last_chunk()),
        ) == Some(joined(blocks)),
{
    lemma_body_is_chunked_by_lines(blocks);
    lemma_body_round_trip(joined(blocks));
}

} // verus!
