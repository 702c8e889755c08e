//! The framed message codec: one request or response per line of text.

use crate::errors::WorkerError;
use vstd::prelude::*;
use vstd::string::StringExecFns;

verus! {

/// A response read from the worker: the sequence number of the request it
/// answers, and the payload.
#[derive(Debug)]
pub struct ResponseFrame {
    pub sequence: u32,
    pub payload: String,
}

/// The JSON string literal that stands for `text`, quotes included.
pub uninterp spec fn json_string(text: Seq<char>) -> Seq<char>;

/// The member `key` of the JSON object written in `text`, where `text` is one
/// JSON object and that member is a non-negative integer below 2^64.
pub uninterp spec fn json_member_u64(text: Seq<char>, key: Seq<char>) -> Option<u64>;

/// The member `key` of the JSON object written in `text`, where `text` is one
/// JSON object and that member is a string.
pub uninterp spec fn json_member_str(text: Seq<char>, key: Seq<char>) -> Option<Seq<char>>;

/// No line feed occurs in `text`.
pub open spec fn single_line(text: Seq<char>) -> bool {
    forall|i: int| 0 <= i < text.len() ==> text[i] != '\n'
}

/// `String::push` appends one character.
pub assume_specification[ String::push ](s: &mut String, c: char)
    ensures
        final(s)@ == old(s)@.push(c),
;

/// `serde_json::to_string` on a `str`: the JSON string literal for `text`.
/// Writing into memory cannot fail, so the empty string of the error arm is
/// never produced. Every character below U+0020 is written as an escape, so
/// the literal holds no line feed.
#[verifier::external_body]
fn quote(text: &str) -> (r: String)
    ensures
        r@ == json_string(text@),
        single_line(r@),
{
    serde_json::to_string(text).unwrap_or_default()
}

/// `serde_json::from_str` into a `serde_json::Value`, then `Value::get` with
/// `key` and `Value::as_u64`: `Some` exactly when `text` parses as one JSON
/// value that is an object whose member `key` is a number written without
/// sign, fraction or exponent that fits 64 bits. The parse fails, and does
/// not panic, on any other text.
#[verifier::external_body]
fn member_u64(text: &str, key: &str) -> (r: Option<u64>)
    ensures
        r == json_member_u64(text@, key@),
{
    let document: serde_json::Value = serde_json::from_str(text).ok()?;
    document.get(key)?.as_u64()
}

/// `serde_json::from_str` into a `serde_json::Value`, then `Value::get` with
/// `key` and `Value::as_str`: `Some` exactly when `text` parses as one JSON
/// value that is an object whose member `key` is a string; the string is
/// handed out with its escapes resolved.
#[verifier::external_body]
fn member_str(text: &str, key: &str) -> (r: Option<String>)
    ensures
        crate::errors::option_view(r) == json_member_str(text@, key@),
{
    let document: serde_json::Value = serde_json::from_str(text).ok()?;
    Some(document.get(key)?.as_str()?.to_string())
}

/// The decimal digit `d`, for `d` below ten.
pub open spec fn digit_char(d: nat) -> char {
    if d == 0 {
        '0'
    } else if d == 1 {
        '1'
    } else if d == 2 {
        '2'
    } else if d == 3 {
        '3'
    } else if d == 4 {
        '4'
    } else if d == 5 {
        '5'
    } else if d == 6 {
        '6'
    } else if d == 7 {
        '7'
    } else if d == 8 {
        '8'
    } else {
        '9'
    }
}

/// `n` in decimal, without sign or leading zeros.
pub open spec fn decimal(n: nat) -> Seq<char>
    decreases n,
{
    if n < 10 {
        seq![digit_char(n)]
    } else {
        decimal(n / 10).push(digit_char(n % 10))
    }
}

/// The request line for `sequence`, given the JSON string literals of the
/// operation name and of the payload.
pub open spec fn request_line(
    sequence: u32,
    quoted_operation: Seq<char>,
    quoted_payload: Seq<char>,
) -> Seq<char> {
    "{\"seq\":"@ + decimal(sequence as nat) + ",\"op\":"@ + quoted_operation + ",\"data\":"@
        + quoted_payload + "}"@
}

/// The response that the two members of a line stand for: both must be
/// there, and the sequence number must fit 32 bits.
pub open spec fn response_of(sequence: Option<u64>, payload: Option<Seq<char>>) -> Option<
    (u32, Seq<char>),
> {
    match (sequence, payload) {
        (Some(s), Some(p)) => if s <= u32::MAX {
            Some((s as u32, p))
        } else {
            None
        },
        _ => None,
    }
}

/// The response that `line` decodes to, if any.
pub open spec fn decoded(line: Seq<char>) -> Option<(u32, Seq<char>)> {
    response_of(json_member_u64(line, "seq"@), json_member_str(line, "data"@))
}

/// Every decimal numeral is free of line feeds.
pub proof fn lemma_decimal_single_line(n: nat)
    ensures
        single_line(decimal(n)),
        decimal(n).len() >= 1,
    decreases n,
{
    if n >= 10 {
        lemma_decimal_single_line(n / 10);
    }
}

fn digit(d: u32) -> (c: char)
    requires
        d < 10,
    ensures
        c == digit_char(d as nat),
{
    if d == 0 {
        '0'
    } else if d == 1 {
        '1'
    } else if d == 2 {
        '2'
    } else if d == 3 {
        '3'
    } else if d == 4 {
        '4'
    } else if d == 5 {
        '5'
    } else if d == 6 {
        '6'
    } else if d == 7 {
        '7'
    } else if d == 8 {
        '8'
    } else {
        '9'
    }
}

/// Appends `n` in decimal to `out`.
pub fn push_decimal(out: &mut String, n: u32)
    ensures
        final(out)@ == old(out)@ + decimal(n as nat),
    decreases n,
{
    if n >= 10 {
        push_decimal(out, n / 10);
    }
    out.push(digit(n % 10));
    assert(final(out)@ =~= old(out)@ + decimal(n as nat));
}

/// Frames a request from the sequence number and the two JSON string
/// literals. The line holds no line feed where the literals hold none.
pub fn frame_request(sequence: u32, quoted_operation: &str, quoted_payload: &str) -> (line: String)
    ensures
        line@ == request_line(sequence, quoted_operation@, quoted_payload@),
        single_line(quoted_operation@) && single_line(quoted_payload@) ==> single_line(line@),
{
    let mut line = String::from_str("{\"seq\":");
    push_decimal(&mut line, sequence);
    line.append(",\"op\":");
    line.append(quoted_operation);
    line.append(",\"data\":");
    line.append(quoted_payload);
    line.append("}");
    proof {
        reveal_strlit("{\"seq\":");
        reveal_strlit(",\"op\":");
        reveal_strlit(",\"data\":");
        reveal_strlit("}");
        lemma_decimal_single_line(sequence as nat);
    }
    line
}

/// Encodes a request as one line of text, without the terminating line feed.
pub fn encode(sequence: u32, operation: &str, payload: &str) -> (line: String)
    ensures
        line@ == request_line(sequence, json_string(operation@), json_string(payload@)),
        single_line(line@),
{
    let quoted_operation = quote(operation);
    let quoted_payload = quote(payload);
    frame_request(sequence, quoted_operation.as_str(), quoted_payload.as_str())
}

/// The text that reaches the worker when `lines` are written in their order,
/// each followed by one line feed.
pub open spec fn stream_of(lines: Seq<Seq<char>>) -> Seq<char>
    decreases lines.len(),
{
    if lines.len() == 0 {
        Seq::empty()
    } else {
        lines.first().push('\n') + stream_of(lines.drop_first())
    }
}

/// The complete lines of `stream`, where `current` holds the characters of
/// the line that was begun before `stream`.
pub open spec fn split_lines(stream: Seq<char>, current: Seq<char>) -> Seq<Seq<char>>
    decreases stream.len(),
{
    if stream.len() == 0 {
        Seq::empty()
    } else if stream.first() == '\n' {
        seq![current] + split_lines(stream.drop_first(), Seq::empty())
    } else {
        split_lines(stream.drop_first(), current.push(stream.first()))
    }
}

/// The lines that a reader finds in `stream`, cut at each line feed.
pub open spec fn lines_of(stream: Seq<char>) -> Seq<Seq<char>> {
    split_lines(stream, Seq::empty())
}

proof fn lemma_split_after_line(line: Seq<char>, rest: Seq<char>, current: Seq<char>)
    requires
        single_line(line),
    ensures
        split_lines(line.push('\n') + rest, current) == seq![current + line] + split_lines(
            rest,
            Seq::empty(),
        ),
    decreases line.len(),
{
    let stream = line.push('\n') + rest;
    if line.len() == 0 {
        assert(stream.first() == '\n');
        assert(stream.drop_first() =~= rest);
        assert(current + line =~= current);
    } else {
        let tail = line.drop_first();
        assert(stream.first() == line[0]);
        assert forall|i: int| 0 <= i < tail.len() implies tail[i] != '\n' by {
            assert(tail[i] == line[i + 1]);
        }
        assert(stream.drop_first() =~= tail.push('\n') + rest);
        lemma_split_after_line(tail, rest, current.push(line[0]));
        assert(current.push(line[0]) + tail =~= current + line);
    }
}

/// Writing one more line extends the stream by that line and a line feed.
pub proof fn lemma_stream_grows_at_the_end(lines: Seq<Seq<char>>, line: Seq<char>)
    ensures
        stream_of(lines.push(line)) == stream_of(lines) + line.push('\n'),
    decreases lines.len(),
{
    let longer = lines.push(line);
    if lines.len() == 0 {
        assert(longer.drop_first() =~= Seq::<Seq<char>>::empty());
        assert(stream_of(longer.drop_first()) =~= Seq::<char>::empty());
        assert(stream_of(longer) =~= stream_of(lines) + line.push('\n'));
    } else {
        assert(longer.drop_first() =~= lines.drop_first().push(line));
        lemma_stream_grows_at_the_end(lines.drop_first(), line);
        assert(stream_of(longer) =~= stream_of(lines) + line.push('\n'));
    }
}

/// Requests arrive in the order in which they were written, each whole: the
/// lines that a reader cuts out of the stream are exactly the lines that
/// were written, in their order, as long as no line holds a line feed.
pub proof fn lemma_lines_arrive_in_order(lines: Seq<Seq<char>>)
    requires
        forall|i: int| 0 <= i < lines.len() ==> single_line(#[trigger] lines[i]),
    ensures
        lines_of(stream_of(lines)) == lines,
    decreases lines.len(),
{
    if lines.len() > 0 {
        let rest = lines.drop_first();
        assert(single_line(lines[0]));
        assert forall|i: int| 0 <= i < rest.len() implies single_line(#[trigger] rest[i]) by {
            assert(rest[i] == lines[i + 1]);
        }
        lemma_split_after_line(lines.first(), stream_of(rest), Seq::empty());
        lemma_lines_arrive_in_order(rest);
        assert(Seq::<char>::empty() + lines.first() =~= lines.first());
        assert(seq![lines.first()] + rest =~= lines);
    }
}

/// Appends a request line and its terminating line feed to the text that is
/// to be written to the worker.
pub fn append_frame(stream: &mut String, line: &str)
    ensures
        final(stream)@ == old(stream)@ + line@.push('\n'),
{
    stream.append(line);
    stream.push('\n');
    assert(final(stream)@ =~= old(stream)@ + line@.push('\n'));
}

/// Builds the response from the two members read off a line.
pub fn response_from_members(sequence: Option<u64>, payload: Option<String>) -> (r: Result<
    ResponseFrame,
    WorkerError,
>)
    ensures
        match r {
            Ok(frame) => response_of(sequence, crate::errors::option_view(payload)) == Some(
                (frame.sequence, frame.payload@),
            ),
            Err(e) => e == WorkerError::MalformedFrame && response_of(
                sequence,
                crate::errors::option_view(payload),
            ) is None,
        },
{
    match (sequence, payload) {
        (Some(s), Some(p)) => {
            if s <= 0xffff_ffffu64 {
                Ok(ResponseFrame { sequence: s as u32, payload: p })
            } else {
                Err(WorkerError::MalformedFrame)
            }
        },
        _ => Err(WorkerError::MalformedFrame),
    }
}

/// Decodes one line of the worker's output. A line that is not a JSON object
/// with an integer `seq` that fits 32 bits and a string `data` is a
/// `MalformedFrame`.
pub fn decode(line: &str) -> (r: Result<ResponseFrame, WorkerError>)
    ensures
        match r {
            Ok(frame) => decoded(line@) == Some((frame.sequence, frame.payload@)),
            Err(e) => e == WorkerError::MalformedFrame && decoded(line@) is None,
        },
{
    let sequence = member_u64(line, "seq");
    let payload = member_str(line, "data");
    response_from_members(sequence, payload)
}

} // verus!
