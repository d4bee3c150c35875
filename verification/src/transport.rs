//! Line framing of the stdio transport: each line read from stdin is one
//! JSON-RPC message. A line's JSON body is the line without its terminator
//! (LF or CRLF); the body is limited to `MAX_LINE_BYTES` bytes, whatever the
//! terminator, and a longer body ends the connection with an Invalid Request
//! error. A body that is not UTF-8, or whose text is not JSON, is answered
//! with a Parse error and the transport goes on; the JSON value of any other
//! non-blank line is handled by the server (`answer_line`).

use vstd::prelude::*;
use vstd::utf8::{decode_utf8, encode_utf8, valid_utf8};
use crate::json::{Json, JsonValue};
use crate::codec::{parse_json, parse_error_message, parsed_json};
use crate::server::{error_json, spec_handle, Reply, ReplyView, Server};

verus! {

/// The largest accepted JSON body of one line, in bytes, excluding the line
/// terminator.
pub const MAX_LINE_BYTES: usize = 1024 * 1024;

/// The body of a line: the line without a trailing LF or CRLF.
pub open spec fn strip_terminator(line: Seq<u8>) -> Seq<u8> {
    if line.len() > 0 && line.last() == 10u8 {
        let rest = line.drop_last();
        if rest.len() > 0 && rest.last() == 13u8 {
            rest.drop_last()
        } else {
            rest
        }
    } else {
        line
    }
}

/// Whether `c` has the Unicode White_Space property.
pub open spec fn is_white_space(c: char) -> bool {
    ||| '\t' <= c <= '\r'
    ||| c == ' '
    ||| c == '\u{85}'
    ||| c == '\u{a0}'
    ||| c == '\u{1680}'
    ||| '\u{2000}' <= c <= '\u{200a}'
    ||| c == '\u{2028}'
    ||| c == '\u{2029}'
    ||| c == '\u{202f}'
    ||| c == '\u{205f}'
    ||| c == '\u{3000}'
}

/// Whether `s` is empty once leading and trailing white space is trimmed,
/// that is, whether every character of `s` is white space.
pub open spec fn is_blank(s: Seq<char>) -> bool {
    forall|i: int| 0 <= i < s.len() ==> is_white_space(#[trigger] s[i])
}

/// The decimal digit character for `d < 10`.
pub open spec fn digit_char(d: nat) -> char {
    if d == 0 { '0' }
    else if d == 1 { '1' }
    else if d == 2 { '2' }
    else if d == 3 { '3' }
    else if d == 4 { '4' }
    else if d == 5 { '5' }
    else if d == 6 { '6' }
    else if d == 7 { '7' }
    else if d == 8 { '8' }
    else { '9' }
}

/// The decimal representation of `n`.
pub open spec fn decimal(n: nat) -> Seq<char>
    decreases n,
{
    if n < 10 {
        seq![digit_char(n)]
    } else {
        decimal(n / 10) + seq![digit_char(n % 10)]
    }
}

/// The Parse error (-32700) response for a line that is not valid JSON.
pub open spec fn parse_error_json(message: Seq<char>) -> Json {
    error_json(Json::Null, -32700, "Parse error: "@ + message)
}

/// The Invalid Request (-32600) response for a body over the limit.
pub open spec fn body_too_long_json(max_bytes: nat) -> Json {
    error_json(
        Json::Null,
        -32600,
        "Invalid Request: JSON body exceeds "@ + decimal(max_bytes)
            + "-byte limit (line terminator excluded)"@,
    )
}

/// What the transport does with one line read from stdin.
pub enum LineStep {
    /// The body is over `MAX_LINE_BYTES`: send this response, then end the
    /// connection without reading further.
    TooLong(JsonValue),
    /// The body is not UTF-8: send this Parse error (-32700) response and go
    /// on with the next line.
    InvalidUtf8(JsonValue),
    /// The body is blank: nothing is sent.
    Blank,
    /// The body is this text: parse it as JSON and handle it.
    Text(String),
}

/// The view of a [`LineStep`].
pub enum LineStepView {
    TooLong(Json),
    InvalidUtf8(Json),
    Blank,
    Text(Seq<char>),
}

impl View for LineStep {
    type V = LineStepView;

    open spec fn view(&self) -> LineStepView {
        match self {
            LineStep::TooLong(r) => LineStepView::TooLong(r@),
            LineStep::InvalidUtf8(r) => LineStepView::InvalidUtf8(r@),
            LineStep::Blank => LineStepView::Blank,
            LineStep::Text(s) => LineStepView::Text(s@),
        }
    }
}

/// What the transport does with the line `line` (as read, terminator
/// included).
pub open spec fn spec_frame_line(line: Seq<u8>) -> LineStepView {
    let body = strip_terminator(line);
    if body.len() > MAX_LINE_BYTES {
        LineStepView::TooLong(body_too_long_json(MAX_LINE_BYTES as nat))
    } else if !valid_utf8(body) {
        LineStepView::InvalidUtf8(parse_error_json("invalid UTF-8"@))
    } else {
        let text = decode_utf8(body);
        if is_blank(text) {
            LineStepView::Blank
        } else {
            LineStepView::Text(text)
        }
    }
}

/// `String::from_utf8`: the text whose UTF-8 encoding is `bytes`, or `None`
/// when `bytes` is not valid UTF-8.
#[verifier::external_body]
fn text_from_utf8(bytes: Vec<u8>) -> (r: Option<String>)
    ensures
        r is Some <==> valid_utf8(bytes@),
        r matches Some(s) ==> encode_utf8(s@) == bytes@,
{
    String::from_utf8(bytes).ok()
}

/// Whether `c` has the Unicode White_Space property.
pub fn white_space(c: char) -> (r: bool)
    ensures
        r == is_white_space(c),
{
    ('\t' <= c && c <= '\r') || c == ' ' || c == '\u{85}' || c == '\u{a0}' || c == '\u{1680}'
        || ('\u{2000}' <= c && c <= '\u{200a}') || c == '\u{2028}' || c == '\u{2029}'
        || c == '\u{202f}' || c == '\u{205f}' || c == '\u{3000}'
}

/// Whether every character of `s` is white space (`s.trim()` is empty).
pub fn blank(s: &str) -> (r: bool)
    ensures
        r == is_blank(s@),
{
    let chars = crate::text::chars_of(s);
    let mut i: usize = 0;
    while i < chars.len()
        invariant
            chars@ == s@,
            0 <= i <= chars.len(),
            forall|j: int| 0 <= j < i ==> is_white_space(#[trigger] s@[j]),
        decreases chars.len() - i,
    {
        if !white_space(chars[i]) {
            return false;
        }
        i = i + 1;
    }
    true
}

fn digit_str(d: usize) -> (r: &'static str)
    requires
        d < 10,
    ensures
        r@ == seq![digit_char(d as nat)],
{
    if d == 0 {
        proof { reveal_strlit("0"); }
        "0"
    } else if d == 1 {
        proof { reveal_strlit("1"); }
        "1"
    } else if d == 2 {
        proof { reveal_strlit("2"); }
        "2"
    } else if d == 3 {
        proof { reveal_strlit("3"); }
        "3"
    } else if d == 4 {
        proof { reveal_strlit("4"); }
        "4"
    } else if d == 5 {
        proof { reveal_strlit("5"); }
        "5"
    } else if d == 6 {
        proof { reveal_strlit("6"); }
        "6"
    } else if d == 7 {
        proof { reveal_strlit("7"); }
        "7"
    } else if d == 8 {
        proof { reveal_strlit("8"); }
        "8"
    } else {
        proof { reveal_strlit("9"); }
        "9"
    }
}

/// Appends the decimal representation of `n` to `out`.
pub fn push_decimal(out: &mut String, n: usize)
    ensures
        final(out)@ == old(out)@ + decimal(n as nat),
    decreases n,
{
    if n < 10 {
        out.append(digit_str(n));
    } else {
        push_decimal(out, n / 10);
        out.append(digit_str(n % 10));
        assert(final(out)@ =~= old(out)@ + decimal(n as nat));
    }
}

/// The Parse error (-32700) response, with `id: null`.
pub fn parse_error(message: &str) -> (r: JsonValue)
    ensures
        r@ == parse_error_json(message@),
{
    let mut text = String::from_str("Parse error: ");
    text.append(message);
    crate::server::error(None, -32700, text.as_str())
}

/// The Invalid Request (-32600) response for a body over `max_bytes`; the
/// message states that the limit excludes the line terminator.
pub fn body_too_long_error(max_bytes: usize) -> (r: JsonValue)
    ensures
        r@ == body_too_long_json(max_bytes as nat),
{
    let mut text = String::from_str("Invalid Request: JSON body exceeds ");
    push_decimal(&mut text, max_bytes);
    text.append("-byte limit (line terminator excluded)");
    crate::server::error(None, -32600, text.as_str())
}

/// Drops a trailing LF, and then a CR before it, from `line`.
pub fn strip_line_terminator(line: &mut Vec<u8>)
    ensures
        final(line)@ == strip_terminator(old(line)@),
{
    if line.len() > 0 && line[line.len() - 1] == 10u8 {
        line.pop();
        if line.len() > 0 && line[line.len() - 1] == 13u8 {
            line.pop();
        }
    }
}

/// Decides what the transport does with one line read from stdin
/// (terminator included).
pub fn frame_line(line: Vec<u8>) -> (r: LineStep)
    ensures
        r@ == spec_frame_line(line@),
{
    let mut body = line;
    strip_line_terminator(&mut body);
    if body.len() > MAX_LINE_BYTES {
        return LineStep::TooLong(body_too_long_error(MAX_LINE_BYTES));
    }
    let ghost bytes = body@;
    match text_from_utf8(body) {
        None => LineStep::InvalidUtf8(parse_error("invalid UTF-8")),
        Some(text) => {
            proof {
                lemma_text_of_bytes(text@, bytes);
            }
            if blank(text.as_str()) {
                LineStep::Blank
            } else {
                LineStep::Text(text)
            }
        },
    }
}

/// How the server answers one line read from stdin.
pub enum LineAnswer {
    /// Send this response, then end the connection without reading further.
    Stop(JsonValue),
    /// Answer as this reply says: nothing, a response, or a tool run.
    Answer(Reply),
}

/// The view of a [`LineAnswer`].
pub enum LineAnswerView {
    Stop(Json),
    Answer(ReplyView),
}

impl View for LineAnswer {
    type V = LineAnswerView;

    open spec fn view(&self) -> LineAnswerView {
        match self {
            LineAnswer::Stop(r) => LineAnswerView::Stop(r@),
            LineAnswer::Answer(reply) => LineAnswerView::Answer(reply@),
        }
    }
}

/// How the server answers the line `line` (terminator included): an
/// over-long body ends the connection with Invalid Request; a body that is
/// not UTF-8, or whose text is not JSON, gets a Parse error; a blank line
/// gets nothing; the JSON value of any other line is handled by the server.
pub open spec fn spec_answer_line(line: Seq<u8>) -> LineAnswerView {
    match spec_frame_line(line) {
        LineStepView::TooLong(r) => LineAnswerView::Stop(r),
        LineStepView::InvalidUtf8(r) => LineAnswerView::Answer(ReplyView::Message(r)),
        LineStepView::Blank => LineAnswerView::Answer(ReplyView::Silent),
        LineStepView::Text(text) => match parsed_json(text) {
            Some(request) => LineAnswerView::Answer(spec_handle(request)),
            None => LineAnswerView::Answer(
                ReplyView::Message(parse_error_json(parse_error_message(text))),
            ),
        },
    }
}

/// Answers one line read from stdin (terminator included): frames it,
/// parses its text as JSON and hands the value to the server.
pub fn answer_line(server: &Server, line: Vec<u8>) -> (r: LineAnswer)
    ensures
        r@ == spec_answer_line(line@),
{
    match frame_line(line) {
        LineStep::TooLong(response) => LineAnswer::Stop(response),
        LineStep::InvalidUtf8(response) => LineAnswer::Answer(Reply::Message(response)),
        LineStep::Blank => LineAnswer::Answer(Reply::Silent),
        LineStep::Text(text) => match parse_json(text.as_str()) {
            Ok(request) => LineAnswer::Answer(server.handle(&request)),
            Err(message) => LineAnswer::Answer(Reply::Message(parse_error(message.as_str()))),
        },
    }
}

/// The body limit does not depend on the line terminator: a body that does
/// not itself end in CR or LF is framed the same way whether it arrives with
/// an LF, with a CRLF, or with no terminator at end of input; in each case it
/// is refused exactly when it is longer than `MAX_LINE_BYTES`.
pub proof fn lemma_limit_ignores_terminator(body: Seq<u8>)
    requires
        body.len() > 0 ==> body.last() != 10u8 && body.last() != 13u8,
    ensures
        strip_terminator(body) == body,
        strip_terminator(body.push(10u8)) == body,
        strip_terminator(body + seq![13u8, 10u8]) == body,
        spec_frame_line(body) == spec_frame_line(body.push(10u8)),
        spec_frame_line(body) == spec_frame_line(body + seq![13u8, 10u8]),
        spec_frame_line(body) is TooLong <==> body.len() > MAX_LINE_BYTES,
{
    assert(body.push(10u8).drop_last() =~= body);
    let crlf = body + seq![13u8, 10u8];
    assert(crlf.drop_last() =~= body.push(13u8));
    assert(crlf.drop_last().drop_last() =~= body);
}

/// What the transport buffers of one line: at most its first
/// `MAX_LINE_BYTES + 2` bytes (room for the largest body and a CRLF).
pub open spec fn bounded_read(line: Seq<u8>) -> Seq<u8> {
    if line.len() <= MAX_LINE_BYTES + 2 {
        line
    } else {
        line.take(MAX_LINE_BYTES + 2)
    }
}

/// Buffering at most `MAX_LINE_BYTES + 2` bytes of a line loses nothing: for
/// a line (LF, if any, only at its end) the bounded read is framed exactly as
/// the whole line, so an over-long body is refused without the rest of it
/// being read.
pub proof fn lemma_bounded_read_frames_like_the_line(line: Seq<u8>)
    requires
        forall|i: int| 0 <= i < line.len() - 1 ==> line[i] != 10u8,
    ensures
        spec_frame_line(bounded_read(line)) == spec_frame_line(line),
        line.len() > MAX_LINE_BYTES + 2 ==> spec_frame_line(bounded_read(line)) is TooLong,
{
    if line.len() > MAX_LINE_BYTES + 2 {
        let read = line.take(MAX_LINE_BYTES + 2);
        assert(read.last() == line[MAX_LINE_BYTES + 1]);
        assert(read.last() != 10u8);
        assert(strip_terminator(read) == read);
        assert(strip_terminator(line).len() >= line.len() - 2);
    }
}

proof fn lemma_text_of_bytes(text: Seq<char>, bytes: Seq<u8>)
    requires
        encode_utf8(text) == bytes,
    ensures
        decode_utf8(bytes) == text,
{
    vstd::utf8::encode_utf8_decode_utf8(text);
}

} // verus!
