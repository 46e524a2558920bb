//! The SSE event protocol of streaming chat. Each frame has an event name and
//! a JSON data text:
//! - `delta`   a streamed text chunk, `{"text":"<chunk>"}`
//! - `message` one whole assistant message, `{"role":"assistant","text":"<full>"}`
//! - `error`   a failure, `{"error":"<reason>"}`
//! - `done`    the end of the stream, `{}`
//!
//! Partial agent events carry increments and become `delta` frames; final
//! events carry the whole text and become `message` frames.

use crate::application::services::agent_service::AgentEvent;
use vstd::prelude::*;

verus! {

#[verifier::external_type_specification]
#[verifier::external_body]
pub struct ExJsonError(serde_json::Error);

/// A lower-case hexadecimal digit of a value below sixteen.
pub open spec fn hex_digit(n: int) -> char {
    if n < 10 {
        (n + 48) as char
    } else {
        (n + 87) as char
    }
}

/// How `serde_json` writes one character inside a string literal: `"` and
/// `\` behind a backslash; backspace, tab, line feed, form feed and carriage
/// return as `\b`, `\t`, `\n`, `\f`, `\r`; the other control characters
/// below U+0020 as `\u00` and two lower-case hex digits; every other
/// character as itself.
pub open spec fn json_escaped_char(c: char) -> Seq<char> {
    if c == '"' {
        seq!['\\', '"']
    } else if c == '\\' {
        seq!['\\', '\\']
    } else if c == '\u{8}' {
        seq!['\\', 'b']
    } else if c == '\t' {
        seq!['\\', 't']
    } else if c == '\n' {
        seq!['\\', 'n']
    } else if c == '\u{c}' {
        seq!['\\', 'f']
    } else if c == '\r' {
        seq!['\\', 'r']
    } else if (c as int) < 32 {
        seq!['\\', 'u', '0', '0', hex_digit((c as int) / 16), hex_digit((c as int) % 16)]
    } else {
        seq![c]
    }
}

/// The characters of a text, each escaped as in a JSON string literal.
pub open spec fn json_escaped(text: Seq<char>) -> Seq<char>
    decreases text.len(),
{
    if text.len() == 0 {
        Seq::empty()
    } else {
        json_escaped(text.drop_last()) + json_escaped_char(text.last())
    }
}

/// The JSON string literal that `serde_json` writes for a text: the escaped
/// text between double quotes.
pub open spec fn json_string_literal(text: Seq<char>) -> Seq<char> {
    seq!['"'] + json_escaped(text) + seq!['"']
}

/// Calls `serde_json::to_string` on a `str`: the text as a JSON string
/// literal, escaped by serde_json's table (`ESCAPE` and `write_char_escape`
/// in its `ser.rs`), which `json_escaped_char` states. Serializing a `str`
/// into memory cannot fail (the serializer writes to a `Vec<u8>`), so the
/// result is always `Ok`.
#[verifier::external_body]
fn json_quote(text: &str) -> (r: Result<String, serde_json::Error>)
    ensures
        r is Ok,
        r matches Ok(s) ==> s@ == json_string_literal(text@),
{
    serde_json::to_string(text)
}

/// A text as a JSON string literal.
fn quoted(text: &str) -> (s: String)
    ensures
        s@ == json_string_literal(text@),
{
    match json_quote(text) {
        Ok(s) => s,
        Err(_) => String::new(),
    }
}

/// A frame as the pair of its event name and its data text.
pub type FrameView = (Seq<char>, Seq<char>);

/// The data of a `delta` frame.
pub open spec fn delta_data(text: Seq<char>) -> Seq<char> {
    "{\"text\":"@ + json_string_literal(text) + "}"@
}

/// The data of a `message` frame.
pub open spec fn message_data(text: Seq<char>) -> Seq<char> {
    "{\"role\":\"assistant\",\"text\":"@ + json_string_literal(text) + "}"@
}

/// The data of an `error` frame.
pub open spec fn error_data(reason: Seq<char>) -> Seq<char> {
    "{\"error\":"@ + json_string_literal(reason) + "}"@
}

pub open spec fn error_frame(reason: Seq<char>) -> FrameView {
    ("error"@, error_data(reason))
}

pub open spec fn done_frame() -> FrameView {
    ("done"@, "{}"@)
}

/// One SSE frame to send: its `event:` name and its `data:` JSON text.
#[derive(Debug, Clone)]
pub struct SseFrame {
    /// The SSE `event:` field.
    pub event: &'static str,
    /// The SSE `data:` field, a JSON text.
    pub data: String,
}

impl View for SseFrame {
    type V = FrameView;

    open spec fn view(&self) -> FrameView {
        (self.event@, self.data@)
    }
}

/// The frames of a list of frames, as pairs.
pub open spec fn frames_view(frames: Seq<SseFrame>) -> Seq<FrameView> {
    frames.map_values(|f: SseFrame| f@)
}

impl SseFrame {
    fn new(event: &'static str, data: String) -> (f: Self)
        ensures
            f.event == event,
            f.data == data,
    {
        SseFrame { event, data }
    }

    /// An error frame.
    pub fn error(reason: &str) -> (f: Self)
        ensures
            f@ == error_frame(reason@),
    {
        let mut data = "{\"error\":".to_string();
        let q = quoted(reason);
        data.append(q.as_str());
        data.append("}");
        SseFrame::new("error", data)
    }

    /// The end-of-stream frame.
    pub fn done() -> (f: Self)
        ensures
            f@ == done_frame(),
    {
        SseFrame::new("done", "{}".to_string())
    }
}

/// The frames of one agent event: none when it carries no text, a `delta`
/// frame for a partial event, a `message` frame for a final one.
pub open spec fn event_frames(event: AgentEvent) -> Seq<FrameView> {
    let text = event.spec_text();
    if text.len() == 0 {
        Seq::empty()
    } else if event.partial {
        seq![("delta"@, delta_data(text))]
    } else {
        seq![("message"@, message_data(text))]
    }
}

/// Translates one agent event into zero or one SSE frames. Only text content
/// is read so far.
pub fn adk_event_to_frames(event: &AgentEvent) -> (frames: Vec<SseFrame>)
    ensures
        frames_view(frames@) == event_frames(*event),
        event.spec_text().len() == 0 ==> frames@.len() == 0,
        event.partial && event.spec_text().len() > 0 ==> frames_view(frames@) == seq![
            ("delta"@, "{\"text\":"@ + json_string_literal(event.spec_text()) + "}"@),
        ],
        !event.partial && event.spec_text().len() > 0 ==> frames_view(frames@) == seq![
            (
                "message"@,
                "{\"role\":\"assistant\",\"text\":"@ + json_string_literal(event.spec_text()) + "}"@,
            ),
        ],
{
    proof {
        lemma_event_frames_carry_whole_text(*event);
    }
    let text = event.text();
    let mut frames = Vec::new();
    if text.as_str().is_empty() {
        assert(frames_view(frames@) =~= event_frames(*event));
        return frames;
    }
    let q = quoted(text.as_str());
    let frame = if event.partial {
        let mut data = "{\"text\":".to_string();
        data.append(q.as_str());
        data.append("}");
        SseFrame::new("delta", data)
    } else {
        let mut data = "{\"role\":\"assistant\",\"text\":".to_string();
        data.append(q.as_str());
        data.append("}");
        SseFrame::new("message", data)
    };
    frames.push(frame);
    assert(frames_view(frames@) =~= event_frames(*event));
    frames
}

/// An event's frame carries its whole text: a partial event with text gives
/// one `delta` frame `{"text":...}` and a final one one `message` frame
/// `{"role":"assistant","text":...}`, each with the event's text, unchanged,
/// as a JSON string literal; an event without text gives no frame.
pub proof fn lemma_event_frames_carry_whole_text(e: AgentEvent)
    ensures
        e.spec_text().len() == 0 ==> event_frames(e).len() == 0,
        e.partial && e.spec_text().len() > 0 ==> event_frames(e) == seq![
            ("delta"@, "{\"text\":"@ + json_string_literal(e.spec_text()) + "}"@),
        ],
        !e.partial && e.spec_text().len() > 0 ==> event_frames(e) == seq![
            (
                "message"@,
                "{\"role\":\"assistant\",\"text\":"@ + json_string_literal(e.spec_text()) + "}"@,
            ),
        ],
{
}

/// A character that JSON writes as itself: not a control character, not a
/// quote and not a backslash.
pub open spec fn is_plain_json_char(c: char) -> bool {
    (c as int) >= 32 && c != '"' && c != '\\'
}

/// Escaping a text in two stretches is escaping each stretch.
pub proof fn lemma_json_escaped_concat(a: Seq<char>, b: Seq<char>)
    ensures
        json_escaped(a + b) == json_escaped(a) + json_escaped(b),
    decreases b.len(),
{
    if b.len() == 0 {
        assert(a + b =~= a);
        assert(json_escaped(a) + json_escaped(b) =~= json_escaped(a));
    } else {
        lemma_json_escaped_concat(a, b.drop_last());
        assert((a + b).drop_last() =~= a + b.drop_last());
        assert((a + b).last() == b.last());
        assert(json_escaped(a) + json_escaped(b.drop_last()) + json_escaped_char(b.last())
            =~= json_escaped(a) + (json_escaped(b.drop_last()) + json_escaped_char(b.last())));
    }
}

/// A text of plain characters is written unchanged between quotes: nothing
/// is dropped, cut or altered.
pub proof fn lemma_json_plain_text_unchanged(t: Seq<char>)
    requires
        forall|i: int| 0 <= i < t.len() ==> is_plain_json_char(#[trigger] t[i]),
    ensures
        json_escaped(t) == t,
        json_string_literal(t) == seq!['"'] + t + seq!['"'],
    decreases t.len(),
{
    if t.len() > 0 {
        let d = t.drop_last();
        assert forall|i: int| 0 <= i < d.len() implies is_plain_json_char(#[trigger] d[i]) by {
            assert(d[i] == t[i]);
        }
        lemma_json_plain_text_unchanged(d);
        assert(is_plain_json_char(t[t.len() - 1]));
        assert(json_escaped_char(t.last()) == seq![t.last()]);
        assert(d + seq![t.last()] =~= t);
    }
}

} // verus!
