//! The normalized stream event taxonomy, and how the events of each wire
//! protocol map onto it.

use crate::text::str_eq;
use vstd::prelude::*;
use vstd::string::*;

verus! {

/// Authoritative token counts reported by a server, each possibly absent.
#[derive(Clone, Copy, Debug, PartialEq, Eq, Structural)]
pub struct UsageReport {
    pub input_tokens: Option<u32>,
    pub output_tokens: Option<u32>,
    pub reasoning_tokens: Option<u32>,
    pub total_tokens: Option<u32>,
}

/// One normalized event of a response stream.
#[derive(Clone, Debug, PartialEq, Eq)]
pub enum StreamEvent {
    /// User-visible generated text.
    ContentDelta(String),
    /// Hidden chain-of-thought text.
    ReasoningDelta(String),
    /// Token counts reported by the server.
    Usage(UsageReport),
    /// An unrecoverable server error.
    ErrorEvent(String),
    /// Anything to ignore: pings, block starts, unknown types, empty deltas.
    Other,
}

/// The message of an error event that carries none.
pub open spec fn unknown_error_message() -> Seq<char> {
    "unknown error"@
}

/// The events that one optional text delta stands for: none when it is
/// absent or empty.
pub open spec fn delta_events(text: Option<String>, reasoning: bool) -> Seq<StreamEvent> {
    match text {
        Some(t) => if t@.len() == 0 {
            Seq::empty()
        } else if reasoning {
            seq![StreamEvent::ReasoningDelta(t)]
        } else {
            seq![StreamEvent::ContentDelta(t)]
        },
        None => Seq::empty(),
    }
}

/// The single event that an optional text delta stands for.
pub open spec fn delta_event(text: Option<String>, reasoning: bool) -> StreamEvent {
    let evs = delta_events(text, reasoning);
    if evs.len() == 0 {
        StreamEvent::Other
    } else {
        evs[0]
    }
}

/// `r` is an error event with message `m`, or the stock message when `m` is
/// absent.
pub open spec fn error_event_of(m: Option<String>, r: StreamEvent) -> bool {
    match m {
        Some(x) => r == StreamEvent::ErrorEvent(x),
        None => r matches StreamEvent::ErrorEvent(y) && y@ == unknown_error_message(),
    }
}

fn unknown_error() -> (r: String)
    ensures
        r@ == unknown_error_message(),
{
    String::from_str("unknown error")
}

fn error_event(m: Option<String>) -> (r: StreamEvent)
    ensures
        error_event_of(m, r),
{
    match m {
        Some(x) => StreamEvent::ErrorEvent(x),
        None => StreamEvent::ErrorEvent(unknown_error()),
    }
}

fn one_delta(text: Option<String>, reasoning: bool) -> (r: StreamEvent)
    ensures
        r == delta_event(text, reasoning),
{
    match text {
        Some(t) => {
            if t.as_str().is_empty() {
                StreamEvent::Other
            } else if reasoning {
                StreamEvent::ReasoningDelta(t)
            } else {
                StreamEvent::ContentDelta(t)
            }
        },
        None => StreamEvent::Other,
    }
}

// ---------------------------------------------------------------------------
// Anthropic messages

/// Token counts of an Anthropic `message_start` or `message_delta` event.
#[derive(Clone, Copy, Debug, PartialEq, Eq, Structural)]
pub struct MessagesUsage {
    pub input_tokens: Option<u32>,
    pub output_tokens: Option<u32>,
}

/// The `message` object of a `message_start` event.
#[derive(Clone, Copy, Debug, PartialEq, Eq, Structural)]
pub struct MessagesMessageStart {
    pub usage: Option<MessagesUsage>,
}

/// The `error` object of an `error` event.
#[derive(Clone, Debug, PartialEq, Eq)]
pub struct MessagesError {
    pub message: Option<String>,
}

/// The `delta` of a `content_block_delta` event.
#[derive(Clone, Debug, PartialEq, Eq)]
pub enum MessagesContentDelta {
    TextDelta { text: Option<String> },
    ThinkingDelta { thinking: Option<String> },
    Other,
}

/// One event of an Anthropic messages stream.
#[derive(Clone, Debug, PartialEq, Eq)]
pub enum MessagesStreamEvent {
    MessageStart { message: MessagesMessageStart },
    ContentBlockDelta { delta: MessagesContentDelta },
    MessageDelta { usage: Option<MessagesUsage> },
    Error { error: MessagesError },
    Ping,
    Other,
}

pub open spec fn messages_usage_report(u: MessagesUsage) -> UsageReport {
    UsageReport {
        input_tokens: u.input_tokens,
        output_tokens: u.output_tokens,
        reasoning_tokens: None,
        total_tokens: None,
    }
}

pub open spec fn optional_usage_event(u: Option<MessagesUsage>) -> StreamEvent {
    match u {
        Some(x) => StreamEvent::Usage(messages_usage_report(x)),
        None => StreamEvent::Other,
    }
}

/// The normalized event of an Anthropic messages event.
pub open spec fn messages_event_spec(ev: MessagesStreamEvent, r: StreamEvent) -> bool {
    match ev {
        MessagesStreamEvent::MessageStart { message } => r == optional_usage_event(message.usage),
        MessagesStreamEvent::ContentBlockDelta { delta } => match delta {
            MessagesContentDelta::TextDelta { text } => r == delta_event(text, false),
            MessagesContentDelta::ThinkingDelta { thinking } => r == delta_event(thinking, true),
            MessagesContentDelta::Other => r == StreamEvent::Other,
        },
        MessagesStreamEvent::MessageDelta { usage } => r == optional_usage_event(usage),
        MessagesStreamEvent::Error { error } => error_event_of(error.message, r),
        MessagesStreamEvent::Ping => r == StreamEvent::Other,
        MessagesStreamEvent::Other => r == StreamEvent::Other,
    }
}

fn usage_event(u: Option<MessagesUsage>) -> (r: StreamEvent)
    ensures
        r == optional_usage_event(u),
{
    match u {
        Some(x) => StreamEvent::Usage(
            UsageReport {
                input_tokens: x.input_tokens,
                output_tokens: x.output_tokens,
                reasoning_tokens: None,
                total_tokens: None,
            },
        ),
        None => StreamEvent::Other,
    }
}

/// Maps an Anthropic messages event onto the normalized taxonomy.
pub fn normalize_messages_event(ev: MessagesStreamEvent) -> (r: StreamEvent)
    ensures
        messages_event_spec(ev, r),
{
    match ev {
        MessagesStreamEvent::MessageStart { message } => usage_event(message.usage),
        MessagesStreamEvent::ContentBlockDelta { delta } => match delta {
            MessagesContentDelta::TextDelta { text } => one_delta(text, false),
            MessagesContentDelta::ThinkingDelta { thinking } => one_delta(thinking, true),
            MessagesContentDelta::Other => StreamEvent::Other,
        },
        MessagesStreamEvent::MessageDelta { usage } => usage_event(usage),
        MessagesStreamEvent::Error { error } => error_event(error.message),
        MessagesStreamEvent::Ping => StreamEvent::Other,
        MessagesStreamEvent::Other => StreamEvent::Other,
    }
}

// ---------------------------------------------------------------------------
// OpenAI chat completions

/// The `delta` of one choice of a chat completion chunk.
#[derive(Clone, Debug, PartialEq, Eq)]
pub struct StreamDelta {
    pub content: Option<String>,
    pub reasoning_content: Option<String>,
    pub reasoning: Option<String>,
}

/// One choice of a chat completion chunk.
#[derive(Clone, Debug, PartialEq, Eq)]
pub struct StreamChoice {
    pub delta: StreamDelta,
}

/// The `usage` object of a chat completion chunk.
#[derive(Clone, Copy, Debug, PartialEq, Eq, Structural)]
pub struct ChatUsage {
    pub prompt_tokens: u32,
    pub completion_tokens: u32,
    pub total_tokens: u32,
    /// `completion_tokens_details.reasoning_tokens`, when reported.
    pub reasoning_tokens: Option<u32>,
}

/// One chunk of a chat completion stream.
#[derive(Clone, Debug, PartialEq, Eq)]
pub struct StreamChunk {
    pub choices: Vec<StreamChoice>,
    pub usage: Option<ChatUsage>,
}

/// The reasoning text of a delta: `reasoning_content`, or else `reasoning`.
pub open spec fn reasoning_text(d: StreamDelta) -> Option<String> {
    if d.reasoning_content is Some {
        d.reasoning_content
    } else {
        d.reasoning
    }
}

/// The events of one choice: its reasoning text, then its content.
pub open spec fn choice_events(c: StreamChoice) -> Seq<StreamEvent> {
    delta_events(reasoning_text(c.delta), true) + delta_events(c.delta.content, false)
}

/// The events of a run of choices, in order.
pub open spec fn choices_events(cs: Seq<StreamChoice>) -> Seq<StreamEvent>
    decreases cs.len(),
{
    if cs.len() == 0 {
        Seq::empty()
    } else {
        choice_events(cs[0]) + choices_events(cs.drop_first())
    }
}

pub open spec fn chat_usage_report(u: ChatUsage) -> UsageReport {
    UsageReport {
        input_tokens: Some(u.prompt_tokens),
        output_tokens: Some(u.completion_tokens),
        reasoning_tokens: u.reasoning_tokens,
        total_tokens: Some(u.total_tokens),
    }
}

/// The normalized events of a chat completion chunk: those of its choices,
/// then its usage, if any.
pub open spec fn chunk_events(chunk: StreamChunk) -> Seq<StreamEvent> {
    choices_events(chunk.choices@) + match chunk.usage {
        Some(u) => seq![StreamEvent::Usage(chat_usage_report(u))],
        None => Seq::empty(),
    }
}

fn push_delta(out: &mut Vec<StreamEvent>, text: Option<String>, reasoning: bool)
    ensures
        final(out)@ == old(out)@ + delta_events(text, reasoning),
{
    match text {
        Some(t) => {
            if t.as_str().is_empty() {
                proof {
                    assert(final(out)@ =~= old(out)@ + delta_events(text, reasoning));
                }
            } else if reasoning {
                out.push(StreamEvent::ReasoningDelta(t));
            } else {
                out.push(StreamEvent::ContentDelta(t));
            }
        },
        None => {
            proof {
                assert(final(out)@ =~= old(out)@ + delta_events(text, reasoning));
            }
        },
    }
}

proof fn lemma_choices_events_split(cs: Seq<StreamChoice>, i: int)
    requires
        0 <= i < cs.len(),
    ensures
        choices_events(cs.take(i + 1)) == choices_events(cs.take(i)) + choice_events(cs[i]),
    decreases i,
{
    let a = cs.take(i + 1);
    if i == 0 {
        assert(a.drop_first() =~= Seq::<StreamChoice>::empty());
        assert(cs.take(0) =~= Seq::<StreamChoice>::empty());
        assert(choice_events(cs[0]) + Seq::<StreamEvent>::empty() =~= choice_events(cs[0]));
        assert(Seq::<StreamEvent>::empty() + choice_events(cs[0]) =~= choice_events(cs[0]));
    } else {
        let d = cs.drop_first();
        lemma_choices_events_split(d, i - 1);
        assert(a.drop_first() =~= d.take(i));
        assert(cs.take(i).drop_first() =~= d.take(i - 1));
        assert(choices_events(a) == choice_events(cs[0]) + choices_events(d.take(i)));
        assert(choices_events(cs.take(i)) == choice_events(cs[0]) + choices_events(
            d.take(i - 1),
        ));
        assert(choices_events(a) =~= choices_events(cs.take(i)) + choice_events(cs[i]));
    }
}

/// Maps a chat completion chunk onto the normalized taxonomy.
pub fn normalize_chat_chunk(chunk: StreamChunk) -> (r: Vec<StreamEvent>)
    ensures
        r@ == chunk_events(chunk),
{
    let ghost cs = chunk.choices@;
    let usage = chunk.usage;
    let mut choices = chunk.choices;
    let mut out: Vec<StreamEvent> = Vec::new();
    let mut i: usize = 0;
    let n = choices.len();
    while i < n
        invariant
            n == cs.len(),
            0 <= i <= n,
            choices@ == cs.skip(i as int),
            out@ == choices_events(cs.take(i as int)),
        decreases n - i,
    {
        let c = choices.remove(0);
        proof {
            lemma_choices_events_split(cs, i as int);
            assert(c == cs[i as int]);
        }
        let d = c.delta;
        let rc = d.reasoning_content;
        let rs = if rc.is_some() {
            rc
        } else {
            d.reasoning
        };
        push_delta(&mut out, rs, true);
        push_delta(&mut out, d.content, false);
        proof {
            assert(choices@ =~= cs.skip(i + 1));
            assert(out@ =~= choices_events(cs.take(i + 1)));
        }
        i = i + 1;
    }
    proof {
        assert(cs.take(n as int) =~= cs);
    }
    match usage {
        Some(u) => {
            out.push(
                StreamEvent::Usage(
                    UsageReport {
                        input_tokens: Some(u.prompt_tokens),
                        output_tokens: Some(u.completion_tokens),
                        reasoning_tokens: u.reasoning_tokens,
                        total_tokens: Some(u.total_tokens),
                    },
                ),
            );
        },
        None => {},
    }
    proof {
        assert(out@ =~= chunk_events(chunk));
    }
    out
}

} // verus!

verus! {

// ---------------------------------------------------------------------------
// OpenAI responses

/// The `usage` object of a `response.completed` event.
#[derive(Clone, Copy, Debug, PartialEq, Eq, Structural)]
pub struct ResponsesUsage {
    pub input_tokens: u32,
    pub output_tokens: u32,
    pub total_tokens: u32,
    /// `output_tokens_details.reasoning_tokens`, when reported.
    pub reasoning_tokens: Option<u32>,
}

/// One event of a responses stream, discriminated by its `type` field.
#[derive(Clone, Debug, PartialEq, Eq)]
pub struct ResponsesEvent {
    pub event_type: String,
    pub delta: Option<String>,
    pub text: Option<String>,
    /// `response.usage` of a `response.completed` event.
    pub usage: Option<ResponsesUsage>,
    /// `message` of an `error` event.
    pub message: Option<String>,
}

/// The text payload of a responses event: `delta`, or else `text`.
pub open spec fn responses_payload(ev: ResponsesEvent) -> Option<String> {
    if ev.delta is Some {
        ev.delta
    } else {
        ev.text
    }
}

pub open spec fn responses_usage_report(u: ResponsesUsage) -> UsageReport {
    UsageReport {
        input_tokens: Some(u.input_tokens),
        output_tokens: Some(u.output_tokens),
        reasoning_tokens: u.reasoning_tokens,
        total_tokens: Some(u.total_tokens),
    }
}

/// The normalized event of a responses event.
pub open spec fn responses_event_spec(ev: ResponsesEvent, r: StreamEvent) -> bool {
    let t = ev.event_type@;
    if t == "response.output_text.delta"@ {
        r == delta_event(responses_payload(ev), false)
    } else if t == "response.reasoning_text.delta"@ || t == "response.reasoning.delta"@ {
        r == delta_event(responses_payload(ev), true)
    } else if t == "response.completed"@ {
        r == match ev.usage {
            Some(u) => StreamEvent::Usage(responses_usage_report(u)),
            None => StreamEvent::Other,
        }
    } else if t == "error"@ {
        error_event_of(ev.message, r)
    } else {
        r == StreamEvent::Other
    }
}

/// Maps a responses event onto the normalized taxonomy.
pub fn normalize_responses_event(ev: ResponsesEvent) -> (r: StreamEvent)
    ensures
        responses_event_spec(ev, r),
{
    let ghost e = ev;
    let t = ev.event_type.as_str();
    if str_eq(t, "response.output_text.delta") {
        let p = if ev.delta.is_some() {
            ev.delta
        } else {
            ev.text
        };
        one_delta(p, false)
    } else if str_eq(t, "response.reasoning_text.delta") || str_eq(t, "response.reasoning.delta") {
        let p = if ev.delta.is_some() {
            ev.delta
        } else {
            ev.text
        };
        one_delta(p, true)
    } else if str_eq(t, "response.completed") {
        match ev.usage {
            Some(u) => StreamEvent::Usage(
                UsageReport {
                    input_tokens: Some(u.input_tokens),
                    output_tokens: Some(u.output_tokens),
                    reasoning_tokens: u.reasoning_tokens,
                    total_tokens: Some(u.total_tokens),
                },
            ),
            None => StreamEvent::Other,
        }
    } else if str_eq(t, "error") {
        error_event(ev.message)
    } else {
        StreamEvent::Other
    }
}

} // verus!
