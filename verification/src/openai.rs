//! The chat-completion exchange: request assembly and decoding decisions
//! for the streamed response.
//!
//! The HTTP transport and the JSON codec are external collaborators; the
//! unverified binary sends the request, reads the response line by line, and
//! asks the functions here what each line is and what to do with it.

use vstd::prelude::*;
use vstd::string::{StringExecFns, StringSliceAdditionalSpecFns};
use vstd::utf8::encode_utf8;

use crate::cli::{default_llm, default_query_text, model_name, spec_parse_model, Model};
use crate::search::matches_at;
use crate::text::{copy_range, eq_bytes, spec_trim, trim_bytes};

verus! {

/// A `messages` item of a chat request.
pub struct ChatMessage {
    pub role: String,
    pub content: String,
}

/// A chat request body; responses are requested as a stream.
pub struct ChatRequest {
    pub model: String,
    pub messages: Vec<ChatMessage>,
    pub stream: bool,
}

/// The delta carried by one streamed response chunk.
pub struct ChatDelta {
    pub content: Option<String>,
}

/// One choice of a streamed response chunk.
pub struct ChatStreamChoice {
    pub delta: ChatDelta,
}

/// One streamed response chunk.
pub struct ChatStreamResponse {
    pub choices: Vec<ChatStreamChoice>,
}

/// The model for a query: an explicit argument wins, else the name the
/// environment provides, else the default. An environment-provided name
/// that is no supported model is handed back as the error, for the message
/// that lists the supported ones.
pub fn resolve_model(arg: Option<Model>, env_name: Option<String>) -> (r: Result<String, String>)
    ensures
        arg matches Some(m) ==> r matches Ok(s) && s@ == model_name(m),
        env_name matches Some(n) ==> ((arg is None && spec_parse_model(encode_utf8(n@)) is Some)
            ==> (r matches Ok(s) && s@ == n@)),
        env_name matches Some(n) ==> ((arg is None && spec_parse_model(encode_utf8(n@)) is None)
            ==> (r matches Err(e) && e@ == n@)),
        (arg is None && env_name is None) ==> (r matches Ok(s) && s@ == model_name(Model::Gpt4o)),
{
    match arg {
        Option::Some(m) => Result::Ok(m.name()),
        Option::None => {
            match env_name {
                Option::Some(n) => {
                    let parsed = Model::from_str(n.as_str());
                    match parsed {
                        Option::Some(_) => Result::Ok(n),
                        Option::None => Result::Err(n),
                    }
                },
                Option::None => Result::Ok(default_llm().name()),
            }
        },
    }
}

/// The prompt for a one-time query: an explicit argument wins, else the
/// environment's default, else the built-in default.
pub fn resolve_prompt(arg: Option<String>, env_prompt: Option<String>) -> (r: String)
    ensures
        arg matches Some(p) ==> r@ == p@,
        env_prompt matches Some(p) ==> (arg is None ==> r@ == p@),
        (arg is None && env_prompt is None) ==> r@ == default_query_text(),
{
    match arg {
        Option::Some(p) => p,
        Option::None => {
            match env_prompt {
                Option::Some(p) => p,
                Option::None => crate::cli::default_query(),
            }
        },
    }
}

/// The fixed frame around the command output in the system message.
pub open spec fn system_preamble() -> Seq<char> {
    "You are a helpful assistant. The user has run a command and received the following output: "@
}

/// Assemble the request body for one exchange: a system message framing the
/// command output, the user's prompt, and streaming switched on.
pub fn build_chat_request(model: String, context: &str, prompt: &str) -> (r: ChatRequest)
    ensures
        r.model@ == model@,
        r.stream == true,
        r.messages@.len() == 2,
        r.messages@[0].role@ == "system"@,
        r.messages@[0].content@ == system_preamble() + context@,
        r.messages@[1].role@ == "user"@,
        r.messages@[1].content@ == prompt@,
{
    let system = ChatMessage {
        role: String::from_str("system"),
        content: String::from_str(
            "You are a helpful assistant. The user has run a command and received the following output: ",
        ).concat(context),
    };
    let user = ChatMessage { role: String::from_str("user"), content: String::from_str(prompt) };
    let mut messages: Vec<ChatMessage> = Vec::new();
    messages.push(system);
    messages.push(user);
    ChatRequest { model, messages, stream: true }
}

/// The `data: ` prefix that marks a payload line of the streamed response.
pub open spec fn data_prefix() -> Seq<u8> {
    seq![100u8, 97, 116, 97, 58, 32]
}

/// The `data: ` prefix, built at run time.
pub fn data_prefix_bytes() -> (r: Vec<u8>)
    ensures
        r@ == data_prefix(),
{
    let mut v: Vec<u8> = Vec::new();
    v.push(100);
    v.push(97);
    v.push(116);
    v.push(97);
    v.push(58);
    v.push(32);
    proof {
        assert(v@ =~= data_prefix());
    }
    v
}

/// The end-of-stream token `[DONE]`.
pub open spec fn done_token() -> Seq<u8> {
    seq![91u8, 68, 79, 78, 69, 93]
}

/// The end-of-stream token, built at run time.
pub fn done_token_bytes() -> (r: Vec<u8>)
    ensures
        r@ == done_token(),
{
    let mut v: Vec<u8> = Vec::new();
    v.push(91);
    v.push(68);
    v.push(79);
    v.push(78);
    v.push(69);
    v.push(93);
    proof {
        assert(v@ =~= done_token());
    }
    v
}

/// A line carrying nothing but whitespace.
pub open spec fn line_is_blank(line: Seq<u8>) -> bool {
    spec_trim(line).len() == 0
}

/// A line whose trimmed form starts with the `data: ` prefix.
pub open spec fn line_is_data(line: Seq<u8>) -> bool {
    let t = spec_trim(line);
    t.len() >= data_prefix().len() && t.subrange(0, data_prefix().len() as int) == data_prefix()
}

/// Repeated removal of the `data: ` prefix from the front of a trimmed line.
pub open spec fn spec_strip_data_prefix(s: Seq<u8>) -> Seq<u8>
    decreases s.len(),
{
    if s.len() >= data_prefix().len() && s.subrange(0, data_prefix().len() as int)
        == data_prefix() {
        spec_strip_data_prefix(s.skip(data_prefix().len() as int))
    } else {
        s
    }
}

/// The payload of a data line: the trimmed text after the prefix.
pub open spec fn line_payload(line: Seq<u8>) -> Seq<u8> {
    spec_trim(spec_strip_data_prefix(spec_trim(line)))
}

/// One line of the streamed response, classified.
pub enum StreamLine {
    /// Only whitespace: skipped, not accumulated.
    Blank,
    /// The end-of-stream sentinel: stop reading.
    Done,
    /// A payload line: the JSON chunk to decode for the delta to print.
    Payload(Vec<u8>),
    /// Any other non-blank line: accumulated verbatim, nothing to decode.
    Plain,
}

/// Classify one line of the streamed chat response: blank lines are
/// skipped; a `data: ` line either ends the stream or carries a JSON
/// payload; everything else is kept as-is.
pub fn classify_stream_line(line: &[u8]) -> (r: StreamLine)
    ensures
        line_is_blank(line@) ==> r is Blank,
        !line_is_blank(line@) && !line_is_data(line@) ==> r is Plain,
        (line_is_data(line@) && line_payload(line@) == done_token()) ==> r is Done,
        (line_is_data(line@) && line_payload(line@) != done_token()) ==> (r matches StreamLine::Payload(p)
            && p@ == line_payload(line@)),
{
    let trimmed = trim_bytes(line);
    if trimmed.len() == 0 {
        return StreamLine::Blank;
    }
    let prefix = data_prefix_bytes();
    let plen = prefix.len();
    if trimmed.len() < plen || !matches_at(trimmed.as_slice(), prefix.as_slice(), 0) {
        proof {
            if trimmed@.len() >= plen {
                assert(trimmed@.subrange(0, plen as int) =~= trimmed@.subrange(
                    0 as int,
                    0 + plen as int,
                ));
            }
        }
        return StreamLine::Plain;
    }
    let mut i: usize = 0;
    proof {
        assert(trimmed@.skip(0) =~= trimmed@);
    }
    loop
        invariant
            i <= trimmed@.len(),
            prefix@ == data_prefix(),
            plen == data_prefix().len(),
            trimmed@ == spec_trim(line@),
            spec_strip_data_prefix(trimmed@) == spec_strip_data_prefix(trimmed@.skip(i as int)),
        ensures
            i <= trimmed@.len(),
            spec_strip_data_prefix(trimmed@) == trimmed@.skip(i as int),
        decreases trimmed@.len() - i,
    {
        let ghost rest = trimmed@.skip(i as int);
        if trimmed.len() - i >= plen && matches_at(trimmed.as_slice(), prefix.as_slice(), i) {
            proof {
                assert(rest.subrange(0, plen as int) =~= trimmed@.subrange(i as int, i + plen));
                assert(rest.subrange(0, plen as int) == data_prefix());
                assert(rest.skip(plen as int) =~= trimmed@.skip(i + plen));
            }
            i += plen;
        } else {
            proof {
                if rest.len() >= plen {
                    assert(rest.subrange(0, plen as int) =~= trimmed@.subrange(i as int, i + plen));
                    assert(!(rest.subrange(0, plen as int) == data_prefix()));
                }
                assert(spec_strip_data_prefix(rest) == rest);
            }
            break ;
        }
    }
    let rest = copy_range(trimmed.as_slice(), i, trimmed.len());
    let payload = trim_bytes(rest.as_slice());
    proof {
        assert(rest@ =~= trimmed@.skip(i as int));
        assert(payload@ == line_payload(line@));
    }
    let done = done_token_bytes();
    if eq_bytes(payload.as_slice(), done.as_slice()) {
        StreamLine::Done
    } else {
        StreamLine::Payload(payload)
    }
}

/// Whether a classified line is appended to the accumulated transcript:
/// every non-blank line short of the end-of-stream sentinel, verbatim.
pub fn line_is_accumulated(r: &StreamLine) -> (b: bool)
    ensures
        b == !(r is Blank || r is Done),
{
    match r {
        StreamLine::Blank => false,
        StreamLine::Done => false,
        StreamLine::Payload(_) => true,
        StreamLine::Plain => true,
    }
}

} // verus!
