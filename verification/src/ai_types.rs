//! Data carried between the UI layer, the relay, and the provider drivers.
//!
//! These are plain values: message roles, chat content, tool calls, stream
//! fragments and usage counters. Opaque provider extras (free-form JSON
//! attachments) are left to the unverified edge.

use vstd::prelude::*;

verus! {

/// Why an AI provider call failed.
#[derive(Clone, Debug)]
pub enum AIError {
    /// The provider answered with an error, with its text.
    ProviderError(String),
    /// The network transport failed, with its text.
    NetworkError(String),
    /// A payload could not be read or written, with its text.
    SerializationError(String),
}

/// Chat message role.
#[derive(Clone, Debug)]
pub enum Role {
    System,
    User,
    Assistant,
    Tool,
}

#[derive(Clone, Debug)]
pub struct ImageUrl {
    pub url: String,
    pub detail: Option<String>,
}

/// Content part for multimodal messages.
#[derive(Clone, Debug)]
pub enum ContentPart {
    Text { text: String },
    ImageUrl { image_url: ImageUrl },
}

/// Message content: plain text or a list of parts (for vision models).
#[derive(Clone, Debug)]
pub enum MessageContent {
    Text(String),
    Parts(Vec<ContentPart>),
}

#[derive(Clone, Debug)]
pub struct FunctionCall {
    pub name: String,
    pub arguments: String,
}

/// Tool call requested by a model.
#[derive(Clone, Debug)]
pub struct ToolCall {
    pub id: String,
    pub tool_type: String,
    pub function: FunctionCall,
}

/// One chat message.
#[derive(Clone, Debug)]
pub struct ChatMessage {
    pub role: Role,
    pub content: MessageContent,
    pub name: Option<String>,
    pub tool_call_id: Option<String>,
    pub tool_calls: Option<Vec<ToolCall>>,
}

/// Response format for structured outputs ("json_object" or "text").
#[derive(Clone, Debug)]
pub struct ResponseFormat {
    pub format_type: String,
}

/// One completion choice of a response.
#[derive(Clone, Debug)]
pub struct Choice {
    pub index: u32,
    pub message: ChatMessage,
    pub finish_reason: Option<String>,
}

/// Token usage counters of a completed or streamed response.
#[derive(Clone, Debug)]
pub struct Usage {
    pub prompt_tokens: u32,
    pub completion_tokens: u32,
    pub total_tokens: u32,
}

/// Provider credentials passed per-request; nothing is stored server-side.
#[derive(Clone, Debug)]
pub struct ProviderCredentials {
    pub api_key: String,
    pub base_url: String,
}

/// Model info as listed by a provider.
#[derive(Clone, Debug)]
pub struct ModelInfo {
    pub id: String,
    pub object: Option<String>,
    pub created: Option<u64>,
    pub owned_by: Option<String>,
    pub name: Option<String>,
    pub context_length: Option<u64>,
}

/// Incremental delta of one streamed choice.
#[derive(Clone, Debug)]
pub struct ChunkDelta {
    pub role: Option<String>,
    pub content: Option<String>,
    pub tool_calls: Option<Vec<ToolCall>>,
}

#[derive(Clone, Debug)]
pub struct ChunkChoice {
    pub index: u32,
    pub delta: ChunkDelta,
    pub finish_reason: Option<String>,
}

/// A streamed completion chunk as a provider sends it (free-form provider
/// extras are left to the unverified edge).
#[derive(Clone, Debug)]
pub struct ChatCompletionChunk {
    pub id: String,
    pub object: String,
    pub created: u64,
    pub model: String,
    pub choices: Vec<ChunkChoice>,
    pub citations: Option<Vec<String>>,
    pub usage: Option<Usage>,
}

/// One unit of streamed partial content. Citations and usage counters may
/// only be populated on the final fragment; a fragment with empty content
/// and no metadata is a valid heartbeat.
#[derive(Clone, Debug)]
pub struct StreamChunk {
    pub content: String,
    pub citations: Option<Vec<String>>,
    pub usage: Option<Usage>,
}

/// Whether the model-identifier separator "::" occurs anywhere in `s`.
pub open spec fn has_model_separator(s: Seq<char>) -> bool
    decreases s.len(),
{
    if s.len() < 2 {
        false
    } else if s[0] == ':' && s[1] == ':' {
        true
    } else {
        has_model_separator(s.skip(1))
    }
}

/// What follows the first "::" of `s` (meaningful when one occurs).
pub open spec fn after_model_separator(s: Seq<char>) -> Seq<char>
    decreases s.len(),
{
    if s.len() < 2 {
        s
    } else if s[0] == ':' && s[1] == ':' {
        s.skip(2)
    } else {
        after_model_separator(s.skip(1))
    }
}

/// The plain model identifier of a possibly composite one: everything after
/// the first "::", or the whole string when there is none.
pub open spec fn spec_extract_model_id(s: Seq<char>) -> Seq<char> {
    if has_model_separator(s) {
        after_model_separator(s)
    } else {
        s
    }
}

/// Extract the plain model identifier from a composite identifier, such as
/// the part after the provider prefix, or return the input unchanged when no
/// separator occurs.
pub fn extract_model_id(composite_or_simple_id: &str) -> (r: &str)
    ensures
        r@ == spec_extract_model_id(composite_or_simple_id@),
{
    let n = composite_or_simple_id.unicode_len();
    if n < 2 {
        return composite_or_simple_id;
    }
    let mut i: usize = 0;
    proof {
        assert(composite_or_simple_id@.skip(0) =~= composite_or_simple_id@);
    }
    while i + 1 < n
        invariant
            n == composite_or_simple_id@.len(),
            i + 1 <= n,
            has_model_separator(composite_or_simple_id@) == has_model_separator(composite_or_simple_id@.skip(i as int)),
            after_model_separator(composite_or_simple_id@) == after_model_separator(composite_or_simple_id@.skip(i as int)),
        decreases n - i,
    {
        let a = composite_or_simple_id.get_char(i);
        let b = composite_or_simple_id.get_char(i + 1);
        if a == ':' && b == ':' {
            proof {
                let t = composite_or_simple_id@.skip(i as int);
                assert(t.len() == n - i);
                assert(t[0] == composite_or_simple_id@[i as int]);
                assert(t[1] == composite_or_simple_id@[i as int + 1]);
                assert(t[0] == ':' && t[1] == ':');
                assert(has_model_separator(t));
                assert(after_model_separator(t) == t.skip(2));
                assert(t.skip(2) =~= composite_or_simple_id@.subrange(i as int + 2, n as int));
                assert(has_model_separator(composite_or_simple_id@));
                assert(after_model_separator(composite_or_simple_id@) == composite_or_simple_id@.subrange(i as int + 2, n as int));
                assert(spec_extract_model_id(composite_or_simple_id@) == composite_or_simple_id@.subrange(i as int + 2, n as int));
            }
            let r = composite_or_simple_id.substring_char(i + 2, n);
            proof {
                assert(r@ == composite_or_simple_id@.subrange(i as int + 2, n as int));
            }
            return r;
        }
        proof {
            let t = composite_or_simple_id@.skip(i as int);
            assert(t.len() >= 2);
            assert(t[0] == composite_or_simple_id@[i as int] && t[1] == composite_or_simple_id@[i as int + 1]);
            assert(!(t[0] == ':' && t[1] == ':'));
            assert(has_model_separator(t) == has_model_separator(t.skip(1)));
            assert(after_model_separator(t) == after_model_separator(t.skip(1)));
            assert(t.skip(1) =~= composite_or_simple_id@.skip(i as int + 1));
        }
        i = i + 1;
    }
    proof {
        let t = composite_or_simple_id@.skip(i as int);
        assert(t.len() < 2);
        assert(!has_model_separator(t));
    }
    composite_or_simple_id
}

} // verus!
