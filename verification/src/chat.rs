//! Preparation of chat requests and streamed chunks for a provider: the
//! value-level decisions of the completion paths, kept apart from the HTTP
//! edge that sends and receives them.

use vstd::prelude::*;
use crate::ai_types::{ChatCompletionChunk, ChatMessage, Role, StreamChunk};

verus! {

/// A message with its tool-specific fields stripped.
pub open spec fn spec_strip_tool_fields(m: ChatMessage) -> ChatMessage {
    ChatMessage {
        role: m.role,
        content: m.content,
        name: m.name,
        tool_call_id: None,
        tool_calls: None,
    }
}

/// Messages as sent to a provider: tool-role messages dropped entirely,
/// tool fields stripped from the rest, order kept.
pub open spec fn spec_filter_messages(s: Seq<ChatMessage>) -> Seq<ChatMessage>
    decreases s.len(),
{
    if s.len() == 0 {
        Seq::empty()
    } else {
        let rest = spec_filter_messages(s.skip(1));
        if s[0].role is Tool {
            rest
        } else {
            seq![spec_strip_tool_fields(s[0])] + rest
        }
    }
}

/// Prepare messages for a provider: drop tool-role messages and strip the
/// tool-call fields from those that remain.
#[verifier::loop_isolation(false)]
pub fn filter_messages(messages: Vec<ChatMessage>) -> (r: Vec<ChatMessage>)
    ensures
        r@ == spec_filter_messages(messages@),
{
    let mut out: Vec<ChatMessage> = Vec::new();
    let ghost all = messages@;
    let mut remaining = messages;
    let ghost mut k: int = 0;
    proof {
        assert(all.skip(0) =~= all);
    }
    while remaining.len() > 0
        invariant
            0 <= k,
            k + remaining@.len() == all.len(),
            remaining@ == all.skip(k),
            spec_filter_messages(all) == out@ + spec_filter_messages(all.skip(k)),
        decreases remaining@.len(),
    {
        let m = remaining.remove(0);
        proof {
            assert(m == all[k]);
            assert(remaining@ =~= all.skip(k + 1));
            assert(all.skip(k).skip(1) =~= all.skip(k + 1));
        }
        let is_tool = match m.role {
            Role::Tool => true,
            _ => false,
        };
        if !is_tool {
            let stripped = ChatMessage {
                role: m.role,
                content: m.content,
                name: m.name,
                tool_call_id: None,
                tool_calls: None,
            };
            proof {
                assert(stripped == spec_strip_tool_fields(all[k]));
                assert(out@.push(stripped) + spec_filter_messages(all.skip(k + 1))
                    =~= out@ + spec_filter_messages(all.skip(k)));
            }
            out.push(stripped);
        }
        proof {
            k = k + 1;
        }
    }
    proof {
        assert(all.skip(k) =~= Seq::<ChatMessage>::empty());
        assert(out@ + Seq::<ChatMessage>::empty() =~= out@);
    }
    out
}

/// Whether a model takes the reasoning-effort knob: its plain identifier
/// starts with "o1" or "o3".
pub open spec fn spec_accepts_reasoning_effort(s: Seq<char>) -> bool {
    s.len() >= 2 && (s.subrange(0, 2) == "o1"@ || s.subrange(0, 2) == "o3"@)
}

/// Whether the reasoning-effort field is sent for this plain model
/// identifier.
pub fn accepts_reasoning_effort(model: &str) -> (r: bool)
    ensures
        r == spec_accepts_reasoning_effort(model@),
{
    proof {
        reveal_strlit("o1");
        reveal_strlit("o3");
    }
    let n = model.unicode_len();
    if n < 2 {
        return false;
    }
    let a = model.get_char(0);
    let b = model.get_char(1);
    let r = a == 'o' && (b == '1' || b == '3');
    proof {
        let p = model@.subrange(0, 2);
        assert(p.len() == 2 && p[0] == model@[0] && p[1] == model@[1]);
        if r {
            if b == '1' {
                assert(p =~= "o1"@);
            } else {
                assert(p =~= "o3"@);
            }
        } else {
            assert(p != "o1"@ && p != "o3"@) by {
                assert("o1"@[0] == 'o' && "o1"@[1] == '1');
                assert("o3"@[0] == 'o' && "o3"@[1] == '3');
            }
        }
    }
    r
}

/// What one wire chunk contributes to the stream: the first choice's delta
/// content, empty when there is none, with any terminal metadata carried
/// along.
pub fn stream_chunk_of(chunk: ChatCompletionChunk) -> (r: StreamChunk)
    ensures
        chunk.choices@.len() > 0 ==> (chunk.choices@[0].delta.content matches Some(s)
            ==> r.content == s),
        chunk.choices@.len() == 0 || chunk.choices@[0].delta.content is None ==> r.content@
            == Seq::<char>::empty(),
        r.citations == chunk.citations,
        r.usage == chunk.usage,
{
    let mut choices = chunk.choices;
    let content = if choices.len() > 0 {
        let first = choices.remove(0);
        match first.delta.content {
            Some(s) => s,
            None => String::new(),
        }
    } else {
        String::new()
    };
    StreamChunk { content, citations: chunk.citations, usage: chunk.usage }
}

} // verus!
