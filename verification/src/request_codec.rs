//! The wire codec for the inference socket's client-bound envelopes: the
//! tagged JSON forms of every message a client sends the balancer,
//! encoded and decoded by verified functions, with decoding proved to
//! invert encoding. A raw tool schema travels as a JSON string literal
//! holding its text.

use vstd::prelude::*;

use crate::codec::decode_number;
use crate::codec::decode_string;
use crate::codec::lemma_decode_number;
use crate::codec::lemma_decode_string;
use crate::codec::lemma_strip_concat;
use crate::codec::lemma_strip_fail_at;
use crate::codec::push_lit;
use crate::codec::push_json_string;
use crate::codec::spec_decode_number;
use crate::codec::spec_decode_string;
use crate::codec::spec_json_string;
use crate::codec::spec_strip;
use crate::codec::strip_lit;
use crate::error::Error;
use crate::inference_server::ContinueFromConversationHistoryParams;
use crate::inference_server::ContinueFromRawPromptParams;
use crate::inference_server::ConversationMessage;
use crate::inference_server::ConversationMessageView;
use crate::inference_server::ConversationParamsView;
use crate::inference_server::InferenceRequestEnvelopeView;
use crate::inference_server::InferenceRequestView;
use crate::inference_server::InferenceServerMessageView;
use crate::inference_server::Message;
use crate::inference_server::RawParametersSchema;
use crate::inference_server::RawPromptParamsView;
use crate::inference_server::Request;
use crate::inference_server::ToolDefinition;
use crate::inference_server::ToolDefinitionView;
use crate::json::spec_u64_digits;
use crate::json::push_u64;
use crate::jsonrpc::RequestEnvelope;
use crate::message_codec::spec_decode_error_envelope;
use crate::message_codec::spec_encode_error_envelope;
use crate::message_codec::lemma_decode_error_envelope;
use crate::text::chars_of;
use crate::text::string_of;

verus! {

/// The canonical form of one conversation turn.
pub open spec fn spec_encode_conversation_message(m: ConversationMessageView) -> Seq<char> {
    "{\"content\":"@ + spec_json_string(m.content) + ",\"role\":"@ + spec_json_string(m.role)
        + "}"@
}

/// Decode one conversation turn.
pub open spec fn spec_decode_conversation_message(t: Seq<char>) -> Option<(
    ConversationMessageView,
    Seq<char>,
)> {
    match spec_strip(t, "{\"content\":"@) {
        Some(t1) => match spec_decode_string(t1) {
            Some(p1) => match spec_strip(p1.1, ",\"role\":"@) {
                Some(t2) => match spec_decode_string(t2) {
                    Some(p2) => match spec_strip(p2.1, "}"@) {
                        Some(t3) => Some(
                            (ConversationMessageView { content: p1.0, role: p2.0 }, t3),
                        ),
                        None => None,
                    },
                    None => None,
                },
                None => None,
            },
            None => None,
        },
        None => None,
    }
}

/// Law: decoding a canonical conversation turn yields the original.
pub proof fn lemma_decode_conversation_message(m: ConversationMessageView, rest: Seq<char>)
    ensures
        spec_decode_conversation_message(spec_encode_conversation_message(m) + rest) == Some(
            (m, rest),
        ),
{
    reveal_strlit(",\"role\":");
    reveal_strlit("}");
    let k1 = "{\"content\":"@;
    let k2 = ",\"role\":"@;
    let t = spec_encode_conversation_message(m) + rest;
    let r1 = spec_json_string(m.content) + (k2 + (spec_json_string(m.role) + ("}"@ + rest)));
    assert(t =~= k1 + r1);
    lemma_strip_concat(k1, r1);
    lemma_decode_string(m.content, k2 + (spec_json_string(m.role) + ("}"@ + rest)));
    lemma_strip_concat(k2, spec_json_string(m.role) + ("}"@ + rest));
    lemma_decode_string(m.role, "}"@ + rest);
    lemma_strip_concat("}"@, rest);
}

/// The canonical form of one offered tool.
pub open spec fn spec_encode_tool(t: ToolDefinitionView) -> Seq<char> {
    "{\"name\":"@ + spec_json_string(t.name) + ",\"parameters_schema\":"@ + spec_json_string(
        t.parameters_schema,
    ) + "}"@
}

/// Decode one offered tool.
pub open spec fn spec_decode_tool(t: Seq<char>) -> Option<(ToolDefinitionView, Seq<char>)> {
    match spec_strip(t, "{\"name\":"@) {
        Some(t1) => match spec_decode_string(t1) {
            Some(p1) => match spec_strip(p1.1, ",\"parameters_schema\":"@) {
                Some(t2) => match spec_decode_string(t2) {
                    Some(p2) => match spec_strip(p2.1, "}"@) {
                        Some(t3) => Some(
                            (ToolDefinitionView { name: p1.0, parameters_schema: p2.0 }, t3),
                        ),
                        None => None,
                    },
                    None => None,
                },
                None => None,
            },
            None => None,
        },
        None => None,
    }
}

/// Law: decoding a canonical tool yields the original.
pub proof fn lemma_decode_tool(tool: ToolDefinitionView, rest: Seq<char>)
    ensures
        spec_decode_tool(spec_encode_tool(tool) + rest) == Some((tool, rest)),
{
    reveal_strlit(",\"parameters_schema\":");
    reveal_strlit("}");
    let k1 = "{\"name\":"@;
    let k2 = ",\"parameters_schema\":"@;
    let t = spec_encode_tool(tool) + rest;
    let r1 = spec_json_string(tool.name) + (k2 + (spec_json_string(tool.parameters_schema) + (
    "}"@ + rest)));
    assert(t =~= k1 + r1);
    lemma_strip_concat(k1, r1);
    lemma_decode_string(
        tool.name,
        k2 + (spec_json_string(tool.parameters_schema) + ("}"@ + rest)),
    );
    lemma_strip_concat(k2, spec_json_string(tool.parameters_schema) + ("}"@ + rest));
    lemma_decode_string(tool.parameters_schema, "}"@ + rest);
    lemma_strip_concat("}"@, rest);
}

/// The canonical items of a conversation array (no brackets).
pub open spec fn spec_encode_conversation_items(s: Seq<ConversationMessageView>) -> Seq<char>
    decreases s.len(),
{
    if s.len() == 0 {
        Seq::<char>::empty()
    } else if s.len() == 1 {
        spec_encode_conversation_message(s[0])
    } else {
        spec_encode_conversation_message(s[0]) + seq![','] + spec_encode_conversation_items(
            s.drop_first(),
        )
    }
}

/// The canonical JSON array of conversation turns.
pub open spec fn spec_encode_conversation_array(s: Seq<ConversationMessageView>) -> Seq<char> {
    seq!['['] + spec_encode_conversation_items(s) + seq![']']
}

/// Parse the items of a non-empty conversation array, closing bracket
/// included.
pub open spec fn spec_decode_conversation_items(t: Seq<char>) -> Option<(
    Seq<ConversationMessageView>,
    Seq<char>,
)>
    decreases t.len(),
{
    match spec_decode_conversation_message(t) {
        Some(p) => if p.1.len() >= t.len() {
            None
        } else if p.1.len() > 0 && p.1[0] == ']' {
            Some((seq![p.0], p.1.skip(1)))
        } else if p.1.len() > 0 && p.1[0] == ',' {
            match spec_decode_conversation_items(p.1.skip(1)) {
                Some(q) => Some((seq![p.0] + q.0, q.1)),
                None => None,
            }
        } else {
            None
        },
        None => None,
    }
}

/// Parse a JSON array of conversation turns.
pub open spec fn spec_decode_conversation_array(t: Seq<char>) -> Option<(
    Seq<ConversationMessageView>,
    Seq<char>,
)> {
    if t.len() >= 2 && t[0] == '[' && t[1] == ']' {
        Some((Seq::<ConversationMessageView>::empty(), t.skip(2)))
    } else if t.len() >= 1 && t[0] == '[' {
        spec_decode_conversation_items(t.skip(1))
    } else {
        None
    }
}

proof fn lemma_decode_conversation_items(s: Seq<ConversationMessageView>, rest: Seq<char>)
    requires
        s.len() > 0,
    ensures
        spec_decode_conversation_items(spec_encode_conversation_items(s) + seq![']'] + rest)
            == Some((s, rest)),
    decreases s.len(),
{
    let t = spec_encode_conversation_items(s) + seq![']'] + rest;
    if s.len() == 1 {
        assert(t =~= spec_encode_conversation_message(s[0]) + (seq![']'] + rest));
        lemma_decode_conversation_message(s[0], seq![']'] + rest);
        assert((seq![']'] + rest)[0] == ']');
        assert((seq![']'] + rest).skip(1) =~= rest);
        assert(seq![s[0]] =~= s);
    } else {
        let s2 = s.drop_first();
        lemma_decode_conversation_items(s2, rest);
        let t2 = spec_encode_conversation_items(s2) + seq![']'] + rest;
        assert(t =~= spec_encode_conversation_message(s[0]) + (seq![','] + t2));
        lemma_decode_conversation_message(s[0], seq![','] + t2);
        assert((seq![','] + t2)[0] == ',');
        assert((seq![','] + t2).skip(1) =~= t2);
        assert(t2.len() < t.len());
        assert(seq![s[0]] + s2 =~= s);
    }
}

/// Law: decoding a canonical conversation array yields the original.
pub proof fn lemma_decode_conversation_array(s: Seq<ConversationMessageView>, rest: Seq<char>)
    ensures
        spec_decode_conversation_array(spec_encode_conversation_array(s) + rest) == Some(
            (s, rest),
        ),
{
    reveal_strlit("{\"content\":");
    let t = spec_encode_conversation_array(s) + rest;
    assert(t[0] == '[');
    if s.len() == 0 {
        assert(spec_encode_conversation_items(s) =~= Seq::<char>::empty());
        assert(t =~= seq!['[', ']'] + rest);
        assert(t[1] == ']');
        assert(t.skip(2) =~= rest);
    } else {
        lemma_decode_conversation_items(s, rest);
        assert(t.skip(1) =~= spec_encode_conversation_items(s) + seq![']'] + rest);
        assert(t[1] == '{');
    }
}

/// The canonical items of a tool array (no brackets).
pub open spec fn spec_encode_tool_items(s: Seq<ToolDefinitionView>) -> Seq<char>
    decreases s.len(),
{
    if s.len() == 0 {
        Seq::<char>::empty()
    } else if s.len() == 1 {
        spec_encode_tool(s[0])
    } else {
        spec_encode_tool(s[0]) + seq![','] + spec_encode_tool_items(s.drop_first())
    }
}

/// The canonical JSON array of offered tools.
pub open spec fn spec_encode_tool_array(s: Seq<ToolDefinitionView>) -> Seq<char> {
    seq!['['] + spec_encode_tool_items(s) + seq![']']
}

/// Parse the items of a non-empty tool array, closing bracket included.
pub open spec fn spec_decode_tool_items(t: Seq<char>) -> Option<(
    Seq<ToolDefinitionView>,
    Seq<char>,
)>
    decreases t.len(),
{
    match spec_decode_tool(t) {
        Some(p) => if p.1.len() >= t.len() {
            None
        } else if p.1.len() > 0 && p.1[0] == ']' {
            Some((seq![p.0], p.1.skip(1)))
        } else if p.1.len() > 0 && p.1[0] == ',' {
            match spec_decode_tool_items(p.1.skip(1)) {
                Some(q) => Some((seq![p.0] + q.0, q.1)),
                None => None,
            }
        } else {
            None
        },
        None => None,
    }
}

/// Parse a JSON array of offered tools.
pub open spec fn spec_decode_tool_array(t: Seq<char>) -> Option<(
    Seq<ToolDefinitionView>,
    Seq<char>,
)> {
    if t.len() >= 2 && t[0] == '[' && t[1] == ']' {
        Some((Seq::<ToolDefinitionView>::empty(), t.skip(2)))
    } else if t.len() >= 1 && t[0] == '[' {
        spec_decode_tool_items(t.skip(1))
    } else {
        None
    }
}

proof fn lemma_decode_tool_items(s: Seq<ToolDefinitionView>, rest: Seq<char>)
    requires
        s.len() > 0,
    ensures
        spec_decode_tool_items(spec_encode_tool_items(s) + seq![']'] + rest) == Some((s, rest)),
    decreases s.len(),
{
    let t = spec_encode_tool_items(s) + seq![']'] + rest;
    if s.len() == 1 {
        assert(t =~= spec_encode_tool(s[0]) + (seq![']'] + rest));
        lemma_decode_tool(s[0], seq![']'] + rest);
        assert((seq![']'] + rest)[0] == ']');
        assert((seq![']'] + rest).skip(1) =~= rest);
        assert(seq![s[0]] =~= s);
    } else {
        let s2 = s.drop_first();
        lemma_decode_tool_items(s2, rest);
        let t2 = spec_encode_tool_items(s2) + seq![']'] + rest;
        assert(t =~= spec_encode_tool(s[0]) + (seq![','] + t2));
        lemma_decode_tool(s[0], seq![','] + t2);
        assert((seq![','] + t2)[0] == ',');
        assert((seq![','] + t2).skip(1) =~= t2);
        assert(t2.len() < t.len());
        assert(seq![s[0]] + s2 =~= s);
    }
}

/// Law: decoding a canonical tool array yields the original.
pub proof fn lemma_decode_tool_array(s: Seq<ToolDefinitionView>, rest: Seq<char>)
    ensures
        spec_decode_tool_array(spec_encode_tool_array(s) + rest) == Some((s, rest)),
{
    reveal_strlit("{\"name\":");
    let t = spec_encode_tool_array(s) + rest;
    assert(t[0] == '[');
    if s.len() == 0 {
        assert(spec_encode_tool_items(s) =~= Seq::<char>::empty());
        assert(t =~= seq!['[', ']'] + rest);
        assert(t[1] == ']');
        assert(t.skip(2) =~= rest);
    } else {
        lemma_decode_tool_items(s, rest);
        assert(t.skip(1) =~= spec_encode_tool_items(s) + seq![']'] + rest);
        assert(t[1] == '{');
    }
}

/// The canonical form of conversation-history parameters.
pub open spec fn spec_encode_conversation_params(p: ConversationParamsView) -> Seq<char> {
    "{\"conversation_history\":"@ + spec_encode_conversation_array(p.conversation_history)
        + ",\"max_tokens\":"@ + spec_u64_digits(p.max_tokens as nat) + ",\"tools\":"@
        + spec_encode_tool_array(p.tools) + "}"@
}

/// Decode conversation-history parameters.
pub open spec fn spec_decode_conversation_params(t: Seq<char>) -> Option<(
    ConversationParamsView,
    Seq<char>,
)> {
    match spec_strip(t, "{\"conversation_history\":"@) {
        Some(t1) => match spec_decode_conversation_array(t1) {
            Some(p1) => match spec_strip(p1.1, ",\"max_tokens\":"@) {
                Some(t2) => match spec_decode_number(t2) {
                    Some(p2) => if p2.0 > u32::MAX as nat {
                        None
                    } else {
                        match spec_strip(p2.1, ",\"tools\":"@) {
                            Some(t3) => match spec_decode_tool_array(t3) {
                                Some(p3) => match spec_strip(p3.1, "}"@) {
                                    Some(t4) => Some(
                                        (
                                            ConversationParamsView {
                                                conversation_history: p1.0,
                                                max_tokens: p2.0 as u32,
                                                tools: p3.0,
                                            },
                                            t4,
                                        ),
                                    ),
                                    None => None,
                                },
                                None => None,
                            },
                            None => None,
                        }
                    },
                    None => None,
                },
                None => None,
            },
            None => None,
        },
        None => None,
    }
}

/// Law: decoding canonical conversation-history parameters yields the
/// original.
pub proof fn lemma_decode_conversation_params(p: ConversationParamsView, rest: Seq<char>)
    ensures
        spec_decode_conversation_params(spec_encode_conversation_params(p) + rest) == Some(
            (p, rest),
        ),
{
    reveal_strlit(",\"max_tokens\":");
    reveal_strlit(",\"tools\":");
    reveal_strlit("}");
    let k1 = "{\"conversation_history\":"@;
    let k2 = ",\"max_tokens\":"@;
    let k3 = ",\"tools\":"@;
    let e1 = spec_encode_conversation_array(p.conversation_history);
    let e2 = spec_u64_digits(p.max_tokens as nat);
    let e3 = spec_encode_tool_array(p.tools);
    let t = spec_encode_conversation_params(p) + rest;
    let r1 = e1 + (k2 + (e2 + (k3 + (e3 + ("}"@ + rest)))));
    assert(t =~= k1 + r1);
    lemma_strip_concat(k1, r1);
    lemma_decode_conversation_array(
        p.conversation_history,
        k2 + (e2 + (k3 + (e3 + ("}"@ + rest)))),
    );
    lemma_strip_concat(k2, e2 + (k3 + (e3 + ("}"@ + rest))));
    lemma_decode_number(p.max_tokens as nat, k3 + (e3 + ("}"@ + rest)));
    lemma_strip_concat(k3, e3 + ("}"@ + rest));
    lemma_decode_tool_array(p.tools, "}"@ + rest);
    lemma_strip_concat("}"@, rest);
}

/// The canonical form of raw-prompt parameters.
pub open spec fn spec_encode_raw_prompt_params(p: RawPromptParamsView) -> Seq<char> {
    "{\"max_tokens\":"@ + spec_u64_digits(p.max_tokens as nat) + ",\"raw_prompt\":"@
        + spec_json_string(p.raw_prompt) + "}"@
}

/// Decode raw-prompt parameters.
pub open spec fn spec_decode_raw_prompt_params(t: Seq<char>) -> Option<(
    RawPromptParamsView,
    Seq<char>,
)> {
    match spec_strip(t, "{\"max_tokens\":"@) {
        Some(t1) => match spec_decode_number(t1) {
            Some(p1) => if p1.0 > u32::MAX as nat {
                None
            } else {
                match spec_strip(p1.1, ",\"raw_prompt\":"@) {
                    Some(t2) => match spec_decode_string(t2) {
                        Some(p2) => match spec_strip(p2.1, "}"@) {
                            Some(t3) => Some(
                                (
                                    RawPromptParamsView {
                                        max_tokens: p1.0 as u32,
                                        raw_prompt: p2.0,
                                    },
                                    t3,
                                ),
                            ),
                            None => None,
                        },
                        None => None,
                    },
                    None => None,
                }
            },
            None => None,
        },
        None => None,
    }
}

/// Law: decoding canonical raw-prompt parameters yields the original.
pub proof fn lemma_decode_raw_prompt_params(p: RawPromptParamsView, rest: Seq<char>)
    ensures
        spec_decode_raw_prompt_params(spec_encode_raw_prompt_params(p) + rest) == Some(
            (p, rest),
        ),
{
    reveal_strlit(",\"raw_prompt\":");
    reveal_strlit("}");
    let k1 = "{\"max_tokens\":"@;
    let k2 = ",\"raw_prompt\":"@;
    let e1 = spec_u64_digits(p.max_tokens as nat);
    let e2 = spec_json_string(p.raw_prompt);
    let t = spec_encode_raw_prompt_params(p) + rest;
    let r1 = e1 + (k2 + (e2 + ("}"@ + rest)));
    assert(t =~= k1 + r1);
    lemma_strip_concat(k1, r1);
    lemma_decode_number(p.max_tokens as nat, k2 + (e2 + ("}"@ + rest)));
    lemma_strip_concat(k2, e2 + ("}"@ + rest));
    lemma_decode_string(p.raw_prompt, "}"@ + rest);
    lemma_strip_concat("}"@, rest);
}

/// The canonical form of the inner request union.
pub open spec fn spec_encode_inference_request(r: InferenceRequestView) -> Seq<char> {
    match r {
        InferenceRequestView::ContinueFromConversationHistory(p) =>
            "{\"ContinueFromConversationHistory\":"@ + spec_encode_conversation_params(p) + "}"@,
        InferenceRequestView::ContinueFromRawPrompt(p) => "{\"ContinueFromRawPrompt\":"@
            + spec_encode_raw_prompt_params(p) + "}"@,
    }
}

/// Decode the inner request union.
pub open spec fn spec_decode_inference_request(t: Seq<char>) -> Option<(
    InferenceRequestView,
    Seq<char>,
)> {
    match spec_strip(t, "{\"ContinueFromConversationHistory\":"@) {
        Some(t1) => match spec_decode_conversation_params(t1) {
            Some(p) => match spec_strip(p.1, "}"@) {
                Some(t2) => Some(
                    (InferenceRequestView::ContinueFromConversationHistory(p.0), t2),
                ),
                None => None,
            },
            None => None,
        },
        None => match spec_strip(t, "{\"ContinueFromRawPrompt\":"@) {
            Some(t1) => match spec_decode_raw_prompt_params(t1) {
                Some(p) => match spec_strip(p.1, "}"@) {
                    Some(t2) => Some((InferenceRequestView::ContinueFromRawPrompt(p.0), t2)),
                    None => None,
                },
                None => None,
            },
            None => None,
        },
    }
}

/// Law: decoding a canonical inner request yields the original.
pub proof fn lemma_decode_inference_request(r: InferenceRequestView, rest: Seq<char>)
    ensures
        spec_decode_inference_request(spec_encode_inference_request(r) + rest) == Some(
            (r, rest),
        ),
{
    reveal_strlit("{\"ContinueFromConversationHistory\":");
    reveal_strlit("{\"ContinueFromRawPrompt\":");
    reveal_strlit("}");
    let t = spec_encode_inference_request(r) + rest;
    match r {
        InferenceRequestView::ContinueFromConversationHistory(p) => {
            let k = "{\"ContinueFromConversationHistory\":"@;
            let r1 = spec_encode_conversation_params(p) + ("}"@ + rest);
            assert(t =~= k + r1);
            lemma_strip_concat(k, r1);
            lemma_decode_conversation_params(p, "}"@ + rest);
            lemma_strip_concat("}"@, rest);
        },
        InferenceRequestView::ContinueFromRawPrompt(p) => {
            assert(t[14] == 'R');
            lemma_strip_fail_at(t, "{\"ContinueFromConversationHistory\":"@, 14);
            let k = "{\"ContinueFromRawPrompt\":"@;
            let r1 = spec_encode_raw_prompt_params(p) + ("}"@ + rest);
            assert(t =~= k + r1);
            lemma_strip_concat(k, r1);
            lemma_decode_raw_prompt_params(p, "}"@ + rest);
            lemma_strip_concat("}"@, rest);
        },
    }
}

/// The canonical single-line form of one client-bound message: an error
/// envelope, or a request envelope with the client's id, suitable for a
/// WebSocket text frame.
pub open spec fn spec_encode_inference_server_message(m: InferenceServerMessageView) -> Seq<
    char,
> {
    match m {
        InferenceServerMessageView::Error(e) => "{\"Error\":"@ + spec_encode_error_envelope(e)
            + "}"@,
        InferenceServerMessageView::Request(re) => "{\"Request\":{\"id\":"@ + spec_json_string(
            re.id,
        ) + ",\"request\":"@ + spec_encode_inference_request(re.request) + "}}"@,
    }
}

/// Decode one client-bound message.
pub open spec fn spec_decode_inference_server_message(t: Seq<char>) -> Option<(
    InferenceServerMessageView,
    Seq<char>,
)> {
    match spec_strip(t, "{\"Error\":"@) {
        Some(t1) => match spec_decode_error_envelope(t1) {
            Some(p) => match spec_strip(p.1, "}"@) {
                Some(t2) => Some((InferenceServerMessageView::Error(p.0), t2)),
                None => None,
            },
            None => None,
        },
        None => match spec_strip(t, "{\"Request\":{\"id\":"@) {
            Some(t1) => match spec_decode_string(t1) {
                Some(p1) => match spec_strip(p1.1, ",\"request\":"@) {
                    Some(t2) => match spec_decode_inference_request(t2) {
                        Some(p2) => match spec_strip(p2.1, "}}"@) {
                            Some(t3) => Some(
                                (
                                    InferenceServerMessageView::Request(
                                        InferenceRequestEnvelopeView {
                                            id: p1.0,
                                            request: p2.0,
                                        },
                                    ),
                                    t3,
                                ),
                            ),
                            None => None,
                        },
                        None => None,
                    },
                    None => None,
                },
                None => None,
            },
            None => None,
        },
    }
}

/// Law: the request-envelope codec round-trips. Encoding any client-bound
/// message and decoding the result yields the original.
pub proof fn lemma_decode_inference_server_message(m: InferenceServerMessageView, rest: Seq<char>)
    requires
        m matches InferenceServerMessageView::Error(e) ==> i32::MIN <= e.error.code <= i32::MAX,
    ensures
        spec_decode_inference_server_message(spec_encode_inference_server_message(m) + rest)
            == Some((m, rest)),
{
    reveal_strlit("{\"Error\":");
    reveal_strlit("{\"Request\":{\"id\":");
    reveal_strlit(",\"request\":");
    reveal_strlit("}");
    reveal_strlit("}}");
    let t = spec_encode_inference_server_message(m) + rest;
    match m {
        InferenceServerMessageView::Error(e) => {
            let k = "{\"Error\":"@;
            let r1 = spec_encode_error_envelope(e) + ("}"@ + rest);
            assert(t =~= k + r1);
            lemma_strip_concat(k, r1);
            lemma_decode_error_envelope(e, "}"@ + rest);
            lemma_strip_concat("}"@, rest);
        },
        InferenceServerMessageView::Request(re) => {
            assert(t[2] == 'R');
            lemma_strip_fail_at(t, "{\"Error\":"@, 2);
            let k1 = "{\"Request\":{\"id\":"@;
            let k2 = ",\"request\":"@;
            let e1 = spec_json_string(re.id);
            let e2 = spec_encode_inference_request(re.request);
            let r1 = e1 + (k2 + (e2 + ("}}"@ + rest)));
            assert(t =~= k1 + r1);
            lemma_strip_concat(k1, r1);
            lemma_decode_string(re.id, k2 + (e2 + ("}}"@ + rest)));
            lemma_strip_concat(k2, e2 + ("}}"@ + rest));
            lemma_decode_inference_request(re.request, "}}"@ + rest);
            lemma_strip_concat("}}"@, rest);
        },
    }
}


fn push_conversation_message(out: &mut Vec<char>, m: &ConversationMessage)
    ensures
        final(out)@ == old(out)@ + spec_encode_conversation_message(m@),
{
    push_lit(out, "{\"content\":");
    let content_chars = chars_of(m.content.as_str());
    push_json_string(out, &content_chars);
    push_lit(out, ",\"role\":");
    let role_chars = chars_of(m.role.as_str());
    push_json_string(out, &role_chars);
    push_lit(out, "}");
    proof {
        assert(out@ =~= old(out)@ + spec_encode_conversation_message(m@));
    }
}

fn push_tool(out: &mut Vec<char>, tool: &ToolDefinition<RawParametersSchema>)
    ensures
        final(out)@ == old(out)@ + spec_encode_tool(tool@),
{
    push_lit(out, "{\"name\":");
    let name_chars = chars_of(tool.name.as_str());
    push_json_string(out, &name_chars);
    push_lit(out, ",\"parameters_schema\":");
    let schema_chars = chars_of(tool.parameters_schema.schema.as_str());
    push_json_string(out, &schema_chars);
    push_lit(out, "}");
    proof {
        assert(out@ =~= old(out)@ + spec_encode_tool(tool@));
    }
}

proof fn lemma_encode_conversation_items_snoc(s: Seq<ConversationMessageView>)
    requires
        s.len() > 0,
    ensures
        s.len() == 1 ==> spec_encode_conversation_items(s) == spec_encode_conversation_message(
            s[0],
        ),
        s.len() > 1 ==> spec_encode_conversation_items(s) == spec_encode_conversation_items(
            s.drop_last(),
        ) + seq![','] + spec_encode_conversation_message(s.last()),
    decreases s.len(),
{
    if s.len() > 1 {
        lemma_encode_conversation_items_snoc(s.drop_first());
        assert(s.drop_first().drop_last() =~= s.drop_last().drop_first());
        if s.len() == 2 {
            assert(s.drop_last() =~= seq![s[0]]);
        } else {
            assert(s.drop_last()[0] == s[0]);
            assert(s.drop_last().len() > 1);
            assert(spec_encode_conversation_message(s[0]) + seq![','] + (
            spec_encode_conversation_items(s.drop_first().drop_last()) + seq![',']
                + spec_encode_conversation_message(s.last())) =~= (
            spec_encode_conversation_message(s[0]) + seq![','] + spec_encode_conversation_items(
                s.drop_first().drop_last(),
            )) + seq![','] + spec_encode_conversation_message(s.last()));
        }
    }
}

fn push_conversation_array(out: &mut Vec<char>, s: &Vec<ConversationMessage>)
    ensures
        final(out)@ == old(out)@ + spec_encode_conversation_array(
            Seq::new(s@.len(), |i: int| s@[i]@),
        ),
{
    let ghost view_seq = Seq::new(s@.len(), |i: int| s@[i]@);
    out.push('[');
    let n = s.len();
    let mut i: usize = 0;
    while i < n
        invariant
            n == s@.len(),
            view_seq == Seq::new(s@.len(), |j: int| s@[j]@),
            view_seq.len() == n,
            i <= n,
            out@ == old(out)@ + seq!['['] + spec_encode_conversation_items(
                view_seq.take(i as int),
            ) + (if 0 < i < n {
                seq![',']
            } else {
                Seq::<char>::empty()
            }),
        decreases n - i,
    {
        let ghost entry_point = out@;
        push_conversation_message(out, &s[i]);
        if i + 1 < n {
            out.push(',');
        }
        proof {
            lemma_encode_conversation_items_snoc(view_seq.take(i + 1));
            assert(view_seq.take(i + 1).drop_last() =~= view_seq.take(i as int));
            assert(view_seq.take(i + 1).last() == view_seq[i as int]);
            if i == 0 {
                assert(spec_encode_conversation_items(view_seq.take(0)) =~= Seq::<char>::empty());
            }
            let sep = if 0 < i {
                seq![',']
            } else {
                Seq::<char>::empty()
            };
            let pre = old(out)@ + seq!['['];
            assert(entry_point =~= pre + (spec_encode_conversation_items(view_seq.take(i as int))
                + sep));
            if i + 1 < n {
                assert(out@ =~= entry_point + spec_encode_conversation_message(view_seq[i as int])
                    + seq![',']);
                assert((spec_encode_conversation_items(view_seq.take(i as int)) + sep)
                    + spec_encode_conversation_message(view_seq[i as int]) + seq![','] =~= (
                spec_encode_conversation_items(view_seq.take(i + 1)) + seq![',']));
                assert(out@ =~= pre + ((spec_encode_conversation_items(view_seq.take(i as int))
                    + sep) + spec_encode_conversation_message(view_seq[i as int]) + seq![',']));
                assert(out@ == pre + (spec_encode_conversation_items(view_seq.take(i + 1))
                    + seq![',']));
                assert(pre + (spec_encode_conversation_items(view_seq.take(i + 1)) + seq![','])
                    =~= old(out)@ + seq!['['] + spec_encode_conversation_items(
                    view_seq.take(i + 1),
                ) + seq![',']);
            } else {
                assert(out@ =~= entry_point + spec_encode_conversation_message(
                    view_seq[i as int],
                ));
                assert((spec_encode_conversation_items(view_seq.take(i as int)) + sep)
                    + spec_encode_conversation_message(view_seq[i as int])
                    =~= spec_encode_conversation_items(view_seq.take(i + 1)));
                assert(out@ =~= pre + ((spec_encode_conversation_items(view_seq.take(i as int))
                    + sep) + spec_encode_conversation_message(view_seq[i as int])));
                assert(out@ == pre + spec_encode_conversation_items(view_seq.take(i + 1)));
                assert(pre + spec_encode_conversation_items(view_seq.take(i + 1)) =~= old(out)@
                    + seq!['['] + spec_encode_conversation_items(view_seq.take(i + 1)));
            }
        }
        i = i + 1;
    }
    out.push(']');
    proof {
        assert(view_seq.take(n as int) =~= view_seq);
        assert(out@ =~= old(out)@ + spec_encode_conversation_array(view_seq));
    }
}

proof fn lemma_encode_tool_items_snoc(s: Seq<ToolDefinitionView>)
    requires
        s.len() > 0,
    ensures
        s.len() == 1 ==> spec_encode_tool_items(s) == spec_encode_tool(s[0]),
        s.len() > 1 ==> spec_encode_tool_items(s) == spec_encode_tool_items(s.drop_last())
            + seq![','] + spec_encode_tool(s.last()),
    decreases s.len(),
{
    if s.len() > 1 {
        lemma_encode_tool_items_snoc(s.drop_first());
        assert(s.drop_first().drop_last() =~= s.drop_last().drop_first());
        if s.len() == 2 {
            assert(s.drop_last() =~= seq![s[0]]);
        } else {
            assert(s.drop_last()[0] == s[0]);
            assert(s.drop_last().len() > 1);
            assert(spec_encode_tool(s[0]) + seq![','] + (spec_encode_tool_items(
                s.drop_first().drop_last(),
            ) + seq![','] + spec_encode_tool(s.last())) =~= (spec_encode_tool(s[0]) + seq![',']
                + spec_encode_tool_items(s.drop_first().drop_last())) + seq![',']
                + spec_encode_tool(s.last()));
        }
    }
}

fn push_tool_array(out: &mut Vec<char>, s: &Vec<ToolDefinition<RawParametersSchema>>)
    ensures
        final(out)@ == old(out)@ + spec_encode_tool_array(Seq::new(s@.len(), |i: int| s@[i]@)),
{
    let ghost view_seq = Seq::new(s@.len(), |i: int| s@[i]@);
    out.push('[');
    let n = s.len();
    let mut i: usize = 0;
    while i < n
        invariant
            n == s@.len(),
            view_seq == Seq::new(s@.len(), |j: int| s@[j]@),
            view_seq.len() == n,
            i <= n,
            out@ == old(out)@ + seq!['['] + spec_encode_tool_items(view_seq.take(i as int)) + (
            if 0 < i < n {
                seq![',']
            } else {
                Seq::<char>::empty()
            }),
        decreases n - i,
    {
        let ghost entry_point = out@;
        push_tool(out, &s[i]);
        if i + 1 < n {
            out.push(',');
        }
        proof {
            lemma_encode_tool_items_snoc(view_seq.take(i + 1));
            assert(view_seq.take(i + 1).drop_last() =~= view_seq.take(i as int));
            assert(view_seq.take(i + 1).last() == view_seq[i as int]);
            if i == 0 {
                assert(spec_encode_tool_items(view_seq.take(0)) =~= Seq::<char>::empty());
            }
            let sep = if 0 < i {
                seq![',']
            } else {
                Seq::<char>::empty()
            };
            let pre = old(out)@ + seq!['['];
            assert(entry_point =~= pre + (spec_encode_tool_items(view_seq.take(i as int)) + sep));
            if i + 1 < n {
                assert(out@ =~= entry_point + spec_encode_tool(view_seq[i as int]) + seq![',']);
                assert((spec_encode_tool_items(view_seq.take(i as int)) + sep) + spec_encode_tool(
                    view_seq[i as int],
                ) + seq![','] =~= spec_encode_tool_items(view_seq.take(i + 1)) + seq![',']);
                assert(out@ =~= pre + ((spec_encode_tool_items(view_seq.take(i as int)) + sep)
                    + spec_encode_tool(view_seq[i as int]) + seq![',']));
                assert(out@ == pre + (spec_encode_tool_items(view_seq.take(i + 1)) + seq![',']));
                assert(pre + (spec_encode_tool_items(view_seq.take(i + 1)) + seq![',']) =~= old(
                    out,
                )@ + seq!['['] + spec_encode_tool_items(view_seq.take(i + 1)) + seq![',']);
            } else {
                assert(out@ =~= entry_point + spec_encode_tool(view_seq[i as int]));
                assert((spec_encode_tool_items(view_seq.take(i as int)) + sep) + spec_encode_tool(
                    view_seq[i as int],
                ) =~= spec_encode_tool_items(view_seq.take(i + 1)));
                assert(out@ =~= pre + ((spec_encode_tool_items(view_seq.take(i as int)) + sep)
                    + spec_encode_tool(view_seq[i as int])));
                assert(out@ == pre + spec_encode_tool_items(view_seq.take(i + 1)));
                assert(pre + spec_encode_tool_items(view_seq.take(i + 1)) =~= old(out)@
                    + seq!['['] + spec_encode_tool_items(view_seq.take(i + 1)));
            }
        }
        i = i + 1;
    }
    out.push(']');
    proof {
        assert(view_seq.take(n as int) =~= view_seq);
        assert(out@ =~= old(out)@ + spec_encode_tool_array(view_seq));
    }
}

fn push_inference_request(out: &mut Vec<char>, r: &Request)
    ensures
        final(out)@ == old(out)@ + spec_encode_inference_request(r@),
{
    match r {
        Request::ContinueFromConversationHistory(p) => {
            push_lit(out, "{\"ContinueFromConversationHistory\":");
            push_lit(out, "{\"conversation_history\":");
            push_conversation_array(out, &p.conversation_history);
            push_lit(out, ",\"max_tokens\":");
            push_u64(out, p.max_tokens as u64);
            push_lit(out, ",\"tools\":");
            push_tool_array(out, &p.tools);
            push_lit(out, "}");
            push_lit(out, "}");
        },
        Request::ContinueFromRawPrompt(p) => {
            push_lit(out, "{\"ContinueFromRawPrompt\":");
            push_lit(out, "{\"max_tokens\":");
            push_u64(out, p.max_tokens as u64);
            push_lit(out, ",\"raw_prompt\":");
            let prompt_chars = chars_of(p.raw_prompt.as_str());
            push_json_string(out, &prompt_chars);
            push_lit(out, "}");
            push_lit(out, "}");
        },
    }
    proof {
        assert(out@ =~= old(out)@ + spec_encode_inference_request(r@));
    }
}

/// Encode one client-bound message as a single line, suitable for a
/// WebSocket text frame.
pub fn encode_inference_server_message(m: &Message) -> (r: String)
    ensures
        r@ == spec_encode_inference_server_message(m@),
{
    let mut out: Vec<char> = Vec::new();
    match m {
        Message::Error(envelope) => {
            push_lit(&mut out, "{\"Error\":");
            crate::message_codec::push_error_envelope(&mut out, envelope);
            push_lit(&mut out, "}");
        },
        Message::Request(envelope) => {
            push_lit(&mut out, "{\"Request\":{\"id\":");
            let id_chars = chars_of(envelope.id.as_str());
            push_json_string(&mut out, &id_chars);
            push_lit(&mut out, ",\"request\":");
            push_inference_request(&mut out, &envelope.request);
            push_lit(&mut out, "}}");
        },
    }
    proof {
        assert(out@ =~= spec_encode_inference_server_message(m@));
    }
    string_of(&out)
}

fn dec_conversation_message(t: &Vec<char>, from: usize) -> (r: Option<(
    ConversationMessage,
    usize,
)>)
    requires
        from <= t@.len(),
    ensures
        match r {
            Some(p) => {
                &&& from < p.1 <= t@.len()
                &&& spec_decode_conversation_message(t@.skip(from as int)) == Some(
                    (p.0@, t@.skip(p.1 as int)),
                )
            },
            None => spec_decode_conversation_message(t@.skip(from as int)) is None,
        },
{
    let j1 = match strip_lit(t, from, "{\"content\":") {
        Some(j) => j,
        None => {
            return None;
        },
    };
    let (content, j2) = match decode_string(t, j1) {
        Some(p) => p,
        None => {
            return None;
        },
    };
    let j3 = match strip_lit(t, j2, ",\"role\":") {
        Some(j) => j,
        None => {
            return None;
        },
    };
    let (role, j4) = match decode_string(t, j3) {
        Some(p) => p,
        None => {
            return None;
        },
    };
    let j5 = match strip_lit(t, j4, "}") {
        Some(j) => j,
        None => {
            return None;
        },
    };
    Some((ConversationMessage { content: string_of(&content), role: string_of(&role) }, j5))
}

fn dec_tool(t: &Vec<char>, from: usize) -> (r: Option<(ToolDefinition<RawParametersSchema>, usize)>)
    requires
        from <= t@.len(),
    ensures
        match r {
            Some(p) => {
                &&& from < p.1 <= t@.len()
                &&& spec_decode_tool(t@.skip(from as int)) == Some((p.0@, t@.skip(p.1 as int)))
            },
            None => spec_decode_tool(t@.skip(from as int)) is None,
        },
{
    let j1 = match strip_lit(t, from, "{\"name\":") {
        Some(j) => j,
        None => {
            return None;
        },
    };
    let (name, j2) = match decode_string(t, j1) {
        Some(p) => p,
        None => {
            return None;
        },
    };
    let j3 = match strip_lit(t, j2, ",\"parameters_schema\":") {
        Some(j) => j,
        None => {
            return None;
        },
    };
    let (schema, j4) = match decode_string(t, j3) {
        Some(p) => p,
        None => {
            return None;
        },
    };
    let j5 = match strip_lit(t, j4, "}") {
        Some(j) => j,
        None => {
            return None;
        },
    };
    Some(
        (
            ToolDefinition {
                name: string_of(&name),
                parameters_schema: RawParametersSchema { schema: string_of(&schema) },
            },
            j5,
        ),
    )
}

fn dec_conversation_items(t: &Vec<char>, from: usize) -> (r: Option<(
    Vec<ConversationMessage>,
    usize,
)>)
    requires
        from <= t@.len(),
    ensures
        match r {
            Some(p) => {
                &&& from < p.1 <= t@.len()
                &&& spec_decode_conversation_items(t@.skip(from as int)) matches Some(q)
                &&& (spec_decode_conversation_items(t@.skip(from as int)) matches Some(q) ==> {
                    &&& q.1 == t@.skip(p.1 as int)
                    &&& q.0.len() == p.0@.len()
                    &&& forall|k: int| 0 <= k < q.0.len() ==> q.0[k] == p.0@[k]@
                })
            },
            None => spec_decode_conversation_items(t@.skip(from as int)) is None,
        },
    decreases t@.len() - from,
{
    let ghost tail = t@.skip(from as int);
    let (entry, end) = match dec_conversation_message(t, from) {
        Some(p) => p,
        None => {
            return None;
        },
    };
    proof {
        assert(t@.skip(end as int).len() < tail.len());
    }
    if end < t.len() && t[end] == ']' {
        proof {
            assert(t@.skip(end as int)[0] == ']');
            assert(t@.skip(end as int).skip(1) =~= t@.skip(end + 1));
        }
        let mut items: Vec<ConversationMessage> = Vec::new();
        items.push(entry);
        proof {
            let q = spec_decode_conversation_items(tail).unwrap();
            assert(q.0 =~= seq![items@[0]@]);
        }
        return Some((items, end + 1));
    }
    if end < t.len() && t[end] == ',' {
        proof {
            assert(t@.skip(end as int)[0] == ',');
            assert(t@.skip(end as int).skip(1) =~= t@.skip(end + 1));
        }
        match dec_conversation_items(t, end + 1) {
            Some((rest_items, after)) => {
                let mut items: Vec<ConversationMessage> = Vec::new();
                items.push(entry);
                let mut rest_items = rest_items;
                let ghost rest_view = rest_items@;
                items.append(&mut rest_items);
                proof {
                    assert(items@ =~= seq![items@[0]] + rest_view);
                    let q = spec_decode_conversation_items(tail).unwrap();
                    let q2 = spec_decode_conversation_items(t@.skip(end + 1)).unwrap();
                    assert(q.0 =~= seq![items@[0]@] + q2.0);
                    assert forall|k: int| 0 <= k < q.0.len() implies q.0[k] == items@[k]@ by {
                        if k > 0 {
                            assert(q2.0[k - 1] == rest_view[k - 1]@);
                        }
                    }
                }
                return Some((items, after));
            },
            None => {
                return None;
            },
        }
    }
    proof {
        if end < t@.len() {
            assert(t@.skip(end as int)[0] == t@[end as int]);
        }
    }
    None
}

fn dec_tool_items(t: &Vec<char>, from: usize) -> (r: Option<(
    Vec<ToolDefinition<RawParametersSchema>>,
    usize,
)>)
    requires
        from <= t@.len(),
    ensures
        match r {
            Some(p) => {
                &&& from < p.1 <= t@.len()
                &&& spec_decode_tool_items(t@.skip(from as int)) matches Some(q)
                &&& (spec_decode_tool_items(t@.skip(from as int)) matches Some(q) ==> {
                    &&& q.1 == t@.skip(p.1 as int)
                    &&& q.0.len() == p.0@.len()
                    &&& forall|k: int| 0 <= k < q.0.len() ==> q.0[k] == p.0@[k]@
                })
            },
            None => spec_decode_tool_items(t@.skip(from as int)) is None,
        },
    decreases t@.len() - from,
{
    let ghost tail = t@.skip(from as int);
    let (entry, end) = match dec_tool(t, from) {
        Some(p) => p,
        None => {
            return None;
        },
    };
    proof {
        assert(t@.skip(end as int).len() < tail.len());
    }
    if end < t.len() && t[end] == ']' {
        proof {
            assert(t@.skip(end as int)[0] == ']');
            assert(t@.skip(end as int).skip(1) =~= t@.skip(end + 1));
        }
        let mut items: Vec<ToolDefinition<RawParametersSchema>> = Vec::new();
        items.push(entry);
        proof {
            let q = spec_decode_tool_items(tail).unwrap();
            assert(q.0 =~= seq![items@[0]@]);
        }
        return Some((items, end + 1));
    }
    if end < t.len() && t[end] == ',' {
        proof {
            assert(t@.skip(end as int)[0] == ',');
            assert(t@.skip(end as int).skip(1) =~= t@.skip(end + 1));
        }
        match dec_tool_items(t, end + 1) {
            Some((rest_items, after)) => {
                let mut items: Vec<ToolDefinition<RawParametersSchema>> = Vec::new();
                items.push(entry);
                let mut rest_items = rest_items;
                let ghost rest_view = rest_items@;
                items.append(&mut rest_items);
                proof {
                    assert(items@ =~= seq![items@[0]] + rest_view);
                    let q = spec_decode_tool_items(tail).unwrap();
                    let q2 = spec_decode_tool_items(t@.skip(end + 1)).unwrap();
                    assert(q.0 =~= seq![items@[0]@] + q2.0);
                    assert forall|k: int| 0 <= k < q.0.len() implies q.0[k] == items@[k]@ by {
                        if k > 0 {
                            assert(q2.0[k - 1] == rest_view[k - 1]@);
                        }
                    }
                }
                return Some((items, after));
            },
            None => {
                return None;
            },
        }
    }
    proof {
        if end < t@.len() {
            assert(t@.skip(end as int)[0] == t@[end as int]);
        }
    }
    None
}

fn dec_conversation_array(t: &Vec<char>, from: usize) -> (r: Option<(
    Vec<ConversationMessage>,
    usize,
)>)
    requires
        from <= t@.len(),
    ensures
        match r {
            Some(p) => {
                &&& from < p.1 <= t@.len()
                &&& spec_decode_conversation_array(t@.skip(from as int)) == Some(
                    (Seq::new(p.0@.len(), |i: int| p.0@[i]@), t@.skip(p.1 as int)),
                )
            },
            None => spec_decode_conversation_array(t@.skip(from as int)) is None,
        },
{
    let ghost tail = t@.skip(from as int);
    if from >= t.len() || t[from] != '[' {
        proof {
            if tail.len() > 0 {
                assert(tail[0] == t@[from as int]);
            }
        }
        return None;
    }
    proof {
        assert(tail[0] == '[');
    }
    if from + 1 < t.len() && t[from + 1] == ']' {
        proof {
            assert(tail[1] == ']');
            assert(tail.skip(2) =~= t@.skip(from + 2));
        }
        let empty: Vec<ConversationMessage> = Vec::new();
        proof {
            assert(Seq::new(empty@.len(), |i: int| empty@[i]@)
                =~= Seq::<ConversationMessageView>::empty());
        }
        return Some((empty, from + 2));
    }
    proof {
        if from + 1 < t.len() {
            assert(tail[1] == t@[from + 1]);
        }
        assert(tail.skip(1) =~= t@.skip(from + 1));
    }
    match dec_conversation_items(t, from + 1) {
        Some((items, after)) => {
            proof {
                let q = spec_decode_conversation_items(t@.skip(from + 1)).unwrap();
                assert(Seq::new(items@.len(), |i: int| items@[i]@) =~= q.0);
            }
            Some((items, after))
        },
        None => None,
    }
}

fn dec_tool_array(t: &Vec<char>, from: usize) -> (r: Option<(
    Vec<ToolDefinition<RawParametersSchema>>,
    usize,
)>)
    requires
        from <= t@.len(),
    ensures
        match r {
            Some(p) => {
                &&& from < p.1 <= t@.len()
                &&& spec_decode_tool_array(t@.skip(from as int)) == Some(
                    (Seq::new(p.0@.len(), |i: int| p.0@[i]@), t@.skip(p.1 as int)),
                )
            },
            None => spec_decode_tool_array(t@.skip(from as int)) is None,
        },
{
    let ghost tail = t@.skip(from as int);
    if from >= t.len() || t[from] != '[' {
        proof {
            if tail.len() > 0 {
                assert(tail[0] == t@[from as int]);
            }
        }
        return None;
    }
    proof {
        assert(tail[0] == '[');
    }
    if from + 1 < t.len() && t[from + 1] == ']' {
        proof {
            assert(tail[1] == ']');
            assert(tail.skip(2) =~= t@.skip(from + 2));
        }
        let empty: Vec<ToolDefinition<RawParametersSchema>> = Vec::new();
        proof {
            assert(Seq::new(empty@.len(), |i: int| empty@[i]@)
                =~= Seq::<ToolDefinitionView>::empty());
        }
        return Some((empty, from + 2));
    }
    proof {
        if from + 1 < t.len() {
            assert(tail[1] == t@[from + 1]);
        }
        assert(tail.skip(1) =~= t@.skip(from + 1));
    }
    match dec_tool_items(t, from + 1) {
        Some((items, after)) => {
            proof {
                let q = spec_decode_tool_items(t@.skip(from + 1)).unwrap();
                assert(Seq::new(items@.len(), |i: int| items@[i]@) =~= q.0);
            }
            Some((items, after))
        },
        None => None,
    }
}

#[verifier::rlimit(100)]
fn dec_inference_request(t: &Vec<char>, from: usize) -> (r: Option<(Request, usize)>)
    requires
        from <= t@.len(),
    ensures
        match r {
            Some(p) => {
                &&& from <= p.1 <= t@.len()
                &&& spec_decode_inference_request(t@.skip(from as int)) == Some(
                    (p.0@, t@.skip(p.1 as int)),
                )
            },
            None => spec_decode_inference_request(t@.skip(from as int)) is None,
        },
{
    if let Some(j1) = strip_lit(t, from, "{\"ContinueFromConversationHistory\":") {
        let j2 = match strip_lit(t, j1, "{\"conversation_history\":") {
            Some(j) => j,
            None => {
                return None;
            },
        };
        let (history, j3) = match dec_conversation_array(t, j2) {
            Some(p) => p,
            None => {
                return None;
            },
        };
        let j4 = match strip_lit(t, j3, ",\"max_tokens\":") {
            Some(j) => j,
            None => {
                return None;
            },
        };
        let (max_tokens, j5) = match decode_number(t, j4) {
            Some(p) => p,
            None => {
                return None;
            },
        };
        if max_tokens > u32::MAX as u64 {
            return None;
        }
        let j6 = match strip_lit(t, j5, ",\"tools\":") {
            Some(j) => j,
            None => {
                return None;
            },
        };
        let (tools, j7) = match dec_tool_array(t, j6) {
            Some(p) => p,
            None => {
                return None;
            },
        };
        let j8 = match strip_lit(t, j7, "}") {
            Some(j) => j,
            None => {
                return None;
            },
        };
        let j9 = match strip_lit(t, j8, "}") {
            Some(j) => j,
            None => {
                return None;
            },
        };
        let params = ContinueFromConversationHistoryParams {
            conversation_history: history,
            max_tokens: max_tokens as u32,
            tools,
        };
        return Some((Request::ContinueFromConversationHistory(params), j9));
    }
    let j1 = match strip_lit(t, from, "{\"ContinueFromRawPrompt\":") {
        Some(j) => j,
        None => {
            return None;
        },
    };
    let j2 = match strip_lit(t, j1, "{\"max_tokens\":") {
        Some(j) => j,
        None => {
            return None;
        },
    };
    let (max_tokens, j3) = match decode_number(t, j2) {
        Some(p) => p,
        None => {
            return None;
        },
    };
    if max_tokens > u32::MAX as u64 {
        return None;
    }
    let j4 = match strip_lit(t, j3, ",\"raw_prompt\":") {
        Some(j) => j,
        None => {
            return None;
        },
    };
    let (prompt, j5) = match decode_string(t, j4) {
        Some(p) => p,
        None => {
            return None;
        },
    };
    let j6 = match strip_lit(t, j5, "}") {
        Some(j) => j,
        None => {
            return None;
        },
    };
    let j7 = match strip_lit(t, j6, "}") {
        Some(j) => j,
        None => {
            return None;
        },
    };
    let params = ContinueFromRawPromptParams {
        max_tokens: max_tokens as u32,
        raw_prompt: string_of(&prompt),
    };
    Some((Request::ContinueFromRawPrompt(params), j7))
}

/// Decode one client-bound message. Succeeds exactly on the canonical
/// single-line form with nothing trailing; anything else, unknown fields
/// included, is rejected.
pub fn decode_inference_server_message(input: &str) -> (r: Result<Message, Error>)
    ensures
        match r {
            Ok(m) => {
                &&& spec_decode_inference_server_message(input@) matches Some(p)
                &&& spec_decode_inference_server_message(input@) == Some(
                    (m@, Seq::<char>::empty()),
                )
            },
            Err(_) => !(spec_decode_inference_server_message(input@) matches Some(p)
                && p.1.len() == 0),
        },
{
    let t = chars_of(input);
    proof {
        assert(t@.skip(0) =~= input@);
    }
    if let Some(j1) = strip_lit(&t, 0, "{\"Error\":") {
        let (envelope, j2) = match crate::message_codec::dec_error_envelope(&t, j1) {
            Some(p) => p,
            None => {
                return Err(Error::Json(input.to_owned()));
            },
        };
        let j3 = match strip_lit(&t, j2, "}") {
            Some(j) => j,
            None => {
                return Err(Error::Json(input.to_owned()));
            },
        };
        if j3 == t.len() {
            proof {
                assert(t@.skip(j3 as int) =~= Seq::<char>::empty());
            }
            return Ok(Message::Error(envelope));
        }
        proof {
            assert(t@.skip(j3 as int).len() > 0);
        }
        return Err(Error::Json(input.to_owned()));
    }
    let j1 = match strip_lit(&t, 0, "{\"Request\":{\"id\":") {
        Some(j) => j,
        None => {
            return Err(Error::Json(input.to_owned()));
        },
    };
    let (id, j2) = match decode_string(&t, j1) {
        Some(p) => p,
        None => {
            return Err(Error::Json(input.to_owned()));
        },
    };
    let j3 = match strip_lit(&t, j2, ",\"request\":") {
        Some(j) => j,
        None => {
            return Err(Error::Json(input.to_owned()));
        },
    };
    let (request, j4) = match dec_inference_request(&t, j3) {
        Some(p) => p,
        None => {
            return Err(Error::Json(input.to_owned()));
        },
    };
    let j5 = match strip_lit(&t, j4, "}}") {
        Some(j) => j,
        None => {
            return Err(Error::Json(input.to_owned()));
        },
    };
    if j5 == t.len() {
        proof {
            assert(t@.skip(j5 as int) =~= Seq::<char>::empty());
        }
        Ok(Message::Request(RequestEnvelope { id: string_of(&id), request }))
    } else {
        proof {
            assert(t@.skip(j5 as int).len() > 0);
        }
        Err(Error::Json(input.to_owned()))
    }
}

/// Law: the request-envelope codec round-trips at top level: encoding
/// any client-bound message and decoding the result yields the original,
/// and only it.
pub proof fn lemma_inference_server_message_round_trip(m: InferenceServerMessageView)
    requires
        m matches InferenceServerMessageView::Error(e) ==> i32::MIN <= e.error.code <= i32::MAX,
    ensures
        spec_decode_inference_server_message(spec_encode_inference_server_message(m)) == Some(
            (m, Seq::<char>::empty()),
        ),
{
    lemma_decode_inference_server_message(m, Seq::<char>::empty());
    assert(spec_encode_inference_server_message(m) + Seq::<char>::empty()
        =~= spec_encode_inference_server_message(m));
}

} // verus!
