//! The wire codec for the agent control channel: the tagged JSON forms
//! of every message an agent sends the balancer, encoded and decoded by
//! verified functions, with decoding proved to invert encoding. The
//! decoders accept exactly the canonical single-line form the encoders
//! write, so a document with an unknown field, reordered fields or extra
//! whitespace is rejected.

use vstd::prelude::*;

use crate::agent_rpc::AgentMessageView;
use crate::agent_rpc::AgentResponseEnvelopeView;
use crate::agent_rpc::AgentResponseView;
use crate::agent_rpc::Message;
use crate::agent_rpc::ModelMetadata;
use crate::agent_rpc::ModelMetadataView;
use crate::agent_rpc::Notification;
use crate::agent_rpc::NotificationView;
use crate::agent_rpc::Response;
use crate::agents::SlotAggregatedStatusSnapshot;
use crate::agents::SlotSnapshotEntry;
use crate::agents::SlotSnapshotEntryView;
use crate::agents::SlotState;
use crate::agents::UpdateAgentStatusParams;
use crate::codec::decode_number;
use crate::codec::decode_string;
use crate::codec::lemma_decode_number;
use crate::codec::lemma_decode_string;
use crate::codec::lemma_strip_concat;
use crate::codec::lemma_strip_fail_at;
use crate::codec::push_json_string;
use crate::codec::push_lit;
use crate::codec::spec_decode_number;
use crate::codec::spec_decode_string;
use crate::codec::spec_json_string;
use crate::codec::spec_strip;
use crate::codec::strip_lit;
use crate::error::Error;
use crate::jsonrpc::ResponseEnvelope;
use crate::json::push_u64;
use crate::json::spec_u64_digits;
use crate::message_codec::spec_decode_embedding_result;
use crate::message_codec::spec_decode_token_result;
use crate::message_codec::spec_encode_embedding_result;
use crate::message_codec::spec_encode_token_result;
use crate::message_codec::lemma_decode_embedding_result;
use crate::message_codec::lemma_decode_token_result;
use crate::message_codec::spec_decode_error_envelope;
use crate::message_codec::spec_encode_error_envelope;
use crate::message_codec::lemma_decode_error_envelope;
use crate::text::chars_of;
use crate::text::string_of;

verus! {

/// The canonical form of one slot's reported state.
pub open spec fn spec_encode_slot_state(s: SlotState) -> Seq<char> {
    match s {
        SlotState::Idle => "\"Idle\""@,
        SlotState::Busy => "\"Busy\""@,
        SlotState::SlotError => "\"SlotError\""@,
    }
}

/// Decode one slot's reported state.
pub open spec fn spec_decode_slot_state(t: Seq<char>) -> Option<(SlotState, Seq<char>)> {
    match spec_strip(t, "\"Idle\""@) {
        Some(t1) => Some((SlotState::Idle, t1)),
        None => match spec_strip(t, "\"Busy\""@) {
            Some(t1) => Some((SlotState::Busy, t1)),
            None => match spec_strip(t, "\"SlotError\""@) {
                Some(t1) => Some((SlotState::SlotError, t1)),
                None => None,
            },
        },
    }
}

/// Law: decoding a canonical slot state yields the original.
pub proof fn lemma_decode_slot_state(s: SlotState, rest: Seq<char>)
    ensures
        spec_decode_slot_state(spec_encode_slot_state(s) + rest) == Some((s, rest)),
{
    reveal_strlit("\"Idle\"");
    reveal_strlit("\"Busy\"");
    reveal_strlit("\"SlotError\"");
    let t = spec_encode_slot_state(s) + rest;
    match s {
        SlotState::Idle => {
            lemma_strip_concat("\"Idle\""@, rest);
        },
        SlotState::Busy => {
            assert(t[1] == 'B');
            lemma_strip_fail_at(t, "\"Idle\""@, 1);
            lemma_strip_concat("\"Busy\""@, rest);
        },
        SlotState::SlotError => {
            assert(t[1] == 'S');
            lemma_strip_fail_at(t, "\"Idle\""@, 1);
            lemma_strip_fail_at(t, "\"Busy\""@, 1);
            lemma_strip_concat("\"SlotError\""@, rest);
        },
    }
}

/// The canonical form of one slot snapshot entry.
pub open spec fn spec_encode_slot_entry(e: SlotSnapshotEntryView) -> Seq<char> {
    "{\"state\":"@ + spec_encode_slot_state(e.state) + ",\"model_id\":"@ + spec_json_string(
        e.model_id,
    ) + ",\"last_update_millis\":"@ + spec_u64_digits(e.last_update_millis as nat) + "}"@
}

/// Decode one slot snapshot entry.
pub open spec fn spec_decode_slot_entry(t: Seq<char>) -> Option<(
    SlotSnapshotEntryView,
    Seq<char>,
)> {
    match spec_strip(t, "{\"state\":"@) {
        Some(t1) => match spec_decode_slot_state(t1) {
            Some(p1) => match spec_strip(p1.1, ",\"model_id\":"@) {
                Some(t2) => match spec_decode_string(t2) {
                    Some(p2) => match spec_strip(p2.1, ",\"last_update_millis\":"@) {
                        Some(t3) => match spec_decode_number(t3) {
                            Some(p3) => if p3.0 > u64::MAX as nat {
                                None
                            } else {
                                match spec_strip(p3.1, "}"@) {
                                    Some(t4) => Some(
                                        (
                                            SlotSnapshotEntryView {
                                                state: p1.0,
                                                model_id: p2.0,
                                                last_update_millis: p3.0 as u64,
                                            },
                                            t4,
                                        ),
                                    ),
                                    None => None,
                                }
                            },
                            None => None,
                        },
                        None => None,
                    },
                    None => None,
                },
                None => None,
            },
            None => None,
        },
        None => None,
    }
}

/// Law: decoding a canonical slot entry yields the original.
pub proof fn lemma_decode_slot_entry(e: SlotSnapshotEntryView, rest: Seq<char>)
    ensures
        spec_decode_slot_entry(spec_encode_slot_entry(e) + rest) == Some((e, rest)),
{
    reveal_strlit(",\"model_id\":");
    reveal_strlit(",\"last_update_millis\":");
    reveal_strlit("}");
    let k1 = "{\"state\":"@;
    let k2 = ",\"model_id\":"@;
    let k3 = ",\"last_update_millis\":"@;
    let e1 = spec_encode_slot_state(e.state);
    let e2 = spec_json_string(e.model_id);
    let e3 = spec_u64_digits(e.last_update_millis as nat);
    let t = spec_encode_slot_entry(e) + rest;
    let r1 = e1 + (k2 + (e2 + (k3 + (e3 + ("}"@ + rest)))));
    assert(t =~= k1 + r1);
    lemma_strip_concat(k1, r1);
    lemma_decode_slot_state(e.state, k2 + (e2 + (k3 + (e3 + ("}"@ + rest)))));
    lemma_strip_concat(k2, e2 + (k3 + (e3 + ("}"@ + rest))));
    lemma_decode_string(e.model_id, k3 + (e3 + ("}"@ + rest)));
    lemma_strip_concat(k3, e3 + ("}"@ + rest));
    lemma_decode_number(e.last_update_millis as nat, "}"@ + rest);
    lemma_strip_concat("}"@, rest);
}

/// The canonical items of a slot array (no brackets).
pub open spec fn spec_encode_slot_items(s: Seq<SlotSnapshotEntryView>) -> Seq<char>
    decreases s.len(),
{
    if s.len() == 0 {
        Seq::<char>::empty()
    } else if s.len() == 1 {
        spec_encode_slot_entry(s[0])
    } else {
        spec_encode_slot_entry(s[0]) + seq![','] + spec_encode_slot_items(s.drop_first())
    }
}

/// The canonical JSON array of slot entries.
pub open spec fn spec_encode_slot_array(s: Seq<SlotSnapshotEntryView>) -> Seq<char> {
    seq!['['] + spec_encode_slot_items(s) + seq![']']
}

/// Parse the items of a non-empty slot array, closing bracket included.
pub open spec fn spec_decode_slot_items(t: Seq<char>) -> Option<(
    Seq<SlotSnapshotEntryView>,
    Seq<char>,
)>
    decreases t.len(),
{
    match spec_decode_slot_entry(t) {
        Some(p) => if p.1.len() >= t.len() {
            None
        } else if p.1.len() > 0 && p.1[0] == ']' {
            Some((seq![p.0], p.1.skip(1)))
        } else if p.1.len() > 0 && p.1[0] == ',' {
            match spec_decode_slot_items(p.1.skip(1)) {
                Some(q) => Some((seq![p.0] + q.0, q.1)),
                None => None,
            }
        } else {
            None
        },
        None => None,
    }
}

/// Parse a JSON array of slot entries.
pub open spec fn spec_decode_slot_array(t: Seq<char>) -> Option<(
    Seq<SlotSnapshotEntryView>,
    Seq<char>,
)> {
    if t.len() >= 2 && t[0] == '[' && t[1] == ']' {
        Some((Seq::<SlotSnapshotEntryView>::empty(), t.skip(2)))
    } else if t.len() >= 1 && t[0] == '[' {
        spec_decode_slot_items(t.skip(1))
    } else {
        None
    }
}

#[verifier::rlimit(100)]
proof fn lemma_decode_slot_items(s: Seq<SlotSnapshotEntryView>, rest: Seq<char>)
    requires
        s.len() > 0,
    ensures
        spec_decode_slot_items(spec_encode_slot_items(s) + seq![']'] + rest) == Some((s, rest)),
    decreases s.len(),
{
    let t = spec_encode_slot_items(s) + seq![']'] + rest;
    if s.len() == 1 {
        assert(t =~= spec_encode_slot_entry(s[0]) + (seq![']'] + rest));
        lemma_decode_slot_entry(s[0], seq![']'] + rest);
        assert((seq![']'] + rest)[0] == ']');
        assert((seq![']'] + rest).skip(1) =~= rest);
        assert(seq![s[0]] =~= s);
    } else {
        let s2 = s.drop_first();
        lemma_decode_slot_items(s2, rest);
        let t2 = spec_encode_slot_items(s2) + seq![']'] + rest;
        assert(t =~= spec_encode_slot_entry(s[0]) + (seq![','] + t2));
        lemma_decode_slot_entry(s[0], seq![','] + t2);
        assert((seq![','] + t2)[0] == ',');
        assert((seq![','] + t2).skip(1) =~= t2);
        assert(t2.len() < t.len());
        assert(seq![s[0]] + s2 =~= s);
    }
}

/// Law: decoding a canonical slot array yields the original entries.
pub proof fn lemma_decode_slot_array(s: Seq<SlotSnapshotEntryView>, rest: Seq<char>)
    ensures
        spec_decode_slot_array(spec_encode_slot_array(s) + rest) == Some((s, rest)),
{
    reveal_strlit("{\"state\":");
    let t = spec_encode_slot_array(s) + rest;
    assert(t[0] == '[');
    if s.len() == 0 {
        assert(spec_encode_slot_items(s) =~= Seq::<char>::empty());
        assert(t =~= seq!['[', ']'] + rest);
        assert(t[1] == ']');
        assert(t.skip(2) =~= rest);
    } else {
        lemma_decode_slot_items(s, rest);
        assert(t.skip(1) =~= spec_encode_slot_items(s) + seq![']'] + rest);
        assert(t[1] == '{');
    }
}

/// The canonical form of a status notification's parameters.
pub open spec fn spec_encode_status_params(s: Seq<SlotSnapshotEntryView>) -> Seq<char> {
    "{\"slot_aggregated_status_snapshot\":{\"slots\":"@ + spec_encode_slot_array(s) + "}}"@
}

/// Decode a status notification's parameters.
pub open spec fn spec_decode_status_params(t: Seq<char>) -> Option<(
    Seq<SlotSnapshotEntryView>,
    Seq<char>,
)> {
    match spec_strip(t, "{\"slot_aggregated_status_snapshot\":{\"slots\":"@) {
        Some(t1) => match spec_decode_slot_array(t1) {
            Some(p) => match spec_strip(p.1, "}}"@) {
                Some(t2) => Some((p.0, t2)),
                None => None,
            },
            None => None,
        },
        None => None,
    }
}

/// Law: decoding canonical status parameters yields the original.
pub proof fn lemma_decode_status_params(s: Seq<SlotSnapshotEntryView>, rest: Seq<char>)
    ensures
        spec_decode_status_params(spec_encode_status_params(s) + rest) == Some((s, rest)),
{
    reveal_strlit("}}");
    let k = "{\"slot_aggregated_status_snapshot\":{\"slots\":"@;
    let t = spec_encode_status_params(s) + rest;
    let r1 = spec_encode_slot_array(s) + ("}}"@ + rest);
    assert(t =~= k + r1);
    lemma_strip_concat(k, r1);
    lemma_decode_slot_array(s, "}}"@ + rest);
    lemma_strip_concat("}}"@, rest);
}

/// The canonical form of an agent's response payload.
pub open spec fn spec_encode_agent_response(r: AgentResponseView) -> Seq<char> {
    match r {
        AgentResponseView::ChatTemplateOverride(t) => "{\"ChatTemplateOverride\":"@ + (match t {
            Some(c) => crate::codec::spec_encode_chat_template(c),
            None => "null"@,
        }) + "}"@,
        AgentResponseView::Embedding(er) => "{\"Embedding\":"@ + spec_encode_embedding_result(er)
            + "}"@,
        AgentResponseView::GeneratedToken(tr) => "{\"GeneratedToken\":"@
            + spec_encode_token_result(tr) + "}"@,
        AgentResponseView::ModelMetadata(m) => "{\"ModelMetadata\":"@ + (match m {
            Some(mm) => "{\"model_name\":"@ + spec_json_string(mm.model_name) + "}"@,
            None => "null"@,
        }) + "}"@,
    }
}

/// Decode an agent's response payload.
pub open spec fn spec_decode_agent_response(t: Seq<char>) -> Option<(
    AgentResponseView,
    Seq<char>,
)> {
    match spec_strip(t, "{\"ChatTemplateOverride\":"@) {
        Some(t1) => match crate::codec::spec_decode_opt_template(t1) {
            Some(p) => match spec_strip(p.1, "}"@) {
                Some(t2) => Some((AgentResponseView::ChatTemplateOverride(p.0), t2)),
                None => None,
            },
            None => None,
        },
        None => match spec_strip(t, "{\"Embedding\":"@) {
            Some(t1) => match spec_decode_embedding_result(t1) {
                Some(p) => match spec_strip(p.1, "}"@) {
                    Some(t2) => Some((AgentResponseView::Embedding(p.0), t2)),
                    None => None,
                },
                None => None,
            },
            None => match spec_strip(t, "{\"GeneratedToken\":"@) {
                Some(t1) => match spec_decode_token_result(t1) {
                    Some(p) => match spec_strip(p.1, "}"@) {
                        Some(t2) => Some((AgentResponseView::GeneratedToken(p.0), t2)),
                        None => None,
                    },
                    None => None,
                },
                None => match spec_strip(t, "{\"ModelMetadata\":"@) {
                    Some(t1) => match spec_strip(t1, "null"@) {
                        Some(t2) => match spec_strip(t2, "}"@) {
                            Some(t3) => Some(
                                (AgentResponseView::ModelMetadata(None), t3),
                            ),
                            None => None,
                        },
                        None => match spec_strip(t1, "{\"model_name\":"@) {
                            Some(t2) => match spec_decode_string(t2) {
                                Some(p) => match spec_strip(p.1, "}}"@) {
                                    Some(t3) => Some(
                                        (
                                            AgentResponseView::ModelMetadata(
                                                Some(
                                                    ModelMetadataView { model_name: p.0 },
                                                ),
                                            ),
                                            t3,
                                        ),
                                    ),
                                    None => None,
                                },
                                None => None,
                            },
                            None => None,
                        },
                    },
                    None => None,
                },
            },
        },
    }
}

/// Law: decoding a canonical agent response payload yields the original.
pub proof fn lemma_decode_agent_response(r: AgentResponseView, rest: Seq<char>)
    ensures
        spec_decode_agent_response(spec_encode_agent_response(r) + rest) == Some((r, rest)),
{
    reveal_strlit("{\"ChatTemplateOverride\":");
    reveal_strlit("{\"Embedding\":");
    reveal_strlit("{\"GeneratedToken\":");
    reveal_strlit("{\"ModelMetadata\":");
    reveal_strlit("{\"model_name\":");
    reveal_strlit("null");
    reveal_strlit("{\"content\":");
    reveal_strlit("}");
    reveal_strlit("}}");
    let t = spec_encode_agent_response(r) + rest;
    match r {
        AgentResponseView::ChatTemplateOverride(ct) => {
            let k = "{\"ChatTemplateOverride\":"@;
            let body = crate::codec::spec_encode_opt_template(ct);
            let r1 = body + ("}"@ + rest);
            assert(t =~= k + r1);
            lemma_strip_concat(k, r1);
            crate::codec::lemma_decode_opt_template(ct, "}"@ + rest);
            lemma_strip_concat("}"@, rest);
        },
        AgentResponseView::Embedding(er) => {
            assert(t[2] == 'E');
            lemma_strip_fail_at(t, "{\"ChatTemplateOverride\":"@, 2);
            let k = "{\"Embedding\":"@;
            let r1 = spec_encode_embedding_result(er) + ("}"@ + rest);
            assert(t =~= k + r1);
            lemma_strip_concat(k, r1);
            lemma_decode_embedding_result(er, "}"@ + rest);
            lemma_strip_concat("}"@, rest);
        },
        AgentResponseView::GeneratedToken(tr) => {
            assert(t[2] == 'G');
            lemma_strip_fail_at(t, "{\"ChatTemplateOverride\":"@, 2);
            lemma_strip_fail_at(t, "{\"Embedding\":"@, 2);
            let k = "{\"GeneratedToken\":"@;
            let r1 = spec_encode_token_result(tr) + ("}"@ + rest);
            assert(t =~= k + r1);
            lemma_strip_concat(k, r1);
            lemma_decode_token_result(tr, "}"@ + rest);
            lemma_strip_concat("}"@, rest);
        },
        AgentResponseView::ModelMetadata(m) => {
            assert(t[2] == 'M');
            lemma_strip_fail_at(t, "{\"ChatTemplateOverride\":"@, 2);
            lemma_strip_fail_at(t, "{\"Embedding\":"@, 2);
            lemma_strip_fail_at(t, "{\"GeneratedToken\":"@, 2);
            let k = "{\"ModelMetadata\":"@;
            match m {
                None => {
                    let r1 = "null"@ + ("}"@ + rest);
                    assert(t =~= k + r1);
                    lemma_strip_concat(k, r1);
                    lemma_strip_concat("null"@, "}"@ + rest);
                    lemma_strip_concat("}"@, rest);
                },
                Some(mm) => {
                    let k2 = "{\"model_name\":"@;
                    let r1 = k2 + (spec_json_string(mm.model_name) + ("}}"@ + rest));
                    assert(t =~= k + r1);
                    lemma_strip_concat(k, r1);
                    assert(r1[0] == '{');
                    lemma_strip_fail_at(r1, "null"@, 0);
                    lemma_strip_concat(k2, spec_json_string(mm.model_name) + ("}}"@ + rest));
                    lemma_decode_string(mm.model_name, "}}"@ + rest);
                    lemma_strip_concat("}}"@, rest);
                },
            }
        },
    }
}

/// The canonical single-line form of one agent-channel message, as a
/// tagged union suitable for a WebSocket text frame.
pub open spec fn spec_encode_agent_message(m: AgentMessageView) -> Seq<char> {
    match m {
        AgentMessageView::Error(e) => "{\"Error\":"@ + spec_encode_error_envelope(e) + "}"@,
        AgentMessageView::Notification(NotificationView::UpdateAgentStatus(s)) =>
            "{\"Notification\":{\"UpdateAgentStatus\":"@ + spec_encode_status_params(s) + "}}"@,
        AgentMessageView::Response(re) => "{\"Response\":{\"request_id\":"@ + spec_json_string(
            re.request_id,
        ) + ",\"response\":"@ + spec_encode_agent_response(re.response) + "}}"@,
    }
}

/// Decode one agent-channel message.
pub open spec fn spec_decode_agent_message(t: Seq<char>) -> Option<(
    AgentMessageView,
    Seq<char>,
)> {
    match spec_strip(t, "{\"Error\":"@) {
        Some(t1) => match spec_decode_error_envelope(t1) {
            Some(p) => match spec_strip(p.1, "}"@) {
                Some(t2) => Some((AgentMessageView::Error(p.0), t2)),
                None => None,
            },
            None => None,
        },
        None => match spec_strip(t, "{\"Notification\":{\"UpdateAgentStatus\":"@) {
            Some(t1) => match spec_decode_status_params(t1) {
                Some(p) => match spec_strip(p.1, "}}"@) {
                    Some(t2) => Some(
                        (
                            AgentMessageView::Notification(
                                NotificationView::UpdateAgentStatus(p.0),
                            ),
                            t2,
                        ),
                    ),
                    None => None,
                },
                None => None,
            },
            None => match spec_strip(t, "{\"Response\":{\"request_id\":"@) {
                Some(t1) => match spec_decode_string(t1) {
                    Some(p1) => match spec_strip(p1.1, ",\"response\":"@) {
                        Some(t2) => match spec_decode_agent_response(t2) {
                            Some(p2) => match spec_strip(p2.1, "}}"@) {
                                Some(t3) => Some(
                                    (
                                        AgentMessageView::Response(
                                            AgentResponseEnvelopeView {
                                                request_id: p1.0,
                                                response: p2.0,
                                            },
                                        ),
                                        t3,
                                    ),
                                ),
                                None => None,
                            },
                            None => None,
                        },
                        None => None,
                    },
                    None => None,
                },
                None => None,
            },
        },
    }
}

/// Law: the agent-channel codec round-trips. Encoding any agent message
/// and decoding the result yields the original.
pub proof fn lemma_decode_agent_message(m: AgentMessageView, rest: Seq<char>)
    requires
        m matches AgentMessageView::Error(e) ==> i32::MIN <= e.error.code <= i32::MAX,
    ensures
        spec_decode_agent_message(spec_encode_agent_message(m) + rest) == Some((m, rest)),
{
    reveal_strlit("{\"Error\":");
    reveal_strlit("{\"Notification\":{\"UpdateAgentStatus\":");
    reveal_strlit("{\"Response\":{\"request_id\":");
    reveal_strlit(",\"response\":");
    reveal_strlit("}");
    reveal_strlit("}}");
    let t = spec_encode_agent_message(m) + rest;
    match m {
        AgentMessageView::Error(e) => {
            let k = "{\"Error\":"@;
            let r1 = spec_encode_error_envelope(e) + ("}"@ + rest);
            assert(t =~= k + r1);
            lemma_strip_concat(k, r1);
            lemma_decode_error_envelope(e, "}"@ + rest);
            lemma_strip_concat("}"@, rest);
        },
        AgentMessageView::Notification(NotificationView::UpdateAgentStatus(s)) => {
            assert(t[2] == 'N');
            lemma_strip_fail_at(t, "{\"Error\":"@, 2);
            let k = "{\"Notification\":{\"UpdateAgentStatus\":"@;
            let r1 = spec_encode_status_params(s) + ("}}"@ + rest);
            assert(t =~= k + r1);
            lemma_strip_concat(k, r1);
            lemma_decode_status_params(s, "}}"@ + rest);
            lemma_strip_concat("}}"@, rest);
        },
        AgentMessageView::Response(re) => {
            assert(t[2] == 'R');
            lemma_strip_fail_at(t, "{\"Error\":"@, 2);
            lemma_strip_fail_at(t, "{\"Notification\":{\"UpdateAgentStatus\":"@, 2);
            let k1 = "{\"Response\":{\"request_id\":"@;
            let k2 = ",\"response\":"@;
            let e1 = spec_json_string(re.request_id);
            let e2 = spec_encode_agent_response(re.response);
            let r1 = e1 + (k2 + (e2 + ("}}"@ + rest)));
            assert(t =~= k1 + r1);
            lemma_strip_concat(k1, r1);
            lemma_decode_string(re.request_id, k2 + (e2 + ("}}"@ + rest)));
            lemma_strip_concat(k2, e2 + ("}}"@ + rest));
            lemma_decode_agent_response(re.response, "}}"@ + rest);
            lemma_strip_concat("}}"@, rest);
        },
    }
}


fn push_slot_state(out: &mut Vec<char>, s: &SlotState)
    ensures
        final(out)@ == old(out)@ + spec_encode_slot_state(*s),
{
    match s {
        SlotState::Idle => push_lit(out, "\"Idle\""),
        SlotState::Busy => push_lit(out, "\"Busy\""),
        SlotState::SlotError => push_lit(out, "\"SlotError\""),
    }
}

fn push_slot_entry(out: &mut Vec<char>, e: &SlotSnapshotEntry)
    ensures
        final(out)@ == old(out)@ + spec_encode_slot_entry(e@),
{
    push_lit(out, "{\"state\":");
    push_slot_state(out, &e.state);
    push_lit(out, ",\"model_id\":");
    let model_chars = chars_of(e.model_id.as_str());
    push_json_string(out, &model_chars);
    push_lit(out, ",\"last_update_millis\":");
    push_u64(out, e.last_update_millis);
    push_lit(out, "}");
    proof {
        assert(out@ =~= old(out)@ + spec_encode_slot_entry(e@));
    }
}

/// Extending an item prefix appends one entry, with the separating comma
/// staying with the prefix form.
proof fn lemma_encode_slot_items_snoc(s: Seq<SlotSnapshotEntryView>)
    requires
        s.len() > 0,
    ensures
        s.len() == 1 ==> spec_encode_slot_items(s) == spec_encode_slot_entry(s[0]),
        s.len() > 1 ==> spec_encode_slot_items(s) == spec_encode_slot_items(s.drop_last())
            + seq![','] + spec_encode_slot_entry(s.last()),
    decreases s.len(),
{
    if s.len() > 1 {
        lemma_encode_slot_items_snoc(s.drop_first());
        assert(s.drop_first().drop_last() =~= s.drop_last().drop_first());
        if s.len() == 2 {
            assert(s.drop_last() =~= seq![s[0]]);
        } else {
            assert(s.drop_last()[0] == s[0]);
            assert(s.drop_last().len() > 1);
            assert(spec_encode_slot_entry(s[0]) + seq![','] + (spec_encode_slot_items(
                s.drop_first().drop_last(),
            ) + seq![','] + spec_encode_slot_entry(s.last())) =~= (spec_encode_slot_entry(s[0])
                + seq![','] + spec_encode_slot_items(s.drop_first().drop_last())) + seq![',']
                + spec_encode_slot_entry(s.last()));
        }
    }
}

fn push_slot_array(out: &mut Vec<char>, s: &SlotAggregatedStatusSnapshot)
    ensures
        final(out)@ == old(out)@ + spec_encode_slot_array(s@),
{
    out.push('[');
    let n = s.slots.len();
    proof {
        assert(s@.len() == n);
    }
    let mut i: usize = 0;
    while i < n
        invariant
            n == s.slots@.len(),
            n == s@.len(),
            forall|j: int| 0 <= j < n ==> s@[j] == s.slots@[j]@,
            i <= n,
            out@ == old(out)@ + seq!['['] + spec_encode_slot_items(s@.take(i as int)) + (
            if 0 < i < n {
                seq![',']
            } else {
                Seq::<char>::empty()
            }),
        decreases n - i,
    {
        let ghost entry_point = out@;
        push_slot_entry(out, &s.slots[i]);
        if i + 1 < n {
            out.push(',');
        }
        proof {
            lemma_encode_slot_items_snoc(s@.take(i + 1));
            assert(s@.take(i + 1).drop_last() =~= s@.take(i as int));
            assert(s@.take(i + 1).last() == s@[i as int]);
            if i == 0 {
                assert(spec_encode_slot_items(s@.take(0)) =~= Seq::<char>::empty());
            }
            let sep = if 0 < i {
                seq![',']
            } else {
                Seq::<char>::empty()
            };
            let pre = old(out)@ + seq!['['];
            assert(entry_point =~= pre + (spec_encode_slot_items(s@.take(i as int)) + sep));
            if i + 1 < n {
                assert(out@ =~= entry_point + spec_encode_slot_entry(s@[i as int]) + seq![',']);
                assert((spec_encode_slot_items(s@.take(i as int)) + sep) + spec_encode_slot_entry(
                    s@[i as int],
                ) + seq![','] =~= spec_encode_slot_items(s@.take(i + 1)) + seq![',']);
                assert(out@ =~= pre + ((spec_encode_slot_items(s@.take(i as int)) + sep)
                    + spec_encode_slot_entry(s@[i as int]) + seq![',']));
                assert(out@ == pre + (spec_encode_slot_items(s@.take(i + 1)) + seq![',']));
                assert(pre + (spec_encode_slot_items(s@.take(i + 1)) + seq![',']) =~= old(out)@
                    + seq!['['] + spec_encode_slot_items(s@.take(i + 1)) + seq![',']);
            } else {
                assert(out@ =~= entry_point + spec_encode_slot_entry(s@[i as int]));
                assert((spec_encode_slot_items(s@.take(i as int)) + sep) + spec_encode_slot_entry(
                    s@[i as int],
                ) =~= spec_encode_slot_items(s@.take(i + 1)));
                assert(out@ =~= pre + ((spec_encode_slot_items(s@.take(i as int)) + sep)
                    + spec_encode_slot_entry(s@[i as int])));
                assert(out@ == pre + spec_encode_slot_items(s@.take(i + 1)));
                assert(pre + spec_encode_slot_items(s@.take(i + 1)) =~= old(out)@ + seq!['[']
                    + spec_encode_slot_items(s@.take(i + 1)));
            }
        }
        i = i + 1;
    }
    out.push(']');
    proof {
        assert(s@.take(n as int) =~= s@);
        assert(out@ =~= old(out)@ + spec_encode_slot_array(s@));
    }
}

fn push_agent_response(out: &mut Vec<char>, r: &Response)
    ensures
        final(out)@ == old(out)@ + spec_encode_agent_response(r@),
{
    match r {
        Response::ChatTemplateOverride(t) => {
            push_lit(out, "{\"ChatTemplateOverride\":");
            crate::codec::push_opt_template(out, t);
            push_lit(out, "}");
        },
        Response::Embedding(er) => {
            push_lit(out, "{\"Embedding\":");
            crate::message_codec::push_embedding_result(out, er);
            push_lit(out, "}");
        },
        Response::GeneratedToken(tr) => {
            push_lit(out, "{\"GeneratedToken\":");
            crate::message_codec::push_token_result(out, tr);
            push_lit(out, "}");
        },
        Response::ModelMetadata(m) => {
            push_lit(out, "{\"ModelMetadata\":");
            match m {
                Some(mm) => {
                    push_lit(out, "{\"model_name\":");
                    let name_chars = chars_of(mm.model_name.as_str());
                    push_json_string(out, &name_chars);
                    push_lit(out, "}");
                },
                None => push_lit(out, "null"),
            }
            push_lit(out, "}");
        },
    }
    proof {
        assert(out@ =~= old(out)@ + spec_encode_agent_response(r@));
    }
}

/// Encode one agent-channel message as a single line, suitable for a
/// WebSocket text frame.
pub fn encode_agent_message(m: &Message) -> (r: String)
    ensures
        r@ == spec_encode_agent_message(m@),
{
    let mut out: Vec<char> = Vec::new();
    match m {
        Message::Error(envelope) => {
            push_lit(&mut out, "{\"Error\":");
            crate::message_codec::push_error_envelope(&mut out, envelope);
            push_lit(&mut out, "}");
        },
        Message::Notification(Notification::UpdateAgentStatus(params)) => {
            push_lit(&mut out, "{\"Notification\":{\"UpdateAgentStatus\":");
            push_lit(&mut out, "{\"slot_aggregated_status_snapshot\":{\"slots\":");
            push_slot_array(&mut out, &params.slot_aggregated_status_snapshot);
            push_lit(&mut out, "}}");
            push_lit(&mut out, "}}");
        },
        Message::Response(envelope) => {
            push_lit(&mut out, "{\"Response\":{\"request_id\":");
            let id_chars = chars_of(envelope.request_id.as_str());
            push_json_string(&mut out, &id_chars);
            push_lit(&mut out, ",\"response\":");
            push_agent_response(&mut out, &envelope.response);
            push_lit(&mut out, "}}");
        },
    }
    proof {
        assert(out@ =~= spec_encode_agent_message(m@));
    }
    string_of(&out)
}

fn dec_slot_state(t: &Vec<char>, from: usize) -> (r: Option<(SlotState, usize)>)
    requires
        from <= t@.len(),
    ensures
        match r {
            Some(p) => {
                &&& from <= p.1 <= t@.len()
                &&& spec_decode_slot_state(t@.skip(from as int)) == Some(
                    (p.0, t@.skip(p.1 as int)),
                )
            },
            None => spec_decode_slot_state(t@.skip(from as int)) is None,
        },
{
    if let Some(j) = strip_lit(t, from, "\"Idle\"") {
        return Some((SlotState::Idle, j));
    }
    if let Some(j) = strip_lit(t, from, "\"Busy\"") {
        return Some((SlotState::Busy, j));
    }
    if let Some(j) = strip_lit(t, from, "\"SlotError\"") {
        return Some((SlotState::SlotError, j));
    }
    None
}

fn dec_slot_entry(t: &Vec<char>, from: usize) -> (r: Option<(SlotSnapshotEntry, usize)>)
    requires
        from <= t@.len(),
    ensures
        match r {
            Some(p) => {
                &&& from < p.1 <= t@.len()
                &&& spec_decode_slot_entry(t@.skip(from as int)) == Some(
                    (p.0@, t@.skip(p.1 as int)),
                )
            },
            None => spec_decode_slot_entry(t@.skip(from as int)) is None,
        },
{
    let j1 = match strip_lit(t, from, "{\"state\":") {
        Some(j) => j,
        None => {
            return None;
        },
    };
    let (state, j2) = match dec_slot_state(t, j1) {
        Some(p) => p,
        None => {
            return None;
        },
    };
    let j3 = match strip_lit(t, j2, ",\"model_id\":") {
        Some(j) => j,
        None => {
            return None;
        },
    };
    let (model_id, j4) = match decode_string(t, j3) {
        Some(p) => p,
        None => {
            return None;
        },
    };
    let j5 = match strip_lit(t, j4, ",\"last_update_millis\":") {
        Some(j) => j,
        None => {
            return None;
        },
    };
    let (millis, j6) = match decode_number(t, j5) {
        Some(p) => p,
        None => {
            return None;
        },
    };
    let j7 = match strip_lit(t, j6, "}") {
        Some(j) => j,
        None => {
            return None;
        },
    };
    Some(
        (
            SlotSnapshotEntry {
                state,
                model_id: string_of(&model_id),
                last_update_millis: millis,
            },
            j7,
        ),
    )
}

fn dec_slot_items(t: &Vec<char>, from: usize) -> (r: Option<(Vec<SlotSnapshotEntry>, usize)>)
    requires
        from <= t@.len(),
    ensures
        match r {
            Some(p) => {
                &&& from < p.1 <= t@.len()
                &&& spec_decode_slot_items(t@.skip(from as int)) matches Some(q)
                &&& (spec_decode_slot_items(t@.skip(from as int)) matches Some(q) ==> {
                    &&& q.1 == t@.skip(p.1 as int)
                    &&& q.0.len() == p.0@.len()
                    &&& forall|k: int| 0 <= k < q.0.len() ==> q.0[k] == p.0@[k]@
                })
            },
            None => spec_decode_slot_items(t@.skip(from as int)) is None,
        },
    decreases t@.len() - from,
{
    let ghost tail = t@.skip(from as int);
    let (entry, end) = match dec_slot_entry(t, from) {
        Some(p) => p,
        None => {
            return None;
        },
    };
    proof {
        assert(t@.skip(end as int).len() < tail.len());
    }
    if end < t.len() && t[end] == ']' {
        proof {
            assert(t@.skip(end as int)[0] == ']');
            assert(t@.skip(end as int).skip(1) =~= t@.skip(end + 1));
        }
        let mut items: Vec<SlotSnapshotEntry> = Vec::new();
        items.push(entry);
        proof {
            let q = spec_decode_slot_items(tail).unwrap();
            assert(q.0 =~= seq![items@[0]@]);
        }
        return Some((items, end + 1));
    }
    if end < t.len() && t[end] == ',' {
        proof {
            assert(t@.skip(end as int)[0] == ',');
            assert(t@.skip(end as int).skip(1) =~= t@.skip(end + 1));
        }
        match dec_slot_items(t, end + 1) {
            Some((rest_items, after)) => {
                let mut items: Vec<SlotSnapshotEntry> = Vec::new();
                items.push(entry);
                let mut rest_items = rest_items;
                let ghost rest_view = rest_items@;
                items.append(&mut rest_items);
                proof {
                    assert(items@ =~= seq![items@[0]] + rest_view);
                    let q = spec_decode_slot_items(tail).unwrap();
                    let q2 = spec_decode_slot_items(t@.skip(end + 1)).unwrap();
                    assert(q.0 =~= seq![items@[0]@] + q2.0);
                    assert forall|k: int| 0 <= k < q.0.len() implies q.0[k] == items@[k]@ by {
                        if k > 0 {
                            assert(q2.0[k - 1] == rest_view[k - 1]@);
                        }
                    }
                }
                return Some((items, after));
            },
            None => {
                return None;
            },
        }
    }
    proof {
        if end < t@.len() {
            assert(t@.skip(end as int)[0] == t@[end as int]);
        }
    }
    None
}

fn dec_slot_array(t: &Vec<char>, from: usize) -> (r: Option<(SlotAggregatedStatusSnapshot, usize)>)
    requires
        from <= t@.len(),
    ensures
        match r {
            Some(p) => {
                &&& from < p.1 <= t@.len()
                &&& spec_decode_slot_array(t@.skip(from as int)) == Some(
                    (p.0@, t@.skip(p.1 as int)),
                )
            },
            None => spec_decode_slot_array(t@.skip(from as int)) is None,
        },
{
    let ghost tail = t@.skip(from as int);
    if from >= t.len() || t[from] != '[' {
        proof {
            if tail.len() > 0 {
                assert(tail[0] == t@[from as int]);
            }
        }
        return None;
    }
    proof {
        assert(tail[0] == '[');
    }
    if from + 1 < t.len() && t[from + 1] == ']' {
        proof {
            assert(tail[1] == ']');
            assert(tail.skip(2) =~= t@.skip(from + 2));
        }
        let empty = SlotAggregatedStatusSnapshot { slots: Vec::new() };
        proof {
            assert(empty@ =~= Seq::<SlotSnapshotEntryView>::empty());
        }
        return Some((empty, from + 2));
    }
    proof {
        if from + 1 < t.len() {
            assert(tail[1] == t@[from + 1]);
        }
        assert(tail.skip(1) =~= t@.skip(from + 1));
    }
    match dec_slot_items(t, from + 1) {
        Some((items, after)) => {
            let snapshot = SlotAggregatedStatusSnapshot { slots: items };
            proof {
                let q = spec_decode_slot_items(t@.skip(from + 1)).unwrap();
                assert(snapshot@ =~= q.0);
            }
            Some((snapshot, after))
        },
        None => None,
    }
}

#[verifier::rlimit(100)]
fn dec_agent_response(t: &Vec<char>, from: usize) -> (r: Option<(Response, usize)>)
    requires
        from <= t@.len(),
    ensures
        match r {
            Some(p) => {
                &&& from <= p.1 <= t@.len()
                &&& spec_decode_agent_response(t@.skip(from as int)) == Some(
                    (p.0@, t@.skip(p.1 as int)),
                )
            },
            None => spec_decode_agent_response(t@.skip(from as int)) is None,
        },
{
    if let Some(j1) = strip_lit(t, from, "{\"ChatTemplateOverride\":") {
        let (template, j2) = match crate::codec::dec_opt_template(t, j1) {
            Some(p) => p,
            None => {
                return None;
            },
        };
        let j3 = match strip_lit(t, j2, "}") {
            Some(j) => j,
            None => {
                return None;
            },
        };
        return Some((Response::ChatTemplateOverride(template), j3));
    }
    if let Some(j1) = strip_lit(t, from, "{\"Embedding\":") {
        let (er, j2) = match crate::message_codec::dec_embedding_result(t, j1) {
            Some(p) => p,
            None => {
                return None;
            },
        };
        let j3 = match strip_lit(t, j2, "}") {
            Some(j) => j,
            None => {
                return None;
            },
        };
        return Some((Response::Embedding(er), j3));
    }
    if let Some(j1) = strip_lit(t, from, "{\"GeneratedToken\":") {
        let (tr, j2) = match crate::message_codec::dec_token_result(t, j1) {
            Some(p) => p,
            None => {
                return None;
            },
        };
        let j3 = match strip_lit(t, j2, "}") {
            Some(j) => j,
            None => {
                return None;
            },
        };
        return Some((Response::GeneratedToken(tr), j3));
    }
    let j1 = match strip_lit(t, from, "{\"ModelMetadata\":") {
        Some(j) => j,
        None => {
            return None;
        },
    };
    if let Some(j2) = strip_lit(t, j1, "null") {
        let j3 = match strip_lit(t, j2, "}") {
            Some(j) => j,
            None => {
                return None;
            },
        };
        return Some((Response::ModelMetadata(None), j3));
    }
    let j2 = match strip_lit(t, j1, "{\"model_name\":") {
        Some(j) => j,
        None => {
            return None;
        },
    };
    let (name, j3) = match decode_string(t, j2) {
        Some(p) => p,
        None => {
            return None;
        },
    };
    let j4 = match strip_lit(t, j3, "}}") {
        Some(j) => j,
        None => {
            return None;
        },
    };
    Some((Response::ModelMetadata(Some(ModelMetadata { model_name: string_of(&name) })), j4))
}

/// Decode one agent-channel message. Succeeds exactly on the canonical
/// single-line form with nothing trailing; anything else, unknown fields
/// included, is rejected.
pub fn decode_agent_message(input: &str) -> (r: Result<Message, Error>)
    ensures
        match r {
            Ok(m) => {
                &&& spec_decode_agent_message(input@) matches Some(p)
                &&& spec_decode_agent_message(input@) == Some((m@, Seq::<char>::empty()))
            },
            Err(_) => !(spec_decode_agent_message(input@) matches Some(p) && p.1.len() == 0),
        },
{
    let t = chars_of(input);
    proof {
        assert(t@.skip(0) =~= input@);
    }
    if let Some(j1) = strip_lit(&t, 0, "{\"Error\":") {
        let (envelope, j2) = match crate::message_codec::dec_error_envelope(&t, j1) {
            Some(p) => p,
            None => {
                return Err(Error::Json(input.to_owned()));
            },
        };
        let j3 = match strip_lit(&t, j2, "}") {
            Some(j) => j,
            None => {
                return Err(Error::Json(input.to_owned()));
            },
        };
        if j3 == t.len() {
            proof {
                assert(t@.skip(j3 as int) =~= Seq::<char>::empty());
            }
            return Ok(Message::Error(envelope));
        }
        proof {
            assert(t@.skip(j3 as int).len() > 0);
        }
        return Err(Error::Json(input.to_owned()));
    }
    if let Some(j1) = strip_lit(&t, 0, "{\"Notification\":{\"UpdateAgentStatus\":") {
        let j2 = match strip_lit(&t, j1, "{\"slot_aggregated_status_snapshot\":{\"slots\":") {
            Some(j) => j,
            None => {
                return Err(Error::Json(input.to_owned()));
            },
        };
        let (snapshot, j3) = match dec_slot_array(&t, j2) {
            Some(p) => p,
            None => {
                return Err(Error::Json(input.to_owned()));
            },
        };
        let j4 = match strip_lit(&t, j3, "}}") {
            Some(j) => j,
            None => {
                return Err(Error::Json(input.to_owned()));
            },
        };
        let j5 = match strip_lit(&t, j4, "}}") {
            Some(j) => j,
            None => {
                return Err(Error::Json(input.to_owned()));
            },
        };
        if j5 == t.len() {
            proof {
                assert(t@.skip(j5 as int) =~= Seq::<char>::empty());
            }
            return Ok(
                Message::Notification(
                    Notification::UpdateAgentStatus(
                        UpdateAgentStatusParams { slot_aggregated_status_snapshot: snapshot },
                    ),
                ),
            );
        }
        proof {
            assert(t@.skip(j5 as int).len() > 0);
        }
        return Err(Error::Json(input.to_owned()));
    }
    let j1 = match strip_lit(&t, 0, "{\"Response\":{\"request_id\":") {
        Some(j) => j,
        None => {
            return Err(Error::Json(input.to_owned()));
        },
    };
    let (request_id, j2) = match decode_string(&t, j1) {
        Some(p) => p,
        None => {
            return Err(Error::Json(input.to_owned()));
        },
    };
    let j3 = match strip_lit(&t, j2, ",\"response\":") {
        Some(j) => j,
        None => {
            return Err(Error::Json(input.to_owned()));
        },
    };
    let (response, j4) = match dec_agent_response(&t, j3) {
        Some(p) => p,
        None => {
            return Err(Error::Json(input.to_owned()));
        },
    };
    let j5 = match strip_lit(&t, j4, "}}") {
        Some(j) => j,
        None => {
            return Err(Error::Json(input.to_owned()));
        },
    };
    if j5 == t.len() {
        proof {
            assert(t@.skip(j5 as int) =~= Seq::<char>::empty());
        }
        Ok(
            Message::Response(
                ResponseEnvelope { request_id: string_of(&request_id), response },
            ),
        )
    } else {
        proof {
            assert(t@.skip(j5 as int).len() > 0);
        }
        Err(Error::Json(input.to_owned()))
    }
}

/// Law: the agent-channel codec round-trips at top level: encoding any
/// agent message and decoding the result yields the original, and only
/// it.
pub proof fn lemma_agent_message_round_trip(m: AgentMessageView)
    requires
        m matches AgentMessageView::Error(e) ==> i32::MIN <= e.error.code <= i32::MAX,
    ensures
        spec_decode_agent_message(spec_encode_agent_message(m)) == Some(
            (m, Seq::<char>::empty()),
        ),
{
    lemma_decode_agent_message(m, Seq::<char>::empty());
    assert(spec_encode_agent_message(m) + Seq::<char>::empty() =~= spec_encode_agent_message(m));
}

} // verus!
