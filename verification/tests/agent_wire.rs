use paddler::agent_codec::decode_agent_message;
use paddler::agent_codec::encode_agent_message;
use paddler::agent_rpc::Message;
use paddler::agent_rpc::ModelMetadata;
use paddler::agent_rpc::Notification;
use paddler::agent_rpc::Response;
use paddler::agents::SlotAggregatedStatusSnapshot;
use paddler::agents::SlotSnapshotEntry;
use paddler::agents::SlotState;
use paddler::agents::UpdateAgentStatusParams;
use paddler::inference_client::GeneratedTokenResult;
use paddler::jsonrpc::ErrorEnvelope;
use paddler::jsonrpc::JsonRpcError;
use paddler::jsonrpc::ResponseEnvelope;
use paddler::state::ChatTemplate;

fn status_message(slots: Vec<SlotSnapshotEntry>) -> Message {
    Message::Notification(Notification::UpdateAgentStatus(UpdateAgentStatusParams {
        slot_aggregated_status_snapshot: SlotAggregatedStatusSnapshot { slots },
    }))
}

#[test]
fn test_status_notification_round_trip() {
    let message = status_message(vec![
        SlotSnapshotEntry {
            state: SlotState::Idle,
            model_id: "llama".to_string(),
            last_update_millis: 17,
        },
        SlotSnapshotEntry {
            state: SlotState::Busy,
            model_id: "llama".to_string(),
            last_update_millis: 18,
        },
        SlotSnapshotEntry {
            state: SlotState::SlotError,
            model_id: "other".to_string(),
            last_update_millis: 19,
        },
    ]);
    let encoded = encode_agent_message(&message);

    assert_eq!(decode_agent_message(&encoded).unwrap(), message);
}

#[test]
fn test_empty_status_notification_round_trip() {
    let message = status_message(Vec::new());
    let encoded = encode_agent_message(&message);

    assert_eq!(
        encoded,
        "{\"Notification\":{\"UpdateAgentStatus\":\
         {\"slot_aggregated_status_snapshot\":{\"slots\":[]}}}}"
    );
    assert_eq!(decode_agent_message(&encoded).unwrap(), message);
}

#[test]
fn test_agent_response_payloads_round_trip() {
    for response in [
        Response::ChatTemplateOverride(None),
        Response::ChatTemplateOverride(Some(ChatTemplate {
            content: "{{ messages }}".to_string(),
        })),
        Response::GeneratedToken(GeneratedTokenResult::Token("Par".to_string())),
        Response::GeneratedToken(GeneratedTokenResult::Done),
        Response::ModelMetadata(None),
        Response::ModelMetadata(Some(ModelMetadata {
            model_name: "llama-3".to_string(),
        })),
    ] {
        let message = Message::Response(ResponseEnvelope {
            request_id: "req-1".to_string(),
            response,
        });
        let encoded = encode_agent_message(&message);
        assert_eq!(decode_agent_message(&encoded).unwrap(), message);
    }
}

#[test]
fn test_agent_error_envelope_round_trip() {
    let message = Message::Error(ErrorEnvelope {
        request_id: None,
        error: JsonRpcError {
            code: -7,
            description: "slot crashed".to_string(),
        },
    });
    let encoded = encode_agent_message(&message);

    assert_eq!(decode_agent_message(&encoded).unwrap(), message);
}

#[test]
fn test_agent_message_decoding_rejects_malformed_input() {
    assert!(decode_agent_message("").is_err());
    assert!(decode_agent_message("{\"Request\":{}}").is_err());

    let mut trailing = encode_agent_message(&status_message(Vec::new()));
    trailing.push('!');
    assert!(decode_agent_message(&trailing).is_err());
}
