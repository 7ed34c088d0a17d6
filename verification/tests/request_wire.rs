use paddler::inference_server::ContinueFromConversationHistoryParams;
use paddler::inference_server::ContinueFromRawPromptParams;
use paddler::inference_server::ConversationMessage;
use paddler::inference_server::Message;
use paddler::inference_server::RawParametersSchema;
use paddler::inference_server::Request;
use paddler::inference_server::ToolDefinition;
use paddler::jsonrpc::ErrorEnvelope;
use paddler::jsonrpc::JsonRpcError;
use paddler::jsonrpc::RequestEnvelope;
use paddler::request_codec::decode_inference_server_message;
use paddler::request_codec::encode_inference_server_message;

fn raw_prompt_envelope(id: &str, prompt: &str, max_tokens: u32) -> Message {
    Message::Request(RequestEnvelope {
        id: id.to_string(),
        request: Request::ContinueFromRawPrompt(ContinueFromRawPromptParams {
            max_tokens,
            raw_prompt: prompt.to_string(),
        }),
    })
}

#[test]
fn test_raw_prompt_envelope_round_trip() {
    let message = raw_prompt_envelope("req-1", "The capital of France is", 16);
    let encoded = encode_inference_server_message(&message);

    assert_eq!(decode_inference_server_message(&encoded).unwrap(), message);
}

#[test]
fn test_raw_prompt_envelope_canonical_text() {
    let message = raw_prompt_envelope("r", "hi", 4);

    assert_eq!(
        encode_inference_server_message(&message),
        "{\"Request\":{\"id\":\"r\",\"request\":\
         {\"ContinueFromRawPrompt\":{\"max_tokens\":4,\"raw_prompt\":\"hi\"}}}}"
    );
}

#[test]
fn test_conversation_history_envelope_round_trip() {
    let message = Message::Request(RequestEnvelope {
        id: "req-2".to_string(),
        request: Request::ContinueFromConversationHistory(ContinueFromConversationHistoryParams {
            conversation_history: vec![
                ConversationMessage {
                    content: "You are a helpful assistant.".to_string(),
                    role: "system".to_string(),
                },
                ConversationMessage {
                    content: "What is \"RMS\"?".to_string(),
                    role: "user".to_string(),
                },
            ],
            max_tokens: 128,
            tools: vec![ToolDefinition {
                name: "lookup".to_string(),
                parameters_schema: RawParametersSchema {
                    schema: "{\"type\":\"object\"}".to_string(),
                },
            }],
        }),
    });
    let encoded = encode_inference_server_message(&message);

    assert_eq!(decode_inference_server_message(&encoded).unwrap(), message);
}

#[test]
fn test_empty_history_and_tools_round_trip() {
    let message = Message::Request(RequestEnvelope {
        id: "req-3".to_string(),
        request: Request::ContinueFromConversationHistory(ContinueFromConversationHistoryParams {
            conversation_history: Vec::new(),
            max_tokens: 1,
            tools: Vec::new(),
        }),
    });
    let encoded = encode_inference_server_message(&message);

    assert_eq!(decode_inference_server_message(&encoded).unwrap(), message);
}

#[test]
fn test_client_error_envelope_round_trip() {
    let message = Message::Error(ErrorEnvelope {
        request_id: Some("req-4".to_string()),
        error: JsonRpcError {
            code: 11,
            description: "client-side detail".to_string(),
        },
    });
    let encoded = encode_inference_server_message(&message);

    assert_eq!(decode_inference_server_message(&encoded).unwrap(), message);
}

#[test]
fn test_request_decoding_rejects_unknown_fields_and_garbage() {
    assert!(decode_inference_server_message("").is_err());
    assert!(decode_inference_server_message("{\"Notification\":{}}").is_err());
    assert!(decode_inference_server_message(
        "{\"Request\":{\"id\":\"r\",\"request\":\
         {\"ContinueFromRawPrompt\":{\"max_tokens\":4,\"raw_prompt\":\"hi\",\"extra\":1}}}}"
    )
    .is_err());

    let mut trailing = encode_inference_server_message(&raw_prompt_envelope("r", "hi", 4));
    trailing.push(' ');
    assert!(decode_inference_server_message(&trailing).is_err());
}
