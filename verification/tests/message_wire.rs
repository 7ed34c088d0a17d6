use paddler::embedding::Embedding;
use paddler::embedding::EmbeddingNormalizationMethod;
use paddler::embedding::PoolingType;
use paddler::inference_client::EmbeddingResult;
use paddler::inference_client::GeneratedTokenResult;
use paddler::inference_client::Message;
use paddler::inference_client::Response;
use paddler::jsonrpc::ErrorEnvelope;
use paddler::jsonrpc::JsonRpcError;
use paddler::jsonrpc::ResponseEnvelope;
use paddler::message_codec::decode_message;
use paddler::message_codec::encode_message;

fn token_message(id: &str, token: &str) -> Message {
    Message::Response(ResponseEnvelope {
        request_id: id.to_string(),
        response: Response::GeneratedToken(GeneratedTokenResult::Token(token.to_string())),
    })
}

#[test]
fn test_token_message_round_trip() {
    let message = token_message("req-1", "Par\nis \"quoted\"");
    let encoded = encode_message(&message);
    let decoded = decode_message(&encoded).unwrap();

    assert_eq!(decoded, message);
}

#[test]
fn test_token_message_canonical_text() {
    let message = token_message("r", "hi");

    assert_eq!(
        encode_message(&message),
        "{\"Response\":{\"request_id\":\"r\",\"response\":{\"GeneratedToken\":{\"Token\":\"hi\"}}}}"
    );
}

#[test]
fn test_done_and_control_payload_round_trips() {
    for response in [
        Response::GeneratedToken(GeneratedTokenResult::Done),
        Response::Embedding(EmbeddingResult::Done),
        Response::Embedding(EmbeddingResult::Error("engine failed".to_string())),
        Response::Timeout,
        Response::TooManyBufferedRequests,
    ] {
        let message = Message::Response(ResponseEnvelope {
            request_id: "req-2".to_string(),
            response,
        });
        let encoded = encode_message(&message);
        assert_eq!(decode_message(&encoded).unwrap(), message);
    }
}

#[test]
fn test_embedding_message_round_trip() {
    let message = Message::Response(ResponseEnvelope {
        request_id: "req-3".to_string(),
        response: Response::Embedding(EmbeddingResult::Embedding(Embedding {
            embedding: vec![0.5_f32.to_bits(), (-1.25_f32).to_bits(), 0],
            normalization_method: EmbeddingNormalizationMethod::RmsNorm {
                epsilon_bits: 1e-6_f32.to_bits(),
            },
            pooling_type: PoolingType::Mean,
            source_document_id: "doc-7".to_string(),
        })),
    });
    let encoded = encode_message(&message);

    assert_eq!(decode_message(&encoded).unwrap(), message);
}

#[test]
fn test_empty_embedding_vector_round_trip() {
    let message = Message::Response(ResponseEnvelope {
        request_id: "req-4".to_string(),
        response: Response::Embedding(EmbeddingResult::Embedding(Embedding {
            embedding: Vec::new(),
            normalization_method: EmbeddingNormalizationMethod::NoNormalization,
            pooling_type: PoolingType::Cls,
            source_document_id: "empty".to_string(),
        })),
    });
    let encoded = encode_message(&message);

    assert_eq!(decode_message(&encoded).unwrap(), message);
}

#[test]
fn test_error_envelope_round_trip() {
    for request_id in [Some("req-5".to_string()), None] {
        let message = Message::Error(ErrorEnvelope {
            request_id,
            error: JsonRpcError {
                code: -32000,
                description: "connection dropped".to_string(),
            },
        });
        let encoded = encode_message(&message);
        assert_eq!(decode_message(&encoded).unwrap(), message);
    }
}

#[test]
fn test_message_decoding_rejects_unknown_fields_and_garbage() {
    assert!(decode_message("").is_err());
    assert!(decode_message("{}").is_err());
    assert!(decode_message("{\"Notification\":{}}").is_err());
    assert!(decode_message(
        "{\"Response\":{\"request_id\":\"r\",\"response\":\"Timeout\",\"extra\":1}}"
    )
    .is_err());

    let mut trailing = encode_message(&token_message("r", "t"));
    trailing.push('x');
    assert!(decode_message(&trailing).is_err());
}
