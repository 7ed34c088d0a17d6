use paddler::agent_rpc::handle_agent_message;
use paddler::agent_rpc::AgentSocketAction;
use paddler::agent_rpc::ModelMetadata;
use paddler::agents::reconcile_agent;
use paddler::agents::AgentController;
use paddler::agents::ReconcileAction;
use paddler::embedding::Embedding;
use paddler::embedding::EmbeddingNormalizationMethod;
use paddler::embedding::PoolingType;
use paddler::inference_client::is_terminal_message;
use paddler::inference_client::EmbeddingResult;
use paddler::inference_client::GeneratedTokenResult;
use paddler::inference_client::Message;
use paddler::inference_client::Response;
use paddler::inference_server::handle_inference_socket_message;
use paddler::inference_server::is_json_value;
use paddler::inference_server::ContinuationDecision;
use paddler::inference_server::ContinueFromConversationHistoryParams;
use paddler::inference_server::ContinueFromRawPromptParams;
use paddler::inference_server::InferenceSocketAction;
use paddler::inference_server::RawParametersSchema;
use paddler::inference_server::ToolDefinition;
use paddler::jsonrpc::ErrorEnvelope;
use paddler::jsonrpc::JsonRpcError;
use paddler::jsonrpc::RequestEnvelope;
use paddler::jsonrpc::ResponseEnvelope;
use paddler::sender_collection::GenerateTokensSenderCollection;
use paddler::sender_collection::SendOutcome;
use paddler::state::AgentDesiredModel;
use paddler::state::AgentDesiredState;
use paddler::state::BalancerDesiredState;
use paddler::state::ChatTemplate;
use paddler::state::InferenceParameters;

fn embedding(id: &str) -> Embedding {
    Embedding {
        embedding: vec![1.0_f32.to_bits()],
        normalization_method: EmbeddingNormalizationMethod::NoNormalization,
        pooling_type: PoolingType::Mean,
        source_document_id: id.to_string(),
    }
}

#[test]
fn test_terminal_predicate_over_response_family() {
    let id = "r".to_string();
    let wrap = |response: Response| {
        Message::Response(ResponseEnvelope {
            request_id: id.clone(),
            response,
        })
    };

    assert!(!is_terminal_message(&wrap(Response::GeneratedToken(
        GeneratedTokenResult::Token("a".to_string())
    ))));
    assert!(is_terminal_message(&wrap(Response::GeneratedToken(
        GeneratedTokenResult::Done
    ))));
    assert!(!is_terminal_message(&wrap(Response::Embedding(
        EmbeddingResult::Embedding(embedding("d"))
    ))));
    assert!(is_terminal_message(&wrap(Response::Embedding(
        EmbeddingResult::Done
    ))));
    assert!(is_terminal_message(&wrap(Response::Embedding(
        EmbeddingResult::Error("engine failed".to_string())
    ))));
    assert!(is_terminal_message(&wrap(Response::Timeout)));
    assert!(is_terminal_message(&wrap(Response::TooManyBufferedRequests)));
    assert!(is_terminal_message(&Message::Error(ErrorEnvelope {
        request_id: Some(id),
        error: JsonRpcError {
            code: -1,
            description: "boom".to_string(),
        },
    })));
}

#[test]
fn test_client_error_envelope_is_logged_and_session_continues() {
    let message = paddler::inference_server::Message::Error(ErrorEnvelope {
        request_id: Some("r1".to_string()),
        error: JsonRpcError {
            code: 7,
            description: "client-side detail".to_string(),
        },
    });

    let (action, decision) = handle_inference_socket_message(message);

    assert_eq!(decision, ContinuationDecision::Continue);
    match action {
        InferenceSocketAction::LogClientError {
            request_id,
            code,
            description,
        } => {
            assert_eq!(request_id.as_deref(), Some("r1"));
            assert_eq!(code, 7);
            assert_eq!(description, "client-side detail");
        }
        other => panic!("expected a logged error, got {other:?}"),
    }
}

#[test]
fn test_raw_prompt_request_is_submitted_unchanged() {
    let message = paddler::inference_server::Message::Request(RequestEnvelope {
        id: "req-9".to_string(),
        request: paddler::inference_server::Request::ContinueFromRawPrompt(
            ContinueFromRawPromptParams {
                max_tokens: 16,
                raw_prompt: "The capital of France is".to_string(),
            },
        ),
    });

    let (action, decision) = handle_inference_socket_message(message);

    assert_eq!(decision, ContinuationDecision::Continue);
    match action {
        InferenceSocketAction::Submit {
            request_id,
            request,
        } => {
            assert_eq!(request_id, "req-9");
            match request {
                paddler::agent_rpc::Request::ContinueFromRawPrompt(params) => {
                    assert_eq!(params.max_tokens, 16);
                    assert_eq!(params.raw_prompt, "The capital of France is");
                }
                other => panic!("unexpected request variant: {other:?}"),
            }
        }
        other => panic!("expected a submission, got {other:?}"),
    }
}

#[test]
fn test_conversation_request_with_valid_schema_is_submitted() {
    let params = ContinueFromConversationHistoryParams {
        conversation_history: Vec::new(),
        max_tokens: 32,
        tools: vec![ToolDefinition {
            name: "lookup".to_string(),
            parameters_schema: RawParametersSchema {
                schema: "{\"type\":\"object\",\"required\":[\"q\"]}".to_string(),
            },
        }],
    };
    let message = paddler::inference_server::Message::Request(RequestEnvelope {
        id: "req-1".to_string(),
        request: paddler::inference_server::Request::ContinueFromConversationHistory(params),
    });

    let (action, _) = handle_inference_socket_message(message);

    match action {
        InferenceSocketAction::Submit { request_id, .. } => assert_eq!(request_id, "req-1"),
        other => panic!("expected a submission, got {other:?}"),
    }
}

#[test]
fn test_conversation_request_with_malformed_schema_is_rejected() {
    let params = ContinueFromConversationHistoryParams {
        conversation_history: Vec::new(),
        max_tokens: 32,
        tools: vec![ToolDefinition {
            name: "lookup".to_string(),
            parameters_schema: RawParametersSchema {
                schema: "{\"type\":".to_string(),
            },
        }],
    };
    let message = paddler::inference_server::Message::Request(RequestEnvelope {
        id: "req-2".to_string(),
        request: paddler::inference_server::Request::ContinueFromConversationHistory(params),
    });

    let (action, decision) = handle_inference_socket_message(message);

    assert_eq!(decision, ContinuationDecision::Continue);
    assert_eq!(
        action,
        InferenceSocketAction::RejectInvalidParameters {
            request_id: "req-2".to_string(),
        }
    );
}

#[test]
fn test_json_value_checker() {
    assert!(is_json_value("null"));
    assert!(is_json_value("true"));
    assert!(is_json_value("1234"));
    assert!(is_json_value("\"text with \\\"escape\\\"\""));
    assert!(is_json_value("[]"));
    assert!(is_json_value("[1,2,[3,\"x\"]]"));
    assert!(is_json_value("{}"));
    assert!(is_json_value("{\"a\":1,\"b\":{\"c\":[true,false,null]}}"));

    assert!(!is_json_value(""));
    assert!(!is_json_value("{"));
    assert!(!is_json_value("{\"a\":}"));
    assert!(!is_json_value("[1,]"));
    assert!(!is_json_value("nul"));
    assert!(!is_json_value("{\"a\":1} "));
}

#[test]
fn test_agent_status_notification_updates_accounting() {
    let params = paddler::agents::UpdateAgentStatusParams {
        slot_aggregated_status_snapshot: paddler::agents::SlotAggregatedStatusSnapshot {
            slots: vec![paddler::agents::SlotSnapshotEntry {
                state: paddler::agents::SlotState::Idle,
                model_id: "m".to_string(),
                last_update_millis: 1,
            }],
        },
    };
    let message =
        paddler::agent_rpc::Message::Notification(paddler::agent_rpc::Notification::UpdateAgentStatus(
            params.clone(),
        ));

    assert_eq!(
        handle_agent_message(message),
        AgentSocketAction::ApplyStatus(params)
    );
}

#[test]
fn test_agent_error_envelope_is_nonfatal() {
    let message = paddler::agent_rpc::Message::Error(ErrorEnvelope {
        request_id: None,
        error: JsonRpcError {
            code: -2,
            description: "agent hiccup".to_string(),
        },
    });

    match handle_agent_message(message) {
        AgentSocketAction::LogAgentError {
            request_id,
            code,
            description,
        } => {
            assert_eq!(request_id, None);
            assert_eq!(code, -2);
            assert_eq!(description, "agent hiccup");
        }
        other => panic!("expected a logged error, got {other:?}"),
    }
}

#[test]
fn test_agent_response_is_routed_by_request_id() {
    let envelope = ResponseEnvelope {
        request_id: "r7".to_string(),
        response: paddler::agent_rpc::Response::ModelMetadata(Some(ModelMetadata {
            model_name: "m".to_string(),
        })),
    };

    match handle_agent_message(paddler::agent_rpc::Message::Response(envelope)) {
        AgentSocketAction::RouteResponse(routed) => assert_eq!(routed.request_id, "r7"),
        other => panic!("expected routing, got {other:?}"),
    }
}

#[test]
fn test_sender_collection_single_registration_and_terminal_removal() {
    let mut senders = GenerateTokensSenderCollection::new();
    senders.insert("r1".to_string()).unwrap();
    assert!(senders.insert("r1".to_string()).is_err());

    assert_eq!(
        senders.send_and_remove_if_terminal(
            &"r1".to_string(),
            GeneratedTokenResult::Token("tok".to_string()),
        ),
        SendOutcome::Sent
    );
    assert_eq!(
        senders.send_and_remove_if_terminal(&"r1".to_string(), GeneratedTokenResult::Done),
        SendOutcome::SentAndRemoved
    );
    assert_eq!(
        senders.send_and_remove_if_terminal(&"r1".to_string(), GeneratedTokenResult::Done),
        SendOutcome::NotFound
    );
}

#[test]
fn test_sender_collection_push_failure_unregisters() {
    let mut senders = GenerateTokensSenderCollection::new();
    senders.insert("r1".to_string()).unwrap();
    assert!(!senders.close_receiver(&"unknown".to_string()));
    assert!(senders.close_receiver(&"r1".to_string()));

    assert_eq!(
        senders.send_and_remove_if_terminal(
            &"r1".to_string(),
            GeneratedTokenResult::Token("tok".to_string()),
        ),
        SendOutcome::SendFailed
    );
    assert_eq!(senders.entries.len(), 0);
}

#[test]
fn test_sender_collection_drains_ids_on_shutdown() {
    let mut senders = GenerateTokensSenderCollection::new();
    senders.insert("a".to_string()).unwrap();
    senders.insert("b".to_string()).unwrap();

    assert_eq!(senders.drain_ids(), vec!["a".to_string(), "b".to_string()]);
    assert_eq!(senders.entries.len(), 0);
}

#[test]
fn test_reconciler_decisions() {
    let desired = AgentDesiredState {
        chat_template_override: None,
        inference_parameters: InferenceParameters::default(),
        model: AgentDesiredModel::LocalToAgent("/models/a.gguf".to_string()),
    };

    let mut fresh = AgentController::new("a".to_string());
    assert_eq!(
        reconcile_agent(&desired, &fresh),
        ReconcileAction::SendConfiguration
    );

    fresh.applicable = Some(AgentDesiredState {
        chat_template_override: None,
        inference_parameters: InferenceParameters::default(),
        model: AgentDesiredModel::LocalToAgent("/models/a.gguf".to_string()),
    });
    assert_eq!(reconcile_agent(&desired, &fresh), ReconcileAction::UpToDate);

    fresh.applicable = Some(AgentDesiredState {
        chat_template_override: Some(ChatTemplate {
            content: "old".to_string(),
        }),
        inference_parameters: InferenceParameters::default(),
        model: AgentDesiredModel::LocalToAgent("/models/a.gguf".to_string()),
    });
    assert_eq!(
        reconcile_agent(&desired, &fresh),
        ReconcileAction::SendConfiguration
    );

    fresh.applicable = Some(AgentDesiredState {
        chat_template_override: None,
        inference_parameters: InferenceParameters::default(),
        model: AgentDesiredModel::LocalToAgent("/models/b.gguf".to_string()),
    });
    assert_eq!(
        reconcile_agent(&desired, &fresh),
        ReconcileAction::SendConfigurationAndDrain
    );
}

#[test]
fn test_applicable_state_carries_override_only_when_enabled() {
    let mut state = BalancerDesiredState {
        chat_template_override: Some(ChatTemplate {
            content: "tmpl".to_string(),
        }),
        inference_parameters: InferenceParameters::default(),
        model: AgentDesiredModel::Unmanaged,
        use_chat_template_override: false,
    };

    let applicable = state.to_applicable_state();
    assert_eq!(applicable.agent_desired_state.chat_template_override, None);

    state.use_chat_template_override = true;
    let applicable = state.to_applicable_state();
    assert_eq!(
        applicable.agent_desired_state.chat_template_override,
        Some(ChatTemplate {
            content: "tmpl".to_string(),
        })
    );
    assert_eq!(
        applicable.agent_desired_state.model,
        AgentDesiredModel::Unmanaged
    );
}
