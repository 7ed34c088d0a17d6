use paddler::codec::decode_balancer_desired_state;
use paddler::codec::encode_balancer_desired_state;
use paddler::schema::default_version;
use paddler::schema::Schema;
use paddler::state::AgentDesiredModel;
use paddler::state::BalancerDesiredState;
use paddler::state::ChatTemplate;
use paddler::state::DesiredStateStore;
use paddler::state::HuggingFaceModelReference;
use paddler::state::InferenceParameters;

fn default_state() -> BalancerDesiredState {
    BalancerDesiredState {
        chat_template_override: None,
        inference_parameters: InferenceParameters::default(),
        model: AgentDesiredModel::Unmanaged,
        use_chat_template_override: false,
    }
}

fn full_state() -> BalancerDesiredState {
    BalancerDesiredState {
        chat_template_override: Some(ChatTemplate {
            content: "{{ messages }}\n\"quoted\" \\ backslash".to_string(),
        }),
        inference_parameters: InferenceParameters {
            batch_n_tokens: 256,
            context_size: 8192,
            max_tokens: 512,
        },
        model: AgentDesiredModel::HuggingFace(HuggingFaceModelReference {
            filename: "model.gguf".to_string(),
            repo_id: "org/repo".to_string(),
        }),
        use_chat_template_override: true,
    }
}

#[test]
fn test_desired_state_round_trip_default() {
    let state = default_state();
    let encoded = encode_balancer_desired_state(&state);
    let decoded = decode_balancer_desired_state(&encoded).unwrap();

    assert_eq!(decoded, state);
}

#[test]
fn test_desired_state_round_trip_full() {
    let state = full_state();
    let encoded = encode_balancer_desired_state(&state);
    let decoded = decode_balancer_desired_state(&encoded).unwrap();

    assert_eq!(decoded, state);
}

#[test]
fn test_desired_state_round_trip_local_model() {
    let state = BalancerDesiredState {
        chat_template_override: None,
        inference_parameters: InferenceParameters::default(),
        model: AgentDesiredModel::LocalToAgent("/models/agent.gguf".to_string()),
        use_chat_template_override: false,
    };
    let encoded = encode_balancer_desired_state(&state);
    let decoded = decode_balancer_desired_state(&encoded).unwrap();

    assert_eq!(decoded, state);
}

#[test]
fn test_desired_state_canonical_text() {
    let encoded = encode_balancer_desired_state(&default_state());

    assert_eq!(
        encoded,
        "{\"chat_template_override\":null,\
         \"inference_parameters\":{\"batch_n_tokens\":512,\"context_size\":4096,\"max_tokens\":1024},\
         \"model\":\"Unmanaged\",\
         \"use_chat_template_override\":false}"
    );
}

#[test]
fn test_desired_state_rejects_unknown_field() {
    let with_unknown = "{\"chat_template_override\":null,\
         \"inference_parameters\":{\"batch_n_tokens\":512,\"context_size\":4096,\"max_tokens\":1024},\
         \"model\":\"Unmanaged\",\
         \"use_chat_template_override\":false,\"unknown_field\":1}";

    assert!(decode_balancer_desired_state(with_unknown).is_err());
}

#[test]
fn test_desired_state_rejects_unknown_nested_field() {
    let nested_unknown = "{\"chat_template_override\":null,\
         \"inference_parameters\":{\"batch_n_tokens\":512,\"context_size\":4096,\"max_tokens\":1024,\"extra\":1},\
         \"model\":\"Unmanaged\",\
         \"use_chat_template_override\":false}";

    assert!(decode_balancer_desired_state(nested_unknown).is_err());
}

#[test]
fn test_desired_state_rejects_trailing_garbage() {
    let mut encoded = encode_balancer_desired_state(&default_state());
    encoded.push(' ');

    assert!(decode_balancer_desired_state(&encoded).is_err());
}

#[test]
fn test_desired_state_rejects_malformed_document() {
    assert!(decode_balancer_desired_state("{}").is_err());
    assert!(decode_balancer_desired_state("").is_err());
    assert!(decode_balancer_desired_state("not json").is_err());
}

#[test]
fn test_schema_round_trip() {
    let schema = Schema {
        balancer_desired_state: full_state(),
        version: "1".to_string(),
    };
    let encoded = schema.encode();
    let decoded = Schema::decode(&encoded).unwrap();

    assert_eq!(decoded, schema);
}

#[test]
fn test_schema_missing_version_defaults_to_one() {
    let body = encode_balancer_desired_state(&default_state());
    let document = format!("{{\"balancer_desired_state\":{body}}}");
    let decoded = Schema::decode(&document).unwrap();

    assert_eq!(decoded.version, "1");
    assert_eq!(decoded.balancer_desired_state, default_state());
}

#[test]
fn test_schema_rejects_unknown_field() {
    let body = encode_balancer_desired_state(&default_state());
    let document = format!(
        "{{\"balancer_desired_state\":{body},\"version\":\"1\",\"extra\":true}}"
    );

    assert!(Schema::decode(&document).is_err());
}

#[test]
fn test_default_version_is_one() {
    assert_eq!(default_version(), "1");
}

#[test]
fn test_put_then_get_returns_same_state() {
    let mut store = DesiredStateStore::new(default_state());
    store.put(full_state());

    assert_eq!(store.get(), full_state());
}

#[test]
fn test_put_twice_is_observationally_one_put() {
    let mut store_once = DesiredStateStore::new(default_state());
    store_once.put(full_state());

    let mut store_twice = DesiredStateStore::new(default_state());
    store_twice.put(full_state());
    store_twice.put(full_state());

    assert_eq!(store_once.get(), store_twice.get());
}

#[test]
fn test_put_round_trips_through_wire_codec() {
    let state = full_state();
    let body = encode_balancer_desired_state(&state);
    let received = decode_balancer_desired_state(&body).unwrap();
    let mut store = DesiredStateStore::new(default_state());
    store.put(received);

    assert_eq!(encode_balancer_desired_state(&store.get()), body);
}
