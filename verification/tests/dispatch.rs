use paddler::agents::AgentController;
use paddler::agents::AgentLifecycleState;
use paddler::agents::AgentPool;
use paddler::agents::SlotAggregatedStatusSnapshot;
use paddler::agents::SlotSnapshotEntry;
use paddler::agents::SlotState;
use paddler::agents::UpdateAgentStatusParams;
use paddler::buffer::reject_admission;
use paddler::buffer::rejection_message;
use paddler::buffer::timeout_message;
use paddler::buffer::AdmitOutcome;
use paddler::buffer::BufferedRequest;
use paddler::buffer::BufferedRequestManager;
use paddler::inference_client::is_terminal_message;
use paddler::inference_client::GeneratedTokenResult;
use paddler::inference_client::Message;
use paddler::inference_client::Response;
use paddler::jsonrpc::ResponseEnvelope;
use paddler::relay::PendingRequests;
use paddler::relay::RouteOutcome;
use paddler::relay::StreamStatus;

fn snapshot(states: &[(SlotState, &str)]) -> SlotAggregatedStatusSnapshot {
    SlotAggregatedStatusSnapshot {
        slots: states
            .iter()
            .map(|(state, model)| SlotSnapshotEntry {
                state: *state,
                model_id: model.to_string(),
                last_update_millis: 0,
            })
            .collect(),
    }
}

fn request(id: &str, model: &str, at: u64) -> BufferedRequest {
    BufferedRequest {
        request_id: id.to_string(),
        model_id: model.to_string(),
        enqueued_at: at,
    }
}

fn token_message(id: &str, token: &str) -> Message {
    Message::Response(ResponseEnvelope {
        request_id: id.to_string(),
        response: Response::GeneratedToken(GeneratedTokenResult::Token(token.to_string())),
    })
}

fn done_message(id: &str) -> Message {
    Message::Response(ResponseEnvelope {
        request_id: id.to_string(),
        response: Response::GeneratedToken(GeneratedTokenResult::Done),
    })
}

#[test]
fn test_agent_activates_on_first_status_and_counts_slots() {
    let mut agent = AgentController::new("agent-1".to_string());
    assert_eq!(agent.lifecycle, AgentLifecycleState::Handshaking);

    agent.update_status(UpdateAgentStatusParams {
        slot_aggregated_status_snapshot: snapshot(&[
            (SlotState::Idle, "m"),
            (SlotState::Busy, "m"),
            (SlotState::Idle, "m"),
        ]),
    });

    assert_eq!(agent.lifecycle, AgentLifecycleState::Active);
    assert_eq!(agent.free_slots(), 2);
}

#[test]
fn test_busy_slots_never_exceed_declared() {
    let mut agent = AgentController::new("agent-1".to_string());
    agent.update_status(UpdateAgentStatusParams {
        slot_aggregated_status_snapshot: snapshot(&[
            (SlotState::Idle, "m"),
            (SlotState::Idle, "m"),
        ]),
    });

    assert!(agent.reserve_slot());
    assert!(agent.reserve_slot());
    assert!(!agent.reserve_slot());
    assert_eq!(agent.free_slots(), 0);
}

#[test]
fn test_snapshot_reconciles_optimistic_reservations() {
    let mut agent = AgentController::new("agent-1".to_string());
    agent.update_status(UpdateAgentStatusParams {
        slot_aggregated_status_snapshot: snapshot(&[(SlotState::Idle, "m")]),
    });
    assert!(agent.reserve_slot());
    assert_eq!(agent.free_slots(), 0);

    agent.update_status(UpdateAgentStatusParams {
        slot_aggregated_status_snapshot: snapshot(&[(SlotState::Busy, "m")]),
    });

    assert_eq!(agent.free_slots(), 0);
    assert_eq!(agent.reserved, 0);
}

#[test]
fn test_admission_dispatches_to_compatible_free_agent() {
    let mut pool = AgentPool::new();
    let mut other = AgentController::new("agent-other".to_string());
    other.update_status(UpdateAgentStatusParams {
        slot_aggregated_status_snapshot: snapshot(&[(SlotState::Idle, "other-model")]),
    });
    pool.add_agent(other);
    let mut target = AgentController::new("agent-target".to_string());
    target.update_status(UpdateAgentStatusParams {
        slot_aggregated_status_snapshot: snapshot(&[(SlotState::Idle, "m")]),
    });
    pool.add_agent(target);

    let mut manager = BufferedRequestManager::new(4, 1000);
    let outcome = manager.admit_request(&mut pool, request("r1", "m", 0));

    assert_eq!(outcome, AdmitOutcome::Dispatched(1));
    assert_eq!(pool.agents[1].reserved, 1);
    assert_eq!(manager.queue.len(), 0);
}

#[test]
fn test_admission_buffers_when_no_slot_is_free() {
    let mut pool = AgentPool::new();
    let mut manager = BufferedRequestManager::new(2, 1000);

    assert_eq!(
        manager.admit_request(&mut pool, request("r1", "m", 0)),
        AdmitOutcome::Buffered
    );
    assert_eq!(
        manager.admit_request(&mut pool, request("r2", "m", 1)),
        AdmitOutcome::Buffered
    );
    assert_eq!(manager.queue.len(), 2);
}

#[test]
fn test_admission_overflow_rejected_with_single_terminal_response() {
    let mut pool = AgentPool::new();
    let mut manager = BufferedRequestManager::new(0, 1000);

    let outcome = manager.admit_request(&mut pool, request("r1", "m", 0));
    assert_eq!(outcome, AdmitOutcome::Rejected);
    assert_eq!(manager.queue.len(), 0);

    let mut pending = PendingRequests::new();
    pending.register("r1".to_string()).unwrap();
    let response = rejection_message("r1".to_string());
    assert!(is_terminal_message(&response));
    assert!(matches!(pending.route(response), RouteOutcome::CompletedStream(_)));

    assert_eq!(pending.streams[0].delivered.len(), 1);
    assert_eq!(pending.streams[0].status, StreamStatus::Completed);
    assert!(matches!(
        &pending.streams[0].delivered[0],
        Message::Response(envelope) if envelope.response == Response::TooManyBufferedRequests
    ));
}

#[test]
fn test_reject_admission_completes_live_stream_only() {
    let mut pending = PendingRequests::new();
    pending.register("r1".to_string()).unwrap();

    assert_eq!(
        reject_admission(&mut pending, "unknown".to_string()),
        RouteOutcome::Discarded
    );
    assert!(matches!(
        reject_admission(&mut pending, "r1".to_string()),
        RouteOutcome::CompletedStream(_)
    ));
    assert_eq!(pending.streams[0].status, StreamStatus::Completed);
    assert_eq!(pending.streams[0].delivered.len(), 1);
    assert_eq!(
        reject_admission(&mut pending, "r1".to_string()),
        RouteOutcome::Discarded
    );
    assert_eq!(pending.streams[0].delivered.len(), 1);
}

#[test]
fn test_buffered_count_never_exceeds_limit() {
    let mut pool = AgentPool::new();
    let mut manager = BufferedRequestManager::new(2, 1000);

    for i in 0..5 {
        manager.admit_request(&mut pool, request(&format!("r{i}"), "m", i));
        assert!(manager.queue.len() <= 2);
    }
    assert_eq!(manager.snapshot().buffered_requests_current, 2);
}

#[test]
fn test_slot_freed_dispatches_oldest_compatible_request() {
    let mut pool = AgentPool::new();
    let mut manager = BufferedRequestManager::new(4, 1000);
    manager.admit_request(&mut pool, request("r1", "model-a", 0));
    manager.admit_request(&mut pool, request("r2", "model-b", 1));
    manager.admit_request(&mut pool, request("r3", "model-a", 2));

    let handed = manager.on_slot_freed(&"model-b".to_string()).unwrap();
    assert_eq!(handed.request_id, "r2");
    assert_eq!(manager.queue.len(), 2);
    assert_eq!(manager.queue[0].request_id, "r1");
    assert_eq!(manager.queue[1].request_id, "r3");

    assert!(manager.on_slot_freed(&"model-c".to_string()).is_none());
    assert_eq!(manager.queue.len(), 2);
}

#[test]
fn test_timeout_sweep_removes_expired_requests_in_order() {
    let mut pool = AgentPool::new();
    let mut manager = BufferedRequestManager::new(4, 100);
    manager.admit_request(&mut pool, request("r1", "m", 0));
    manager.admit_request(&mut pool, request("r2", "m", 50));
    manager.admit_request(&mut pool, request("r3", "m", 120));

    let expired = manager.sweep_timeouts(150);

    assert_eq!(expired.len(), 2);
    assert_eq!(expired[0].request_id, "r1");
    assert_eq!(expired[1].request_id, "r2");
    assert_eq!(manager.queue.len(), 1);
    assert_eq!(manager.queue[0].request_id, "r3");

    let timeout = timeout_message("r1".to_string());
    assert!(is_terminal_message(&timeout));
}

#[test]
fn test_cancelled_buffered_request_is_dropped_silently() {
    let mut pool = AgentPool::new();
    let mut manager = BufferedRequestManager::new(4, 1000);
    manager.admit_request(&mut pool, request("r1", "m", 0));

    assert!(manager.cancel(&"r1".to_string()));
    assert_eq!(manager.queue.len(), 0);
    assert!(!manager.cancel(&"r1".to_string()));
}

#[test]
fn test_relay_preserves_response_order_per_request_id() {
    let mut pending = PendingRequests::new();
    pending.register("a".to_string()).unwrap();
    pending.register("b".to_string()).unwrap();

    pending.route_all(vec![
        token_message("a", "one"),
        token_message("b", "uno"),
        token_message("a", "two"),
        done_message("a"),
        token_message("a", "late"),
        token_message("b", "dos"),
    ]);

    let a = &pending.streams[0];
    assert_eq!(a.status, StreamStatus::Completed);
    assert_eq!(a.delivered.len(), 3);
    assert_eq!(a.delivered[0], token_message("a", "one"));
    assert_eq!(a.delivered[1], token_message("a", "two"));
    assert_eq!(a.delivered[2], done_message("a"));

    let b = &pending.streams[1];
    assert_eq!(b.status, StreamStatus::Live);
    assert_eq!(b.delivered.len(), 2);
    assert_eq!(b.delivered[0], token_message("b", "uno"));
    assert_eq!(b.delivered[1], token_message("b", "dos"));
}

#[test]
fn test_second_registration_for_same_id_is_an_error() {
    let mut pending = PendingRequests::new();
    pending.register("a".to_string()).unwrap();

    assert!(pending.register("a".to_string()).is_err());
    assert_eq!(pending.streams.len(), 1);
}

#[test]
fn test_agent_drop_mid_stream_yields_single_connection_dropped() {
    let mut pending = PendingRequests::new();
    pending.register("r1".to_string()).unwrap();
    pending.route(token_message("r1", "partial"));

    pending.close_connection();

    let stream = &pending.streams[0];
    assert_eq!(stream.status, StreamStatus::Completed);
    assert_eq!(stream.delivered.len(), 2);
    assert_eq!(stream.delivered[0], token_message("r1", "partial"));
    match &stream.delivered[1] {
        Message::Error(envelope) => {
            assert_eq!(envelope.request_id.as_deref(), Some("r1"));
            assert_eq!(envelope.error.code, paddler::relay::CONNECTION_DROPPED_CODE);
        }
        other => panic!("expected a terminal error, got {other:?}"),
    }
    assert!(is_terminal_message(&stream.delivered[1]));

    assert_eq!(pending.route(token_message("r1", "late")), RouteOutcome::Discarded);
    assert_eq!(pending.streams[0].delivered.len(), 2);
}

#[test]
fn test_cancelled_stream_receives_nothing_more() {
    let mut pending = PendingRequests::new();
    pending.register("r1".to_string()).unwrap();
    pending.route(token_message("r1", "one"));

    assert!(!pending.cancel(&"unknown".to_string()));
    assert!(pending.cancel(&"r1".to_string()));
    assert!(!pending.cancel(&"r1".to_string()));
    assert_eq!(pending.route(token_message("r1", "two")), RouteOutcome::Discarded);

    pending.close_connection();
    assert_eq!(pending.streams[0].status, StreamStatus::Cancelled);
    assert_eq!(pending.streams[0].delivered.len(), 1);
}

#[test]
fn test_exactly_one_terminal_message_per_completed_stream() {
    let mut pending = PendingRequests::new();
    pending.register("a".to_string()).unwrap();
    pending.register("b".to_string()).unwrap();
    pending.register("c".to_string()).unwrap();

    pending.route(done_message("a"));
    pending.route(token_message("b", "tok"));
    pending.cancel(&"c".to_string());
    pending.close_connection();

    for stream in &pending.streams {
        let terminal_count = stream
            .delivered
            .iter()
            .filter(|m| is_terminal_message(m))
            .count();
        match stream.status {
            StreamStatus::Completed => {
                assert_eq!(terminal_count, 1);
                assert!(is_terminal_message(stream.delivered.last().unwrap()));
            }
            StreamStatus::Cancelled | StreamStatus::Live => assert_eq!(terminal_count, 0),
        }
    }
}
