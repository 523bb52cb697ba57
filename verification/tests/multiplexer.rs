use dataflow_controller::compute::{ComputeResponse, PeekResult, TailBatch, TailResponse};
use dataflow_controller::controller::{
    Controller, ControllerError, ControllerResponse, OrchestratorConfig, Response,
};
use dataflow_controller::frontier::Frontier;
use dataflow_controller::orchestration::InMemoryOrchestrator;
use dataflow_controller::storage::{
    InMemoryStorageController, StorageCall, StorageResponse, TimestampBinding,
    TimestampBindingFeedback,
};

type TestController = Controller<InMemoryOrchestrator, InMemoryStorageController>;

fn new_controller() -> TestController {
    let config = OrchestratorConfig {
        orchestrator: InMemoryOrchestrator::new(String::from("host.local")),
        computed_image: String::from("computed:latest"),
        storage_addr: String::from("storage.local:2101"),
        linger: false,
    };
    Controller::new(config, InMemoryStorageController::new())
}

fn binding_event() -> StorageResponse {
    StorageResponse::TimestampBindings(TimestampBindingFeedback {
        bindings: vec![TimestampBinding { source_id: 1, timestamp: 5, offset: 100 }],
        changes: vec![(1, Frontier::from_elem(5))],
    })
}

#[test]
fn recv_with_nothing_ready_retries() {
    let mut c = new_controller();
    assert!(matches!(c.recv(), Ok(Response::RecvAgain)));
}

#[test]
fn recv_is_done_exactly_when_no_source_remains() {
    let mut c = new_controller();
    c.create_instance(1, None).unwrap();
    // Storage alive: never done.
    assert!(matches!(c.recv(), Ok(Response::RecvAgain)));
    // Closing the stream is a normal transition, reported as a retry.
    c.storage_mut().close_stream();
    assert!(matches!(c.recv(), Ok(Response::RecvAgain)));
    // An instance remains, so the controller is still not done.
    assert!(matches!(c.recv(), Ok(Response::RecvAgain)));
    c.drop_instance(1).unwrap();
    // Storage dead and registry empty: done, and it stays done.
    assert!(matches!(c.recv(), Ok(Response::Done)));
    assert!(matches!(c.recv(), Ok(Response::Done)));
}

#[test]
fn timestamp_bindings_persist_strictly_before_apply() {
    let mut c = new_controller();
    c.storage_mut().enqueue_response(binding_event());
    assert!(matches!(c.recv(), Ok(Response::RecvAgain)));
    let log = c.storage().call_log();
    assert_eq!(log.len(), 2);
    match &log[0] {
        StorageCall::Persist(bindings) => {
            assert_eq!(bindings.len(), 1);
            assert_eq!(bindings[0], TimestampBinding { source_id: 1, timestamp: 5, offset: 100 });
        }
        other => panic!("expected the persist call first, found {:?}", other),
    }
    match &log[1] {
        StorageCall::Apply(changes) => {
            assert_eq!(changes.len(), 1);
            assert_eq!(changes[0].0, 1);
            assert_eq!(changes[0].1.as_option(), Some(5));
        }
        other => panic!("expected the frontier application second, found {:?}", other),
    }
}

#[test]
fn persist_failure_prevents_the_frontier_update() {
    let mut c = new_controller();
    c.storage_mut().set_fail_requests(true);
    c.storage_mut().enqueue_response(binding_event());
    let err = c.recv().unwrap_err();
    assert!(matches!(err, ControllerError::Storage(_)));
    assert!(!err.is_contract_violation());
    // Nothing was persisted, so nothing may have been applied.
    assert_eq!(c.storage().call_log().len(), 0);
}

#[test]
fn linearized_timestamps_are_exposed_verbatim() {
    let mut c = new_controller();
    c.storage_mut().enqueue_response(StorageResponse::LinearizedTimestamps(88));
    match c.recv() {
        Ok(Response::Ready(ControllerResponse::LinearizedTimestamps(t))) => assert_eq!(t, 88),
        other => panic!("unexpected receive outcome: {:?}", other),
    }
    assert_eq!(c.storage().call_log().len(), 0);
}

#[test]
fn frontier_reports_advance_monotonically() {
    let mut c = new_controller();
    c.create_instance(1, None).unwrap();
    // Every collection starts at the minimum.
    assert_eq!(c.compute(1).unwrap().write_frontier(42), Some(0));

    c.push_compute_response(1, ComputeResponse::FrontierUppers(vec![(42, Frontier::from_elem(10))]))
        .unwrap();
    assert!(matches!(c.recv(), Ok(Response::RecvAgain)));
    assert_eq!(c.compute(1).unwrap().write_frontier(42), Some(10));

    // A stale, smaller report never regresses the tracked frontier.
    c.push_compute_response(1, ComputeResponse::FrontierUppers(vec![(42, Frontier::from_elem(5))]))
        .unwrap();
    assert!(matches!(c.recv(), Ok(Response::RecvAgain)));
    assert_eq!(c.compute(1).unwrap().write_frontier(42), Some(10));

    c.push_compute_response(1, ComputeResponse::FrontierUppers(vec![(42, Frontier::from_elem(20))]))
        .unwrap();
    assert!(matches!(c.recv(), Ok(Response::RecvAgain)));
    assert_eq!(c.compute(1).unwrap().write_frontier(42), Some(20));
}

#[test]
fn interleaved_frontier_reports_stay_monotone_per_instance() {
    let mut c = new_controller();
    c.create_instance(1, None).unwrap();
    c.create_instance(2, None).unwrap();
    let steps: Vec<(u64, u64)> = vec![(1, 4), (2, 9), (1, 7), (2, 3), (1, 2), (2, 11)];
    let mut highest_one = 0;
    let mut highest_two = 0;
    for (inst, t) in steps {
        c.push_compute_response(
            inst,
            ComputeResponse::FrontierUppers(vec![(7, Frontier::from_elem(t))]),
        )
        .unwrap();
        assert!(matches!(c.recv(), Ok(Response::RecvAgain)));
        if inst == 1 {
            highest_one = highest_one.max(t);
        } else {
            highest_two = highest_two.max(t);
        }
        assert_eq!(c.compute(1).unwrap().write_frontier(7), Some(highest_one));
        assert_eq!(c.compute(2).unwrap().write_frontier(7), Some(highest_two));
    }
}

#[test]
fn peek_completion_clears_bookkeeping_and_exposes_payload() {
    let mut c = new_controller();
    c.create_instance(1, None).unwrap();
    c.compute_mut(1).unwrap().register_peek(5);
    assert_eq!(c.compute(1).unwrap().peek_count(), 1);
    c.push_compute_response(1, ComputeResponse::PeekResponse(5, PeekResult::Rows(vec![1, 2, 3])))
        .unwrap();
    match c.recv() {
        Ok(Response::Ready(ControllerResponse::PeekResponse(uuid, PeekResult::Rows(rows)))) => {
            assert_eq!(uuid, 5);
            assert_eq!(rows, vec![1, 2, 3]);
        }
        other => panic!("unexpected receive outcome: {:?}", other),
    }
    assert_eq!(c.compute(1).unwrap().peek_count(), 0);
}

#[test]
fn tail_batches_fold_forward_and_are_exposed_verbatim() {
    let mut c = new_controller();
    c.create_instance(1, None).unwrap();
    let batch = TailBatch {
        lower: Frontier::from_elem(0),
        upper: Frontier::from_elem(9),
        updates: vec![(3, 1), (5, -1)],
    };
    c.push_compute_response(1, ComputeResponse::TailResponse(7, TailResponse::Batch(batch)))
        .unwrap();
    match c.recv() {
        Ok(Response::Ready(ControllerResponse::TailResponse(gid, TailResponse::Batch(b)))) => {
            assert_eq!(gid, 7);
            assert_eq!(b.lower.as_option(), Some(0));
            assert_eq!(b.upper.as_option(), Some(9));
            assert_eq!(b.updates, vec![(3, 1), (5, -1)]);
        }
        other => panic!("unexpected receive outcome: {:?}", other),
    }
    assert_eq!(c.compute(1).unwrap().write_frontier(7), Some(9));

    // A dropped tail closes the collection's tracked frontier: a forward
    // step to the empty frontier.
    c.push_compute_response(
        1,
        ComputeResponse::TailResponse(7, TailResponse::DroppedAt(Frontier::from_elem(9))),
    )
    .unwrap();
    match c.recv() {
        Ok(Response::Ready(ControllerResponse::TailResponse(gid, TailResponse::DroppedAt(f)))) => {
            assert_eq!(gid, 7);
            assert_eq!(f.as_option(), Some(9));
        }
        other => panic!("unexpected receive outcome: {:?}", other),
    }
    assert_eq!(c.compute(1).unwrap().write_frontier(7), None);
}

#[test]
fn responses_for_removed_instances_are_stale_not_fatal() {
    let mut c = new_controller();
    c.create_instance(1, None).unwrap();
    c.drop_instance(1).unwrap();
    let err = c
        .push_compute_response(1, ComputeResponse::FrontierUppers(vec![]))
        .unwrap_err();
    assert_eq!(err, ControllerError::StaleResponse(1));
    assert!(!err.is_contract_violation());
    // The controller keeps serving.
    assert!(matches!(c.recv(), Ok(Response::RecvAgain)));
}

#[test]
fn storage_events_are_served_before_instance_events() {
    let mut c = new_controller();
    c.create_instance(1, None).unwrap();
    c.push_compute_response(1, ComputeResponse::FrontierUppers(vec![(1, Frontier::from_elem(3))]))
        .unwrap();
    c.storage_mut().enqueue_response(StorageResponse::LinearizedTimestamps(4));
    // The live storage stream is polled first.
    assert!(matches!(
        c.recv(),
        Ok(Response::Ready(ControllerResponse::LinearizedTimestamps(4)))
    ));
    // Then the instance's event is served.
    assert!(matches!(c.recv(), Ok(Response::RecvAgain)));
    assert_eq!(c.compute(1).unwrap().write_frontier(1), Some(3));
}
