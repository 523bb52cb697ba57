use dataflow_controller::controller::{
    ClusterReplicaSizeConfig, ConcreteComputeInstanceReplicaConfig, Controller, ControllerError,
    OrchestratorConfig,
};
use dataflow_controller::compute::{ComputeCommand, LoggingConfig};
use dataflow_controller::orchestration::{
    build_replica_args, InMemoryOrchestrator, OrchestratorCall,
};
use dataflow_controller::storage::InMemoryStorageController;

type TestController = Controller<InMemoryOrchestrator, InMemoryStorageController>;

fn new_controller() -> TestController {
    new_controller_with(InMemoryOrchestrator::new(String::from("host.local")))
}

fn new_controller_with(orchestrator: InMemoryOrchestrator) -> TestController {
    let config = OrchestratorConfig {
        orchestrator,
        computed_image: String::from("computed:latest"),
        storage_addr: String::from("storage.local:2101"),
        linger: false,
    };
    Controller::new(config, InMemoryStorageController::new())
}

fn managed(scale: u64, workers: u64) -> ConcreteComputeInstanceReplicaConfig {
    ConcreteComputeInstanceReplicaConfig::Managed {
        size_config: ClusterReplicaSizeConfig {
            memory_limit: None,
            cpu_limit: None,
            scale,
            workers,
        },
        availability_zone: String::from("az-a"),
    }
}

#[test]
fn add_replica_to_missing_instance_is_contract_violation() {
    let mut c = new_controller();
    let config = ConcreteComputeInstanceReplicaConfig::Remote {
        replicas: vec![String::from("10.0.0.1:2100")],
    };
    let err = c.add_replica_to_instance(7, 1, config).unwrap_err();
    assert_eq!(err, ControllerError::UnknownInstance(7));
    assert!(err.is_contract_violation());
    // The instance was never implicitly created.
    assert!(c.compute(7).is_none());
    // And the orchestrator was never involved.
    assert_eq!(c.orchestration_config().orchestrator.call_log().len(), 0);
}

#[test]
fn create_instance_rejects_invalid_logging() {
    let mut c = new_controller();
    let bad = LoggingConfig { granularity_ns: 0, log_logging: false };
    let err = c.create_instance(1, Some(bad)).unwrap_err();
    assert_eq!(err, ControllerError::InvalidLoggingConfig);
    assert!(!err.is_contract_violation());
    assert!(c.compute(1).is_none());
}

#[test]
fn create_instance_keeps_logging_config() {
    let mut c = new_controller();
    let logging = LoggingConfig { granularity_ns: 1_000_000, log_logging: true };
    c.create_instance(1, Some(logging)).unwrap();
    assert_eq!(*c.compute(1).unwrap().logging_config(), Some(logging));
}

#[test]
fn recreating_an_instance_replaces_its_state() {
    let mut c = new_controller();
    c.create_instance(1, None).unwrap();
    let remote = ConcreteComputeInstanceReplicaConfig::Remote {
        replicas: vec![String::from("10.0.0.1:2100")],
    };
    c.add_replica_to_instance(1, 4, remote).unwrap();
    assert!(c.compute(1).unwrap().get_replica(4).is_some());
    c.create_instance(1, None).unwrap();
    assert!(c.compute(1).unwrap().get_replica(4).is_none());
}

#[test]
fn remote_replica_registers_given_endpoints() {
    let mut c = new_controller();
    c.create_instance(1, None).unwrap();
    let remote = ConcreteComputeInstanceReplicaConfig::Remote {
        replicas: vec![String::from("10.0.0.1:2100"), String::from("10.0.0.2:2100")],
    };
    c.add_replica_to_instance(1, 4, remote).unwrap();
    let state = c.compute(1).unwrap();
    let client = state.get_replica(4).unwrap();
    assert_eq!(client.name, "cluster-1-replica-4");
    assert_eq!(client.addrs, vec![String::from("10.0.0.1:2100"), String::from("10.0.0.2:2100")]);
    // No orchestrator request is made for a remote replica.
    assert_eq!(c.orchestration_config().orchestrator.call_log().len(), 0);
}

#[test]
fn managed_replica_full_lifecycle() {
    let mut c = new_controller();
    c.create_instance(1, None).unwrap();
    c.add_replica_to_instance(1, 2, managed(1, 4)).unwrap();

    // The orchestrator received a service request named from the pair, with
    // exactly three named ports and the profile passed through.
    {
        let log = c.orchestration_config().orchestrator.call_log();
        assert_eq!(log.len(), 1);
        match &log[0] {
            OrchestratorCall::EnsureService(name, sc) => {
                assert_eq!(name, "cluster-1-replica-2");
                assert_eq!(sc.image, "computed:latest");
                assert_eq!(sc.scale, 1);
                assert_eq!(sc.ports.len(), 3);
                assert_eq!(sc.ports[0].name, "controller");
                assert_eq!(sc.ports[0].port_hint, 2100);
                assert_eq!(sc.ports[1].name, "compute");
                assert_eq!(sc.ports[1].port_hint, 2102);
                assert_eq!(sc.ports[2].name, "http");
                assert_eq!(sc.ports[2].port_hint, 2103);
                assert_eq!(sc.labels.len(), 2);
                assert_eq!(sc.labels[0].0, "cluster-id");
                assert_eq!(sc.labels[0].1, "1");
                assert_eq!(sc.labels[1].0, "type");
                assert_eq!(sc.labels[1].1, "cluster");
                assert_eq!(sc.availability_zone, "az-a");

                // The per-process arguments include the worker and process
                // counts from the profile.
                let peers = vec![(String::from("cluster-1-replica-2-0"), 2102)];
                let args = build_replica_args(&sc.args, "host.local", &peers, 2100, 2103, None);
                assert!(args.iter().any(|a| a == "--workers=4"));
                assert!(args.iter().any(|a| a == "--processes=1"));
                assert!(args.iter().any(|a| a == "--storage-addr=storage.local:2101"));
                assert!(args.iter().any(|a| a == "--listen-addr=host.local:2100"));
                assert!(args.iter().any(|a| a == "cluster-1-replica-2-0:2102"));
                assert!(!args.iter().any(|a| a == "--linger"));
            }
            other => panic!("unexpected orchestrator call: {:?}", other),
        }
    }
    // The replica is registered under the control addresses the orchestrator
    // returned, and no frontier state changed.
    assert!(c.compute(1).unwrap().get_replica(2).is_some());
    assert_eq!(c.compute(1).unwrap().write_frontier(0), Some(0));

    // Dropping the replica asks the orchestrator to tear down that same
    // service name, then removes the bookkeeping.
    c.drop_replica(1, 2, managed(1, 4)).unwrap();
    {
        let log = c.orchestration_config().orchestrator.call_log();
        assert_eq!(log.len(), 2);
        match &log[1] {
            OrchestratorCall::DropService(name) => assert_eq!(name, "cluster-1-replica-2"),
            other => panic!("unexpected orchestrator call: {:?}", other),
        }
    }
    assert!(c.compute(1).unwrap().get_replica(2).is_none());

    // Dropping the instance now succeeds, removes the aggregate service and
    // queues the explicit teardown command.
    c.drop_instance(1).unwrap();
    {
        let log = c.orchestration_config().orchestrator.call_log();
        assert_eq!(log.len(), 3);
        match &log[2] {
            OrchestratorCall::DropService(name) => assert_eq!(name, "cluster-1"),
            other => panic!("unexpected orchestrator call: {:?}", other),
        }
    }
    assert!(c.compute(1).is_none());
    assert_eq!(c.pop_command(), Some((1, ComputeCommand::DropInstance)));
    assert_eq!(c.pop_command(), None);
}

#[test]
fn multi_process_replica_arguments() {
    let mut c = new_controller();
    c.create_instance(3, None).unwrap();
    c.add_replica_to_instance(3, 0, managed(2, 2)).unwrap();
    let log = c.orchestration_config().orchestrator.call_log();
    match &log[0] {
        OrchestratorCall::EnsureService(_, sc) => {
            let peers = vec![
                (String::from("cluster-3-replica-0-0"), 2102),
                (String::from("cluster-3-replica-0-1"), 2102),
            ];
            let args = build_replica_args(&sc.args, "host.local", &peers, 2100, 2103, Some(1));
            assert!(args.iter().any(|a| a == "--processes=2"));
            assert!(args.iter().any(|a| a == "--workers=2"));
            assert!(args.iter().any(|a| a == "--process=1"));
            assert!(args.iter().any(|a| a == "cluster-3-replica-0-0:2102"));
            assert!(args.iter().any(|a| a == "cluster-3-replica-0-1:2102"));
        }
        other => panic!("unexpected orchestrator call: {:?}", other),
    }
}

#[test]
fn drop_instance_with_replicas_is_contract_violation() {
    let mut c = new_controller();
    c.create_instance(1, None).unwrap();
    let remote = ConcreteComputeInstanceReplicaConfig::Remote {
        replicas: vec![String::from("10.0.0.1:2100")],
    };
    c.add_replica_to_instance(1, 4, remote).unwrap();
    let err = c.drop_instance(1).unwrap_err();
    assert_eq!(err, ControllerError::ReplicasExist(1));
    assert!(err.is_contract_violation());
    // The instance survives the failed drop.
    assert!(c.compute(1).is_some());
    // No teardown was requested and no command queued.
    assert_eq!(c.orchestration_config().orchestrator.call_log().len(), 0);
    assert_eq!(c.pop_command(), None);
}

#[test]
fn drop_unknown_instance_is_a_noop() {
    let mut c = new_controller();
    assert!(c.drop_instance(99).is_ok());
    assert_eq!(c.orchestration_config().orchestrator.call_log().len(), 0);
    assert_eq!(c.pop_command(), None);
}

#[test]
fn drop_replica_on_missing_instance_is_contract_violation() {
    let mut c = new_controller();
    let err = c.drop_replica(7, 1, managed(1, 1)).unwrap_err();
    assert_eq!(err, ControllerError::UnknownInstance(7));
    assert!(err.is_contract_violation());
}

#[test]
fn orchestrator_failure_on_ensure_is_propagated() {
    let mut failing = InMemoryOrchestrator::new(String::from("host.local"));
    failing.set_fail_requests(true);
    let mut c = new_controller_with(failing);
    c.create_instance(1, None).unwrap();
    let err = c.add_replica_to_instance(1, 2, managed(1, 4)).unwrap_err();
    assert!(matches!(err, ControllerError::Orchestrator(_)));
    assert!(!err.is_contract_violation());
    // The replica was not registered.
    assert!(c.compute(1).unwrap().get_replica(2).is_none());
}

#[test]
fn orchestrator_failure_on_drop_keeps_bookkeeping() {
    let mut failing = InMemoryOrchestrator::new(String::from("host.local"));
    failing.set_fail_requests(true);
    let mut c = new_controller_with(failing);
    c.create_instance(1, None).unwrap();
    let remote = ConcreteComputeInstanceReplicaConfig::Remote {
        replicas: vec![String::from("10.0.0.1:2100")],
    };
    c.add_replica_to_instance(1, 2, remote).unwrap();
    // External teardown is attempted before local removal, so the failure is
    // visible and the replica stays registered.
    let err = c.drop_replica(1, 2, managed(1, 1)).unwrap_err();
    assert!(matches!(err, ControllerError::Orchestrator(_)));
    assert!(c.compute(1).unwrap().get_replica(2).is_some());
}
