//! Control plane for a streaming dataflow engine.
//!
//! The controller tracks per-collection progress frontiers under the
//! frontier order, multiplexes responses from many compute instances and
//! one storage subsystem into a single ordered event stream, manages the
//! lifecycle of compute replicas through an orchestration interface, and
//! evaluates compaction policy.

pub mod compute;
pub mod controller;
pub mod frontier;
pub mod idmap;
pub mod naming;
pub mod orchestration;
pub mod policy;
pub mod storage;

pub use compute::{
    ComputeCommand, ComputeControllerState, ComputeResponse, LoggingConfig, PeekResult,
    ReplicaClient, TailBatch, TailResponse,
};
pub use controller::{
    ClusterReplicaSizeConfig, ClusterReplicaSizeMap, ConcreteComputeInstanceReplicaConfig,
    Controller, ControllerError, ControllerResponse, OrchestratorConfig, Response,
};
pub use frontier::Frontier;
pub use naming::{generate_instance_service_name, generate_replica_service_name, u64_to_string};
pub use orchestration::{
    build_replica_args, InMemoryOrchestrator, Orchestrator, OrchestratorCall, OrchestratorError,
    ServiceArgsConfig, ServiceConfig, ServicePort,
};
pub use policy::ReadPolicy;
pub use storage::{
    InMemoryStorageController, StorageCall, StorageController, StorageError, StoragePoll,
    StorageResponse, TimestampBinding, TimestampBindingFeedback,
};
