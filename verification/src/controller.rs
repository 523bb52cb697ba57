//! The controller facade: it owns one storage controller and the registry
//! of compute instances, delegates lifecycle operations to the orchestrator,
//! and multiplexes every inbound event stream into one ordered sequence of
//! controller-level events.

use vstd::prelude::*;

use crate::compute::{
    applied_frontier, logging_valid, response_wf, ComputeCommand, ComputeControllerState,
    ComputeResponse, LoggingConfig, PeekResult, ReplicaClient, TailResponse,
};
use crate::frontier::{frontier_join, frontier_le, Frontier};
use crate::idmap::IdMap;
use crate::naming::{
    dec_digits, generate_instance_service_name, generate_replica_service_name,
    instance_service_name_spec, replica_service_name_spec, u64_to_string,
};
use crate::orchestration::{
    Orchestrator, OrchestratorCall, OrchestratorError, ServiceArgsConfig, ServiceConfig,
    ServicePort,
};
use crate::storage::{
    StorageCall, StorageController, StorageError, StoragePoll, StorageResponse,
    TimestampBindingFeedback,
};

verus! {

broadcast use
    vstd::seq::group_seq_axioms,
    vstd::set::group_set_axioms,
    vstd::map::group_map_axioms,
    vstd::std_specs::vec::group_vec_axioms;


/// Configures the orchestration of compute services.
#[derive(Debug)]
pub struct OrchestratorConfig<O> {
    /// The orchestrator implementation to use.
    pub orchestrator: O,
    /// The image compute processes run.
    pub computed_image: String,
    /// The storage endpoint compute processes connect to.
    pub storage_addr: String,
    /// Whether compute processes outlive a lost controller connection.
    pub linger: bool,
}

/// A named resource profile for one replica.
#[derive(Debug, Clone, Copy, PartialEq, Eq, Structural)]
pub struct ClusterReplicaSizeConfig {
    /// An optional memory ceiling, in bytes.
    pub memory_limit: Option<u64>,
    /// An optional processor ceiling, in milli-units.
    pub cpu_limit: Option<u64>,
    /// How many processes the replica runs; at least one.
    pub scale: u64,
    /// How many worker threads each process runs; at least one.
    pub workers: u64,
}

/// The built-in table of replica size profiles, by name.
#[derive(Debug)]
pub struct ClusterReplicaSizeMap(pub Vec<(String, ClusterReplicaSizeConfig)>);

fn size_entry(scale: u64, workers: u64) -> (c: ClusterReplicaSizeConfig)
    ensures
        c == (ClusterReplicaSizeConfig {
            memory_limit: Option::None,
            cpu_limit: Option::None,
            scale,
            workers,
        }),
{
    ClusterReplicaSizeConfig { memory_limit: Option::None, cpu_limit: Option::None, scale, workers }
}

pub open spec fn plain_size(scale: u64, workers: u64) -> ClusterReplicaSizeConfig {
    ClusterReplicaSizeConfig {
        memory_limit: Option::None,
        cpu_limit: Option::None,
        scale,
        workers,
    }
}

impl Default for ClusterReplicaSizeMap {
    /// The built-in profiles: single-process sizes for every power of two
    /// of workers up to thirty-two, and a few two-process sizes, since
    /// multiple processes on one machine is a novelty for testing.
    fn default() -> (m: Self)
        ensures
            m.0@.len() == 9,
            m.0@[0].0@ == "1"@ && m.0@[0].1 == plain_size(1, 1),
            m.0@[1].0@ == "2"@ && m.0@[1].1 == plain_size(1, 2),
            m.0@[2].0@ == "4"@ && m.0@[2].1 == plain_size(1, 4),
            m.0@[3].0@ == "8"@ && m.0@[3].1 == plain_size(1, 8),
            m.0@[4].0@ == "16"@ && m.0@[4].1 == plain_size(1, 16),
            m.0@[5].0@ == "32"@ && m.0@[5].1 == plain_size(1, 32),
            m.0@[6].0@ == "2-1"@ && m.0@[6].1 == plain_size(2, 1),
            m.0@[7].0@ == "2-2"@ && m.0@[7].1 == plain_size(2, 2),
            m.0@[8].0@ == "2-4"@ && m.0@[8].1 == plain_size(2, 4),
    {
        let mut entries: Vec<(String, ClusterReplicaSizeConfig)> = Vec::new();
        entries.push((String::from_str("1"), size_entry(1, 1)));
        entries.push((String::from_str("2"), size_entry(1, 2)));
        entries.push((String::from_str("4"), size_entry(1, 4)));
        entries.push((String::from_str("8"), size_entry(1, 8)));
        entries.push((String::from_str("16"), size_entry(1, 16)));
        entries.push((String::from_str("32"), size_entry(1, 32)));
        entries.push((String::from_str("2-1"), size_entry(2, 1)));
        entries.push((String::from_str("2-2"), size_entry(2, 2)));
        entries.push((String::from_str("2-4"), size_entry(2, 4)));
        ClusterReplicaSizeMap(entries)
    }
}

/// How a replica is provided: remote processes already reachable at given
/// endpoints, or a managed service the orchestrator must run.
#[derive(Debug)]
pub enum ConcreteComputeInstanceReplicaConfig {
    /// Externally managed processes, reachable at these endpoints.
    Remote { replicas: Vec<String> },
    /// A service the orchestrator provisions from a resource profile and a
    /// placement hint.
    Managed { size_config: ClusterReplicaSizeConfig, availability_zone: String },
}

/// A replica configuration the controller can act on: a managed profile
/// must name at least one process.
pub open spec fn replica_config_wf(config: ConcreteComputeInstanceReplicaConfig) -> bool {
    match config {
        ConcreteComputeInstanceReplicaConfig::Remote { .. } => true,
        ConcreteComputeInstanceReplicaConfig::Managed { size_config, .. } => size_config.scale >= 1,
    }
}

/// How the controller can fail. Contract violations are caller bugs,
/// reported distinctly from recoverable collaborator failures; stale
/// responses are observable and non-fatal.
#[derive(Debug, Clone, Copy, PartialEq, Eq, Structural)]
pub enum ControllerError {
    /// Contract violation: the named instance does not exist.
    UnknownInstance(u64),
    /// Contract violation: the instance still has live replicas.
    ReplicasExist(u64),
    /// The logging configuration cannot be realised.
    InvalidLoggingConfig,
    /// The orchestrator failed; recoverable.
    Orchestrator(OrchestratorError),
    /// The storage collaborator failed; recoverable.
    Storage(StorageError),
    /// A response referenced an instance that no longer exists.
    StaleResponse(u64),
}

impl ControllerError {
    /// Whether this failure is a caller bug rather than a collaborator
    /// failure or a late message.
    pub fn is_contract_violation(&self) -> (b: bool)
        ensures
            b == (self is UnknownInstance || self is ReplicasExist),
    {
        match self {
            ControllerError::UnknownInstance(_) => true,
            ControllerError::ReplicasExist(_) => true,
            _ => false,
        }
    }
}

/// An event exposed to the controller's caller.
#[derive(Debug)]
pub enum ControllerResponse {
    /// A peek completed; the payload is exposed verbatim.
    PeekResponse(u64, PeekResult),
    /// A tail stream advanced or was dropped; exposed verbatim.
    TailResponse(u64, TailResponse),
    /// A linearized-timestamp result, exposed verbatim.
    LinearizedTimestamps(u64),
}

/// The outcome of one multiplexed receive step.
#[derive(Debug)]
pub enum Response {
    /// An event for the caller.
    Ready(ControllerResponse),
    /// Bookkeeping was done, or nothing is ready yet: call again.
    RecvAgain,
    /// No source remains live: no instance exists and storage has closed.
    Done,
}

/// The controller: a single owner of all mutable control-plane state.
#[derive(Debug)]
pub struct Controller<O, S> {
    orchestrator: OrchestratorConfig<O>,
    storage_controller: S,
    compute: IdMap<ComputeControllerState>,
    storage_alive: bool,
    commands: Vec<(u64, ComputeCommand)>,
}

impl<O: Orchestrator, S: StorageController> Controller<O, S> {
    pub closed spec fn wf(&self) -> bool {
        &&& self.compute.wf()
        &&& forall|k: u64|
            self.compute@.dom().contains(k) ==> (#[trigger] self.compute@[k]).wf()
    }

    /// The registry of compute instances.
    pub closed spec fn instances(&self) -> Map<u64, ComputeControllerState> {
        self.compute@
    }

    pub open spec fn has_instance(&self, id: u64) -> bool {
        self.instances().dom().contains(id)
    }

    /// Whether the storage event stream is still live.
    pub closed spec fn alive(&self) -> bool {
        self.storage_alive
    }

    /// The storage controller owned by this controller.
    pub closed spec fn storage_spec(&self) -> S {
        self.storage_controller
    }

    /// The orchestration requests made so far.
    pub closed spec fn orchestrator_calls(&self) -> Seq<OrchestratorCall> {
        self.orchestrator.orchestrator.calls()
    }

    pub closed spec fn image_spec(&self) -> Seq<char> {
        self.orchestrator.computed_image@
    }

    pub closed spec fn storage_addr_spec(&self) -> Seq<char> {
        self.orchestrator.storage_addr@
    }

    pub closed spec fn linger_spec(&self) -> bool {
        self.orchestrator.linger
    }

    /// The commands queued on instance command paths, oldest first.
    pub closed spec fn commands_spec(&self) -> Seq<(u64, ComputeCommand)> {
        self.commands@
    }

    /// Everything but the instance registry is as it was.
    pub open spec fn same_collaborators(old_c: Self, new_c: Self) -> bool {
        &&& new_c.storage_spec() == old_c.storage_spec()
        &&& new_c.alive() == old_c.alive()
        &&& new_c.orchestrator_calls() == old_c.orchestrator_calls()
        &&& new_c.image_spec() == old_c.image_spec()
        &&& new_c.storage_addr_spec() == old_c.storage_addr_spec()
        &&& new_c.linger_spec() == old_c.linger_spec()
        &&& new_c.commands_spec() == old_c.commands_spec()
    }

    /// The registry is as it was.
    pub open spec fn same_instances(old_c: Self, new_c: Self) -> bool {
        new_c.instances() == old_c.instances()
    }

    /// Creates a controller around an orchestrator configuration and the
    /// storage controller it wraps. The storage stream starts live; no
    /// instance exists yet.
    pub fn new(orchestrator: OrchestratorConfig<O>, storage_controller: S) -> (c: Self)
        ensures
            c.wf(),
            c.instances() == Map::<u64, ComputeControllerState>::empty(),
            c.alive(),
            c.storage_spec() == storage_controller,
            c.orchestrator_calls() == orchestrator.orchestrator.calls(),
            c.image_spec() == orchestrator.computed_image@,
            c.storage_addr_spec() == orchestrator.storage_addr@,
            c.linger_spec() == orchestrator.linger,
            c.commands_spec() == Seq::<(u64, ComputeCommand)>::empty(),
    {
        Controller {
            orchestrator,
            storage_controller,
            compute: IdMap::new(),
            storage_alive: true,
            commands: Vec::new(),
        }
    }

    /// An immutable handle to the orchestration configuration, through
    /// which the orchestrator's request history can be inspected.
    pub fn orchestration_config(&self) -> (c: &OrchestratorConfig<O>)
        ensures
            c.orchestrator.calls() == self.orchestrator_calls(),
            c.computed_image@ == self.image_spec(),
            c.storage_addr@ == self.storage_addr_spec(),
            c.linger == self.linger_spec(),
    {
        &self.orchestrator
    }

    /// An immutable handle to the storage controller.
    pub fn storage(&self) -> (s: &S)
        ensures
            *s == self.storage_spec(),
    {
        &self.storage_controller
    }

    /// A mutable handle to the storage controller.
    pub fn storage_mut(&mut self) -> (s: &mut S)
        ensures
            *s == old(self).storage_spec(),
            final(self).storage_spec() == *final(s),
            final(self).wf() == old(self).wf(),
            final(self).instances() == old(self).instances(),
            final(self).alive() == old(self).alive(),
            final(self).orchestrator_calls() == old(self).orchestrator_calls(),
            final(self).image_spec() == old(self).image_spec(),
            final(self).storage_addr_spec() == old(self).storage_addr_spec(),
            final(self).linger_spec() == old(self).linger_spec(),
            final(self).commands_spec() == old(self).commands_spec(),
    {
        &mut self.storage_controller
    }

    /// An immutable handle to an instance's state, if it exists.
    pub fn compute(&self, instance: u64) -> (r: Option<&ComputeControllerState>)
        requires
            self.wf(),
        ensures
            match r {
                Option::Some(c) => self.has_instance(instance) && *c == self.instances()[instance],
                Option::None => !self.has_instance(instance),
            },
    {
        self.compute.get(instance)
    }

    /// A mutable handle to an instance's state, if it exists.
    pub fn compute_mut(&mut self, instance: u64) -> (r: Option<&mut ComputeControllerState>)
        requires
            old(self).wf(),
        ensures
            match r {
                Option::Some(c) => old(self).has_instance(instance) && *c == old(self).instances()[
                    instance
                ] && final(self).instances() == old(self).instances().insert(
                    instance,
                    *final(c),
                ) && (final(c).wf() ==> final(self).wf()),
                Option::None => !old(self).has_instance(instance) && *final(self) == *old(self),
            },
            r is Some ==> Self::same_collaborators(*old(self), *final(self)),
            r is None ==> Self::same_collaborators(*old(self), *final(self)),
    {
        if self.compute.contains_key(instance) {
            Option::Some(self.compute.get_mut(instance))
        } else {
            Option::None
        }
    }

    /// Creates (or re-creates, replacing prior state) a compute instance.
    /// Fails, reported and without effect, when the logging configuration
    /// cannot be realised.
    pub fn create_instance(&mut self, instance: u64, logging: Option<LoggingConfig>) -> (r: Result<
        (),
        ControllerError,
    >)
        requires
            old(self).wf(),
        ensures
            final(self).wf(),
            Self::same_collaborators(*old(self), *final(self)),
            !logging_valid(logging) ==> r == Result::<(), ControllerError>::Err(
                ControllerError::InvalidLoggingConfig,
            ) && Self::same_instances(*old(self), *final(self)),
            logging_valid(logging) ==> r is Ok && final(self).instances().dom() == old(self).instances().dom().insert(instance) && (forall|k: u64|
                k != instance && old(self).has_instance(k) ==> final(self).instances()[k] == old(self).instances()[k]) && ({
                let s = final(self).instances()[instance];
                &&& s.replicas_spec() == Map::<u64, ReplicaClient>::empty()
                &&& forall|g: u64| s.write_frontier_of(g) == Option::Some(0int)
                &&& s.peeks_spec() == Seq::<u64>::empty()
                &&& s.queue_spec() == Seq::<ComputeResponse>::empty()
                &&& s.logging_spec() == logging
            }),
    {
        let valid = match logging {
            Option::None => true,
            Option::Some(c) => c.granularity_ns >= 1,
        };
        if !valid {
            return Result::Err(ControllerError::InvalidLoggingConfig);
        }
        let state = ComputeControllerState::new(logging);
        self.compute.insert(instance, state);
        Result::Ok(())
    }

    /// The registry after a replica was added to an instance: only that
    /// instance's replica set changed, gaining the replica under its
    /// deterministic service name; no frontier state changed.
    pub open spec fn replica_added(old_c: Self, new_c: Self, instance: u64, replica: u64) -> bool {
        &&& new_c.instances().dom() == old_c.instances().dom()
        &&& forall|k: u64|
            k != instance && old_c.has_instance(k) ==> new_c.instances()[k] == old_c.instances()[k]
        &&& ({
            let old_s = old_c.instances()[instance];
            let new_s = new_c.instances()[instance];
            &&& new_s.replicas_spec().dom() == old_s.replicas_spec().dom().insert(replica)
            &&& new_s.replicas_spec()[replica].name@ == replica_service_name_spec(
                instance as nat,
                replica as nat,
            )
            &&& forall|r: u64|
                r != replica && old_s.replicas_spec().dom().contains(r)
                    ==> new_s.replicas_spec().dom().contains(r) && new_s.replicas_spec()[r]
                    == old_s.replicas_spec()[r]
            &&& forall|g: u64| new_s.write_frontier_of(g) == old_s.write_frontier_of(g)
            &&& new_s.peeks_spec() == old_s.peeks_spec()
            &&& new_s.queue_spec() == old_s.queue_spec()
            &&& new_s.logging_spec() == old_s.logging_spec()
        })
    }

    /// The registry after a replica was removed from an instance: only that
    /// instance's replica set changed, losing the replica.
    pub open spec fn replica_removed(old_c: Self, new_c: Self, instance: u64, replica: u64) -> bool {
        &&& new_c.instances().dom() == old_c.instances().dom()
        &&& forall|k: u64|
            k != instance && old_c.has_instance(k) ==> new_c.instances()[k] == old_c.instances()[k]
        &&& ({
            let old_s = old_c.instances()[instance];
            let new_s = new_c.instances()[instance];
            &&& new_s.replicas_spec() == old_s.replicas_spec().remove(replica)
            &&& forall|g: u64| new_s.write_frontier_of(g) == old_s.write_frontier_of(g)
            &&& new_s.peeks_spec() == old_s.peeks_spec()
            &&& new_s.queue_spec() == old_s.queue_spec()
            &&& new_s.logging_spec() == old_s.logging_spec()
        })
    }

    /// What the orchestrator must have been asked for a managed replica:
    /// the service named from the identifier pair, with the image, the
    /// profile's limits and process count, the three named ports, the
    /// argument inputs, and the instance labels, all passed through.
    pub open spec fn managed_service_request(
        call: OrchestratorCall,
        instance: u64,
        replica: u64,
        image: Seq<char>,
        storage_addr: Seq<char>,
        linger: bool,
        size: ClusterReplicaSizeConfig,
        az: Seq<char>,
    ) -> bool {
        &&& call is EnsureService
        &&& call->EnsureService_0@ == replica_service_name_spec(instance as nat, replica as nat)
        &&& ({
            let sc = call->EnsureService_1;
            &&& sc.image@ == image
            &&& sc.scale == size.scale
            &&& sc.cpu_limit == size.cpu_limit
            &&& sc.memory_limit == size.memory_limit
            &&& sc.args.storage_addr@ == storage_addr
            &&& sc.args.scale == size.scale
            &&& sc.args.workers == size.workers
            &&& sc.args.linger == linger
            &&& sc.ports@.len() == 3
            &&& sc.ports@[0].name@ == "controller"@ && sc.ports@[0].port_hint == 2100
            &&& sc.ports@[1].name@ == "compute"@ && sc.ports@[1].port_hint == 2102
            &&& sc.ports@[2].name@ == "http"@ && sc.ports@[2].port_hint == 2103
            &&& sc.labels@.len() == 2
            &&& sc.labels@[0].0@ == "cluster-id"@ && sc.labels@[0].1@ == dec_digits(
                instance as nat,
            )
            &&& sc.labels@[1].0@ == "type"@ && sc.labels@[1].1@ == "cluster"@
            &&& sc.availability_zone@ == az
        })
    }

    /// Adds a replica to an instance. The instance must already exist:
    /// violating that is a contract error, reported and without effect, and
    /// never creates the instance implicitly. A remote replica only
    /// registers a client for the given endpoints; a managed replica first
    /// asks the orchestrator to ensure its service and registers a client
    /// for the returned control addresses. No frontier state changes.
    pub fn add_replica_to_instance(
        &mut self,
        instance_id: u64,
        replica_id: u64,
        config: ConcreteComputeInstanceReplicaConfig,
    ) -> (r: Result<(), ControllerError>)
        requires
            old(self).wf(),
            replica_config_wf(config),
        ensures
            final(self).wf(),
            final(self).storage_spec() == old(self).storage_spec(),
            final(self).alive() == old(self).alive(),
            final(self).commands_spec() == old(self).commands_spec(),
            final(self).image_spec() == old(self).image_spec(),
            final(self).storage_addr_spec() == old(self).storage_addr_spec(),
            final(self).linger_spec() == old(self).linger_spec(),
            !old(self).has_instance(instance_id) ==> r == Result::<(), ControllerError>::Err(
                ControllerError::UnknownInstance(instance_id),
            ) && Self::same_instances(*old(self), *final(self)) && final(self).orchestrator_calls()
                == old(self).orchestrator_calls(),
            config matches ConcreteComputeInstanceReplicaConfig::Remote { replicas } ==> (old(self).has_instance(instance_id) ==> r is Ok && final(self).orchestrator_calls() == old(self).orchestrator_calls() && Self::replica_added(
                *old(self),
                *final(self),
                instance_id,
                replica_id,
            ) && final(self).instances()[instance_id].replicas_spec()[replica_id].addrs == replicas),
            config matches ConcreteComputeInstanceReplicaConfig::Managed {
                size_config,
                availability_zone,
            } ==> (old(self).has_instance(instance_id)
                ==> final(self).orchestrator_calls().len() == old(self).orchestrator_calls().len()
                + 1 && final(self).orchestrator_calls().drop_last() == old(self).orchestrator_calls() && Self::managed_service_request(
                final(self).orchestrator_calls().last(),
                instance_id,
                replica_id,
                old(self).image_spec(),
                old(self).storage_addr_spec(),
                old(self).linger_spec(),
                size_config,
                availability_zone@,
            ) && (r is Ok ==> Self::replica_added(*old(self), *final(self), instance_id, replica_id)
                && final(self).instances()[instance_id].replicas_spec()[replica_id].addrs@.len()
                == size_config.scale) && (r is Err ==> r->Err_0 is Orchestrator
                && Self::same_instances(*old(self), *final(self)))),
    {
        if !self.compute.contains_key(instance_id) {
            return Result::Err(ControllerError::UnknownInstance(instance_id));
        }
        let replica_name = generate_replica_service_name(instance_id, replica_id);
        match config {
            ConcreteComputeInstanceReplicaConfig::Remote { replicas } => {
                let client = ReplicaClient { name: replica_name, addrs: replicas };
                let state = self.compute.get_mut(instance_id);
                state.add_replica(replica_id, client);
                proof {
                    assert forall|k: u64| final(self).instances().dom().contains(k) implies (
                    #[trigger] final(self).instances()[k]).wf() by {
                        if k != instance_id {
                            assert(final(self).instances()[k] == old(self).instances()[k]);
                        }
                    }
                    assert(final(self).instances().dom() =~= old(self).instances().dom());
                }
                Result::Ok(())
            },
            ConcreteComputeInstanceReplicaConfig::Managed { size_config, availability_zone } => {
                let image = self.orchestrator.computed_image.clone();
                let storage_addr = self.orchestrator.storage_addr.clone();
                let linger = self.orchestrator.linger;
                let mut ports: Vec<ServicePort> = Vec::new();
                ports.push(ServicePort { name: String::from_str("controller"), port_hint: 2100 });
                ports.push(ServicePort { name: String::from_str("compute"), port_hint: 2102 });
                ports.push(ServicePort { name: String::from_str("http"), port_hint: 2103 });
                let mut labels: Vec<(String, String)> = Vec::new();
                labels.push((String::from_str("cluster-id"), u64_to_string(instance_id)));
                labels.push((String::from_str("type"), String::from_str("cluster")));
                let service_config = ServiceConfig {
                    image,
                    args: ServiceArgsConfig {
                        storage_addr,
                        scale: size_config.scale,
                        workers: size_config.workers,
                        linger,
                    },
                    ports,
                    cpu_limit: size_config.cpu_limit,
                    memory_limit: size_config.memory_limit,
                    scale: size_config.scale,
                    labels,
                    availability_zone,
                };
                let name_for_client = replica_name.clone();
                let outcome = self.orchestrator.orchestrator.ensure_service(
                    replica_name,
                    service_config,
                );
                match outcome {
                    Result::Ok(addrs) => {
                        let client = ReplicaClient { name: name_for_client, addrs };
                        let state = self.compute.get_mut(instance_id);
                        state.add_replica(replica_id, client);
                        proof {
                            assert forall|k: u64|
                                final(self).instances().dom().contains(k) implies (#[trigger] final(self).instances()[k]).wf() by {
                                if k != instance_id {
                                    assert(final(self).instances()[k] == old(self).instances()[k]);
                                }
                            }
                            assert(final(self).instances().dom() =~= old(self).instances().dom());
                        }
                        Result::Ok(())
                    },
                    Result::Err(e) => Result::Err(ControllerError::Orchestrator(e)),
                }
            },
        }
    }

    /// Removes a replica from an instance. For a managed replica the
    /// orchestrator is asked to tear the service down first, so a failure
    /// there is visible and leaves the local bookkeeping in place; remote
    /// replicas have no external service. Operating on an unknown instance
    /// is a contract error, reported and without effect.
    pub fn drop_replica(
        &mut self,
        instance_id: u64,
        replica_id: u64,
        config: ConcreteComputeInstanceReplicaConfig,
    ) -> (r: Result<(), ControllerError>)
        requires
            old(self).wf(),
        ensures
            final(self).wf(),
            final(self).storage_spec() == old(self).storage_spec(),
            final(self).alive() == old(self).alive(),
            final(self).commands_spec() == old(self).commands_spec(),
            final(self).image_spec() == old(self).image_spec(),
            final(self).storage_addr_spec() == old(self).storage_addr_spec(),
            final(self).linger_spec() == old(self).linger_spec(),
            !old(self).has_instance(instance_id) ==> r == Result::<(), ControllerError>::Err(
                ControllerError::UnknownInstance(instance_id),
            ) && Self::same_instances(*old(self), *final(self)) && final(self).orchestrator_calls()
                == old(self).orchestrator_calls(),
            config matches ConcreteComputeInstanceReplicaConfig::Remote { .. } ==> (old(self).has_instance(instance_id) ==> r is Ok && final(self).orchestrator_calls() == old(self).orchestrator_calls() && Self::replica_removed(
                *old(self),
                *final(self),
                instance_id,
                replica_id,
            )),
            config matches ConcreteComputeInstanceReplicaConfig::Managed { .. } ==> (old(self).has_instance(instance_id) ==> final(self).orchestrator_calls().len() == old(self).orchestrator_calls().len() + 1 && final(self).orchestrator_calls().drop_last() == old(self).orchestrator_calls() && final(self).orchestrator_calls().last() is DropService && final(self).orchestrator_calls().last()->DropService_0@ == replica_service_name_spec(
                instance_id as nat,
                replica_id as nat,
            ) && (r is Ok ==> Self::replica_removed(
                *old(self),
                *final(self),
                instance_id,
                replica_id,
            )) && (r is Err ==> r->Err_0 is Orchestrator && Self::same_instances(
                *old(self),
                *final(self),
            ))),
    {
        if !self.compute.contains_key(instance_id) {
            return Result::Err(ControllerError::UnknownInstance(instance_id));
        }
        let replica_name = generate_replica_service_name(instance_id, replica_id);
        let managed = match &config {
            ConcreteComputeInstanceReplicaConfig::Managed { .. } => true,
            ConcreteComputeInstanceReplicaConfig::Remote { .. } => false,
        };
        if managed {
            match self.orchestrator.orchestrator.drop_service(replica_name) {
                Result::Ok(()) => {},
                Result::Err(e) => {
                    return Result::Err(ControllerError::Orchestrator(e));
                },
            }
        }
        let state = self.compute.get_mut(instance_id);
        state.remove_replica(replica_id);
        proof {
            assert forall|k: u64| final(self).instances().dom().contains(k) implies (
            #[trigger] final(self).instances()[k]).wf() by {
                if k != instance_id {
                    assert(final(self).instances()[k] == old(self).instances()[k]);
                }
            }
            assert(final(self).instances().dom() =~= old(self).instances().dom());
        }
        Result::Ok(())
    }

    /// Drops an instance. With replicas still attached this is a contract
    /// error, reported and without effect. On an unknown instance it is a
    /// no-op. Otherwise the instance's aggregate orchestrator service is
    /// removed, an explicit teardown command is queued on the instance's
    /// command path (to flush transport-level shutdown semantics even with
    /// no replica attached), and the registry entry is discarded.
    pub fn drop_instance(&mut self, instance: u64) -> (r: Result<(), ControllerError>)
        requires
            old(self).wf(),
        ensures
            final(self).wf(),
            final(self).storage_spec() == old(self).storage_spec(),
            final(self).alive() == old(self).alive(),
            final(self).image_spec() == old(self).image_spec(),
            final(self).storage_addr_spec() == old(self).storage_addr_spec(),
            final(self).linger_spec() == old(self).linger_spec(),
            !old(self).has_instance(instance) ==> r is Ok && Self::same_instances(
                *old(self),
                *final(self),
            ) && final(self).orchestrator_calls() == old(self).orchestrator_calls() && final(self).commands_spec() == old(self).commands_spec(),
            old(self).has_instance(instance) && old(self).instances()[instance].replicas_spec()
                != Map::<u64, ReplicaClient>::empty() ==> r == Result::<(), ControllerError>::Err(
                ControllerError::ReplicasExist(instance),
            ) && Self::same_instances(*old(self), *final(self)) && final(self).orchestrator_calls()
                == old(self).orchestrator_calls() && final(self).commands_spec() == old(self).commands_spec(),
            old(self).has_instance(instance) && old(self).instances()[instance].replicas_spec()
                == Map::<u64, ReplicaClient>::empty() ==> final(self).orchestrator_calls().len()
                == old(self).orchestrator_calls().len() + 1 && final(self).orchestrator_calls().drop_last() == old(self).orchestrator_calls() && final(self).orchestrator_calls().last() is DropService && final(self).orchestrator_calls().last()->DropService_0@ == instance_service_name_spec(
                instance as nat,
            ) && (r is Ok ==> final(self).instances() == old(self).instances().remove(instance)
                && final(self).commands_spec() == old(self).commands_spec().push(
                (instance, ComputeCommand::DropInstance),
            )) && (r is Err ==> r->Err_0 is Orchestrator && Self::same_instances(
                *old(self),
                *final(self),
            ) && final(self).commands_spec() == old(self).commands_spec()),
    {
        let has_replicas = match self.compute.get(instance) {
            Option::None => {
                return Result::Ok(());
            },
            Option::Some(state) => state.has_replicas(),
        };
        if has_replicas {
            return Result::Err(ControllerError::ReplicasExist(instance));
        }
        let name = generate_instance_service_name(instance);
        match self.orchestrator.orchestrator.drop_service(name) {
            Result::Ok(()) => {},
            Result::Err(e) => {
                return Result::Err(ControllerError::Orchestrator(e));
            },
        }
        self.commands.push((instance, ComputeCommand::DropInstance));
        self.compute.remove(instance);
        proof {
            assert forall|k: u64| final(self).instances().dom().contains(k) implies (
            #[trigger] final(self).instances()[k]).wf() by {
                assert(final(self).instances()[k] == old(self).instances()[k]);
            }
        }
        Result::Ok(())
    }

    /// Delivers a response arriving from an instance's replicas. A response
    /// that references an unknown (for example, already removed) instance is
    /// reported as a stale response: observable, never fatal.
    pub fn push_compute_response(&mut self, instance: u64, response: ComputeResponse) -> (r: Result<
        (),
        ControllerError,
    >)
        requires
            old(self).wf(),
            response_wf(response),
        ensures
            final(self).wf(),
            Self::same_collaborators(*old(self), *final(self)),
            !old(self).has_instance(instance) ==> r == Result::<(), ControllerError>::Err(
                ControllerError::StaleResponse(instance),
            ) && Self::same_instances(*old(self), *final(self)),
            old(self).has_instance(instance) ==> r is Ok && final(self).instances().dom() == old(self).instances().dom() && (forall|k: u64|
                k != instance && old(self).has_instance(k) ==> final(self).instances()[k] == old(self).instances()[k]) && ({
                let old_s = old(self).instances()[instance];
                let new_s = final(self).instances()[instance];
                &&& new_s.queue_spec() == old_s.queue_spec().push(response)
                &&& new_s.replicas_spec() == old_s.replicas_spec()
                &&& forall|g: u64| new_s.write_frontier_of(g) == old_s.write_frontier_of(g)
                &&& new_s.peeks_spec() == old_s.peeks_spec()
                &&& new_s.logging_spec() == old_s.logging_spec()
            }),
    {
        if !self.compute.contains_key(instance) {
            return Result::Err(ControllerError::StaleResponse(instance));
        }
        let state = self.compute.get_mut(instance);
        state.push_response(response);
        proof {
            assert forall|k: u64| final(self).instances().dom().contains(k) implies (
            #[trigger] final(self).instances()[k]).wf() by {
                if k != instance {
                    assert(final(self).instances()[k] == old(self).instances()[k]);
                }
            }
            assert(final(self).instances().dom() =~= old(self).instances().dom());
        }
        Result::Ok(())
    }

    /// Takes the oldest command queued on any instance's command path, for
    /// the transport layer to deliver.
    pub fn pop_command(&mut self) -> (r: Option<(u64, ComputeCommand)>)
        requires
            old(self).wf(),
        ensures
            final(self).wf(),
            Self::same_instances(*old(self), *final(self)),
            final(self).storage_spec() == old(self).storage_spec(),
            final(self).alive() == old(self).alive(),
            final(self).orchestrator_calls() == old(self).orchestrator_calls(),
            final(self).image_spec() == old(self).image_spec(),
            final(self).storage_addr_spec() == old(self).storage_addr_spec(),
            final(self).linger_spec() == old(self).linger_spec(),
            old(self).commands_spec().len() > 0 ==> r == Option::Some(old(self).commands_spec()[0])
                && final(self).commands_spec() == old(self).commands_spec().drop_first(),
            old(self).commands_spec().len() == 0 ==> r is None && final(self).commands_spec()
                == old(self).commands_spec(),
    {
        if self.commands.len() > 0 {
            let c = self.commands.remove(0);
            proof {
                assert(self.commands@ =~= old(self).commands_spec().drop_first());
            }
            Option::Some(c)
        } else {
            Option::None
        }
    }

    /// No source remains live: the storage stream is dead and no instance
    /// exists.
    pub open spec fn no_sources(c: Self) -> bool {
        !c.alive() && c.instances().dom() =~= Set::<u64>::empty()
    }

    /// The storage stream had nothing to offer this step: it is dead, or
    /// live with nothing pending and not closed.
    pub open spec fn storage_idle(c: Self) -> bool {
        !c.alive() || (c.storage_spec().pending().len() == 0 && !c.storage_spec().stream_closed())
    }

    /// Some instance has a response waiting.
    pub open spec fn some_instance_ready(c: Self) -> bool {
        exists|i: u64| c.has_instance(i) && c.instances()[i].queue_spec().len() > 0
    }

    /// How a storage timestamp-binding event is handled: the bindings are
    /// durably persisted strictly before the corresponding frontier changes
    /// are applied, and a persistence failure prevents the frontier update
    /// entirely. Nothing is exposed to the caller.
    pub open spec fn storage_bindings_handled(
        old_c: Self,
        new_c: Self,
        r: Result<Response, ControllerError>,
    ) -> bool {
        let e = old_c.storage_spec().pending()[0];
        let fb = e->TimestampBindings_0;
        &&& new_c.storage_spec().pending() == old_c.storage_spec().pending().drop_first()
        &&& new_c.storage_spec().stream_closed() == old_c.storage_spec().stream_closed()
        &&& new_c.alive() == old_c.alive()
        &&& Self::same_instances(old_c, new_c)
        &&& (r is Ok ==> r->Ok_0 is RecvAgain && new_c.storage_spec().calls()
            == old_c.storage_spec().calls().push(StorageCall::Persist(fb.bindings)).push(
            StorageCall::Apply(fb.changes),
        ))
        &&& (r is Err ==> r->Err_0 is Storage && (new_c.storage_spec().calls()
            == old_c.storage_spec().calls() || new_c.storage_spec().calls()
            == old_c.storage_spec().calls().push(StorageCall::Persist(fb.bindings))))
    }

    /// How one instance's response is translated, per the multiplexing
    /// rules: frontier reports are folded in and retried; peek completions
    /// clear their in-flight entry and expose the payload verbatim; tail
    /// events fold the tail's progress forward and expose the payload
    /// verbatim.
    pub open spec fn compute_event_handled(
        old_c: Self,
        new_c: Self,
        i: u64,
        r: Result<Response, ControllerError>,
    ) -> bool {
        let old_s = old_c.instances()[i];
        let new_s = new_c.instances()[i];
        let e = old_s.queue_spec()[0];
        &&& old_c.has_instance(i)
        &&& old_s.queue_spec().len() > 0
        &&& new_c.instances().dom() == old_c.instances().dom()
        &&& (forall|k: u64|
            k != i && old_c.has_instance(k) ==> new_c.instances()[k] == old_c.instances()[k])
        &&& new_s.queue_spec() == old_s.queue_spec().drop_first()
        &&& new_s.replicas_spec() == old_s.replicas_spec()
        &&& new_s.logging_spec() == old_s.logging_spec()
        &&& new_c.storage_spec().calls() == old_c.storage_spec().calls()
        &&& new_c.storage_spec().pending() == old_c.storage_spec().pending()
        &&& new_c.storage_spec().stream_closed() == old_c.storage_spec().stream_closed()
        &&& new_c.alive() == old_c.alive()
        &&& match e {
            ComputeResponse::FrontierUppers(ups) => {
                &&& r == Result::<Response, ControllerError>::Ok(Response::RecvAgain)
                &&& new_s.peeks_spec() == old_s.peeks_spec()
                &&& forall|g: u64|
                    new_s.write_frontier_of(g) == applied_frontier(
                        old_s.write_frontier_of(g),
                        ups@.map_values(|u: (u64, Frontier)| (u.0, u.1@)),
                        g,
                    )
            },
            ComputeResponse::PeekResponse(uuid, payload) => {
                &&& r == Result::<Response, ControllerError>::Ok(
                    Response::Ready(ControllerResponse::PeekResponse(uuid, payload)),
                )
                &&& !new_s.has_peek(uuid)
                &&& forall|u: u64| u != uuid ==> new_s.has_peek(u) == old_s.has_peek(u)
                &&& forall|g: u64| new_s.write_frontier_of(g) == old_s.write_frontier_of(g)
            },
            ComputeResponse::TailResponse(gid, tr) => {
                &&& r == Result::<Response, ControllerError>::Ok(
                    Response::Ready(ControllerResponse::TailResponse(gid, tr)),
                )
                &&& new_s.peeks_spec() == old_s.peeks_spec()
                &&& (forall|g: u64|
                    g != gid ==> new_s.write_frontier_of(g) == old_s.write_frontier_of(g))
                &&& match tr {
                    TailResponse::Batch(tb) => new_s.write_frontier_of(gid) == frontier_join(
                        old_s.write_frontier_of(gid),
                        tb.upper@,
                    ),
                    TailResponse::DroppedAt(_) => new_s.write_frontier_of(gid)
                        == Option::<int>::None,
                }
            },
        }
    }

    /// One multiplexed receive step: the live storage stream is polled
    /// first, then the instances' queues; whichever source is ready is
    /// serviced, its bookkeeping applied, and the translated event (if any)
    /// exposed. Yields `Done` exactly when no source remains live. No
    /// tracked write frontier ever regresses, on any path.
    pub fn recv(&mut self) -> (r: Result<Response, ControllerError>)
        requires
            old(self).wf(),
        ensures
            final(self).wf(),
            final(self).instances().dom() == old(self).instances().dom(),
            final(self).orchestrator_calls() == old(self).orchestrator_calls(),
            final(self).commands_spec() == old(self).commands_spec(),
            final(self).image_spec() == old(self).image_spec(),
            final(self).storage_addr_spec() == old(self).storage_addr_spec(),
            final(self).linger_spec() == old(self).linger_spec(),
            forall|i: u64, g: u64|
                old(self).has_instance(i) ==> frontier_le(
                    old(self).instances()[i].write_frontier_of(g),
                    #[trigger] final(self).instances()[i].write_frontier_of(g),
                ),
            r == Result::<Response, ControllerError>::Ok(Response::Done) <==> Self::no_sources(
                *old(self),
            ),
            Self::no_sources(*old(self)) ==> *final(self) == *old(self),
            old(self).alive() && old(self).storage_spec().pending().len() > 0 ==> ({
                let e = old(self).storage_spec().pending()[0];
                match e {
                    StorageResponse::TimestampBindings(_) => Self::storage_bindings_handled(
                        *old(self),
                        *final(self),
                        r,
                    ),
                    StorageResponse::LinearizedTimestamps(t) => r == Result::<
                        Response,
                        ControllerError,
                    >::Ok(Response::Ready(ControllerResponse::LinearizedTimestamps(t)))
                        && Self::same_instances(*old(self), *final(self)) && final(self).storage_spec().calls() == old(self).storage_spec().calls() && final(self).storage_spec().pending() == old(self).storage_spec().pending().drop_first()
                        && final(self).alive() == old(self).alive(),
                }
            }),
            old(self).alive() && old(self).storage_spec().pending().len() == 0 && old(self).storage_spec().stream_closed() ==> !final(self).alive() && r == Result::<
                Response,
                ControllerError,
            >::Ok(Response::RecvAgain) && Self::same_instances(*old(self), *final(self)) && final(self).storage_spec().calls() == old(self).storage_spec().calls() && final(self).storage_spec().pending() == old(self).storage_spec().pending(),
            Self::storage_idle(*old(self)) && Self::some_instance_ready(*old(self)) ==> exists|
                i: u64,
            | Self::compute_event_handled(*old(self), *final(self), i, r),
            Self::storage_idle(*old(self)) && !Self::some_instance_ready(*old(self))
                && !Self::no_sources(*old(self)) ==> r == Result::<Response, ControllerError>::Ok(
                Response::RecvAgain,
            ) && Self::same_instances(*old(self), *final(self)) && final(self).alive() == old(self).alive() && final(self).storage_spec().calls() == old(self).storage_spec().calls()
                && final(self).storage_spec().pending() == old(self).storage_spec().pending(),
    {
        if self.storage_alive {
            let poll = self.storage_controller.try_recv();
            match poll {
                StoragePoll::Ready(StorageResponse::TimestampBindings(fb)) => {
                    // Order is load-bearing: the bindings must be durably
                    // recorded before the frontier changes are acted on, or
                    // an ill-timed crash loses data.
                    let TimestampBindingFeedback { bindings, changes } = fb;
                    match self.storage_controller.persist_timestamp_bindings(bindings) {
                        Result::Ok(()) => {},
                        Result::Err(e) => {
                            return Result::Err(ControllerError::Storage(e));
                        },
                    }
                    match self.storage_controller.update_write_frontiers(changes) {
                        Result::Ok(()) => {},
                        Result::Err(e) => {
                            return Result::Err(ControllerError::Storage(e));
                        },
                    }
                    return Result::Ok(Response::RecvAgain);
                },
                StoragePoll::Ready(StorageResponse::LinearizedTimestamps(t)) => {
                    return Result::Ok(
                        Response::Ready(ControllerResponse::LinearizedTimestamps(t)),
                    );
                },
                StoragePoll::Closed => {
                    // A permanent closure of the storage stream is a normal
                    // terminal transition, never an error.
                    self.storage_alive = false;
                    return Result::Ok(Response::RecvAgain);
                },
                StoragePoll::Pending => {},
            }
        }
        let n = self.compute.len();
        let mut i: usize = 0;
        let mut ready: Option<u64> = Option::None;
        while i < n
            invariant
                self.wf(),
                self.compute == old(self).compute,
                self.storage_alive == old(self).storage_alive,
                self.commands == old(self).commands,
                self.orchestrator == old(self).orchestrator,
                self.storage_controller.calls() == old(self).storage_spec().calls(),
                self.storage_controller.pending() == old(self).storage_spec().pending(),
                self.storage_controller.stream_closed() == old(self).storage_spec().stream_closed(),
                n == self.compute.entries_spec().len(),
                i <= n,
                match ready {
                    Option::Some(k) => self.has_instance(k) && self.instances()[k].queue_spec().len()
                        > 0,
                    Option::None => forall|j: int|
                        0 <= j < i ==> (#[trigger] self.compute.entries_spec()[j]).1.queue_spec().len()
                            == 0,
                },
            decreases n - i,
        {
            if matches!(ready, Option::None) {
                let k = self.compute.key_at(i);
                let v = self.compute.value_at(i);
                if v.has_pending() {
                    ready = Option::Some(k);
                }
            }
            i += 1;
        }
        match ready {
            Option::Some(k) => {
                let ghost old_instance = self.instances()[k];
                let state = self.compute.get_mut(k);
                let popped = state.pop_response();
                match popped {
                    Option::Some(ComputeResponse::FrontierUppers(ups)) => {
                        state.update_write_frontiers(&ups);
                        let r = Result::Ok(Response::RecvAgain);
                        proof {
                            Self::lemma_instance_step(*old(self), *final(self), k);
                            assert(Self::compute_event_handled(*old(self), *final(self), k, r));
                        }
                        r
                    },
                    Option::Some(ComputeResponse::PeekResponse(uuid, payload)) => {
                        state.remove_peek(uuid);
                        let r = Result::Ok(
                            Response::Ready(ControllerResponse::PeekResponse(uuid, payload)),
                        );
                        proof {
                            Self::lemma_instance_step(*old(self), *final(self), k);
                            assert(Self::compute_event_handled(*old(self), *final(self), k, r));
                        }
                        r
                    },
                    Option::Some(ComputeResponse::TailResponse(gid, tr)) => {
                        match &tr {
                            TailResponse::Batch(tb) => {
                                let upper = tb.upper.clone();
                                state.update_write_frontier(gid, &upper);
                            },
                            TailResponse::DroppedAt(_) => {
                                // The tail will not be written to again; its
                                // tracked frontier closes, which is still a
                                // forward step in the frontier order.
                                let empty = Frontier::new();
                                state.update_write_frontier(gid, &empty);
                            },
                        }
                        let r = Result::Ok(
                            Response::Ready(ControllerResponse::TailResponse(gid, tr)),
                        );
                        proof {
                            Self::lemma_instance_step(*old(self), *final(self), k);
                            assert(Self::compute_event_handled(*old(self), *final(self), k, r));
                        }
                        r
                    },
                    Option::None => {
                        proof {
                            assert(false);
                        }
                        Result::Ok(Response::RecvAgain)
                    },
                }
            },
            Option::None => {
                proof {
                    if Self::some_instance_ready(*self) {
                        let w = choose|iw: u64|
                            self.has_instance(iw) && self.instances()[iw].queue_spec().len() > 0;
                        self.compute.lemma_entries_view();
                        let j = choose|j: int|
                            0 <= j < self.compute.entries_spec().len() && (
                            #[trigger] self.compute.entries_spec()[j]).0 == w;
                        assert(self.compute.entries_spec()[j].1.queue_spec().len() == 0);
                        assert(false);
                    }
                }
                if !self.storage_alive && n == 0 {
                    proof {
                        if self.compute.entries_spec().len() == 0 {
                            assert(self.instances().dom() =~= Set::<u64>::empty()) by {
                                self.compute.lemma_entries_view();
                            }
                        }
                    }
                    Result::Ok(Response::Done)
                } else {
                    proof {
                        if self.compute.entries_spec().len() > 0 {
                            self.compute.lemma_entries_view();
                            assert(self.instances().dom().contains(
                                self.compute.entries_spec()[0].0,
                            ));
                        }
                    }
                    Result::Ok(Response::RecvAgain)
                }
            },
        }
    }

    /// After one instance's bookkeeping step, the whole registry is well
    /// formed and untouched instances are unchanged.
    proof fn lemma_instance_step(old_c: Self, new_c: Self, k: u64)
        requires
            old_c.wf(),
            new_c.instances().dom() == old_c.instances().dom().insert(k),
            old_c.has_instance(k),
            new_c.instances()[k].wf(),
            forall|j: u64|
                j != k && old_c.has_instance(j) ==> (#[trigger] new_c.instances()[j])
                    == old_c.instances()[j],
            new_c.compute.wf(),
        ensures
            new_c.wf(),
            new_c.instances().dom() == old_c.instances().dom(),
    {
        assert(new_c.instances().dom() =~= old_c.instances().dom());
        assert forall|j: u64| new_c.instances().dom().contains(j) implies (
        #[trigger] new_c.instances()[j]).wf() by {
            if j != k {
                assert(old_c.instances().dom().contains(j));
                assert(new_c.instances()[j] == old_c.instances()[j]);
            }
        }
    }
}

} // verus!
