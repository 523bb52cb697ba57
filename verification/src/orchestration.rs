//! The orchestration interface: the controller asks an orchestrator to run
//! or tear down replicated services, and observes only the addresses it
//! returns. Every request is recorded in the orchestrator's call history, so
//! callers can state exactly which services they demanded.

use vstd::prelude::*;

use crate::naming::{dec_digits, u64_to_string};

verus! {

broadcast use vstd::seq::group_seq_axioms, vstd::std_specs::vec::group_vec_axioms;

/// A named port that each process of a service must expose.
#[derive(Debug)]
pub struct ServicePort {
    pub name: String,
    pub port_hint: u64,
}

/// The inputs of the per-process argument builder: everything a process's
/// command line is computed from besides the addresses the orchestrator
/// allocates.
#[derive(Debug)]
pub struct ServiceArgsConfig {
    /// The storage endpoint every process connects to.
    pub storage_addr: String,
    /// How many processes the service runs.
    pub scale: u64,
    /// How many worker threads each process runs.
    pub workers: u64,
    /// Whether processes outlive a lost controller connection.
    pub linger: bool,
}

/// What the controller asks the orchestrator to ensure for one service.
#[derive(Debug)]
pub struct ServiceConfig {
    /// The image to run.
    pub image: String,
    /// The inputs of the per-process argument builder.
    pub args: ServiceArgsConfig,
    /// The named ports each process exposes.
    pub ports: Vec<ServicePort>,
    /// An optional processor ceiling, in milli-units.
    pub cpu_limit: Option<u64>,
    /// An optional memory ceiling, in bytes.
    pub memory_limit: Option<u64>,
    /// How many processes to run.
    pub scale: u64,
    /// Metadata labels, passed through unchanged.
    pub labels: Vec<(String, String)>,
    /// A placement hint, passed through unchanged.
    pub availability_zone: String,
}

/// One request the orchestrator received.
#[derive(Debug)]
pub enum OrchestratorCall {
    EnsureService(String, ServiceConfig),
    DropService(String),
}

/// A failure reported by the orchestration backend. Recoverable: it is
/// propagated to the caller, never a crash.
#[derive(Debug, Clone, Copy, PartialEq, Eq, Structural)]
pub struct OrchestratorError {}

/// The orchestration backend the controller drives. Implementations run
/// services somewhere real; the in-memory one below records requests and
/// invents addresses, for tests and for reasoning.
///
/// Every implementation appends each request to its call history exactly as
/// received, and answers a successful ensure request with one control-port
/// address per process.
pub trait Orchestrator: Sized {
    /// The requests received so far, oldest first.
    spec fn calls(&self) -> Seq<OrchestratorCall>;

    /// The host on which started processes listen.
    spec fn listen_host_spec(&self) -> Seq<char>;

    fn listen_host(&self) -> (host: String)
        ensures
            host@ == self.listen_host_spec(),
    ;

    /// Ensures a service with the given configuration is running, and
    /// returns the control-port address of each of its processes.
    fn ensure_service(&mut self, name: String, config: ServiceConfig) -> (r: Result<
        Vec<String>,
        OrchestratorError,
    >)
        requires
            config.scale >= 1,
        ensures
            final(self).calls() == old(self).calls().push(
                OrchestratorCall::EnsureService(name, config),
            ),
            final(self).listen_host_spec() == old(self).listen_host_spec(),
            r matches Ok(addrs) ==> addrs@.len() == config.scale,
    ;

    /// Tears the named service down.
    fn drop_service(&mut self, name: String) -> (r: Result<(), OrchestratorError>)
        ensures
            final(self).calls() == old(self).calls().push(OrchestratorCall::DropService(name)),
            final(self).listen_host_spec() == old(self).listen_host_spec(),
    ;
}

/// An orchestrator that runs nothing: it records every request and invents
/// deterministic addresses. It serves tests and lets collaborators observe
/// exactly what the controller asked for.
#[derive(Debug)]
pub struct InMemoryOrchestrator {
    host: String,
    log: Vec<OrchestratorCall>,
    fail_requests: bool,
}

impl InMemoryOrchestrator {
    pub fn new(host: String) -> (o: InMemoryOrchestrator)
        ensures
            o.calls() == Seq::<OrchestratorCall>::empty(),
            o.listen_host_spec() == host@,
            !o.failing(),
    {
        InMemoryOrchestrator { host, log: Vec::new(), fail_requests: false }
    }

    /// Whether requests are currently made to fail.
    pub closed spec fn failing(&self) -> bool {
        self.fail_requests
    }

    /// Makes subsequent requests fail (or succeed again): the error paths of
    /// callers become reachable on demand.
    pub fn set_fail_requests(&mut self, fail: bool)
        ensures
            final(self).calls() == old(self).calls(),
            final(self).listen_host_spec() == old(self).listen_host_spec(),
            final(self).failing() == fail,
    {
        self.fail_requests = fail;
    }

    /// The recorded requests, for inspection.
    pub fn call_log(&self) -> (log: &Vec<OrchestratorCall>)
        ensures
            log@ == self.calls(),
    {
        &self.log
    }
}

impl Orchestrator for InMemoryOrchestrator {
    closed spec fn calls(&self) -> Seq<OrchestratorCall> {
        self.log@
    }

    closed spec fn listen_host_spec(&self) -> Seq<char> {
        self.host@
    }

    fn listen_host(&self) -> (host: String) {
        self.host.clone()
    }

    fn ensure_service(&mut self, name: String, config: ServiceConfig) -> (r: Result<
        Vec<String>,
        OrchestratorError,
    >) {
        let fail = self.fail_requests;
        let mut addrs: Vec<String> = Vec::new();
        if !fail {
            let scale = config.scale;
            let mut i: u64 = 0;
            while i < scale
                invariant
                    i <= scale,
                    addrs@.len() == i,
                decreases scale - i,
            {
                let mut addr = name.clone();
                addr.append("-");
                let idx = u64_to_string(i);
                addr.append(idx.as_str());
                addrs.push(addr);
                i += 1;
            }
        }
        self.log.push(OrchestratorCall::EnsureService(name, config));
        if fail {
            Result::Err(OrchestratorError {})
        } else {
            Result::Ok(addrs)
        }
    }

    fn drop_service(&mut self, name: String) -> (r: Result<(), OrchestratorError>) {
        let fail = self.fail_requests;
        self.log.push(OrchestratorCall::DropService(name));
        if fail {
            Result::Err(OrchestratorError {})
        } else {
            Result::Ok(())
        }
    }
}

/// The command line of one process of a replica service, given the inputs
/// of the builder, the control-port addresses of every peer process, this
/// process's own ports, and its index.
pub open spec fn replica_args_model(
    storage_addr: Seq<char>,
    listen_host: Seq<char>,
    scale: nat,
    workers: nat,
    linger: bool,
    peers: Seq<(Seq<char>, nat)>,
    my_control_port: nat,
    my_http_port: nat,
    my_index: Option<nat>,
) -> Seq<Seq<char>> {
    let base = seq![
        "--storage-addr="@ + storage_addr,
        "--listen-addr="@ + listen_host + ":"@ + dec_digits(my_control_port),
        "--http-console-addr="@ + listen_host + ":"@ + dec_digits(my_http_port),
        "--processes="@ + dec_digits(scale),
        "--workers="@ + dec_digits(workers),
        "--log-process-name"@,
    ] + peers.map_values(|p: (Seq<char>, nat)| p.0 + ":"@ + dec_digits(p.1));
    let with_index = match my_index {
        Option::None => base,
        Option::Some(i) => base.push("--process="@ + dec_digits(i)),
    };
    if linger {
        with_index.push("--linger"@)
    } else {
        with_index
    }
}

fn host_port(host: &str, port: u64) -> (s: String)
    ensures
        s@ == host@ + ":"@ + dec_digits(port as nat),
{
    let mut s = String::from_str(host);
    s.append(":");
    let p = u64_to_string(port);
    s.append(p.as_str());
    proof {
        assert(s@ =~= host@ + ":"@ + dec_digits(port as nat));
    }
    s
}

fn flag_value(flag: &str, value: u64) -> (s: String)
    ensures
        s@ == flag@ + dec_digits(value as nat),
{
    let mut s = String::from_str(flag);
    let v = u64_to_string(value);
    s.append(v.as_str());
    s
}

/// Builds the command line of one process of a replica service. The
/// orchestrator, having allocated addresses, calls this once per process:
/// with the peers' data-port addresses, this process's control and
/// diagnostic ports, and this process's index when the service has more
/// than one process.
pub fn build_replica_args(
    args: &ServiceArgsConfig,
    listen_host: &str,
    peers: &Vec<(String, u64)>,
    my_control_port: u64,
    my_http_port: u64,
    my_index: Option<u64>,
) -> (r: Vec<String>)
    ensures
        ({
            let model = replica_args_model(
                args.storage_addr@,
                listen_host@,
                args.scale as nat,
                args.workers as nat,
                args.linger,
                peers@.map_values(|p: (String, u64)| (p.0@, p.1 as nat)),
                my_control_port as nat,
                my_http_port as nat,
                match my_index {
                    Option::None => Option::<nat>::None,
                    Option::Some(i) => Option::Some(i as nat),
                },
            );
            r@.len() == model.len() && forall|i: int|
                0 <= i < model.len() ==> (#[trigger] r@[i])@ == model[i]
        }),
{
    let ghost peers_model = peers@.map_values(|p: (String, u64)| (p.0@, p.1 as nat));
    let mut r: Vec<String> = Vec::new();

    let mut storage = String::from_str("--storage-addr=");
    storage.append(args.storage_addr.as_str());
    r.push(storage);

    let mut listen = String::from_str("--listen-addr=");
    let listen_hp = host_port(listen_host, my_control_port);
    listen.append(listen_hp.as_str());
    r.push(listen);

    let mut http = String::from_str("--http-console-addr=");
    let http_hp = host_port(listen_host, my_http_port);
    http.append(http_hp.as_str());
    r.push(http);

    r.push(flag_value("--processes=", args.scale));
    r.push(flag_value("--workers=", args.workers));
    r.push(String::from_str("--log-process-name"));

    proof {
        assert(r@[0]@ =~= "--storage-addr="@ + args.storage_addr@);
        assert(r@[1]@ =~= "--listen-addr="@ + listen_host@ + ":"@ + dec_digits(
            my_control_port as nat,
        ));
        assert(r@[2]@ =~= "--http-console-addr="@ + listen_host@ + ":"@ + dec_digits(
            my_http_port as nat,
        ));
        assert(r@[3]@ =~= "--processes="@ + dec_digits(args.scale as nat));
        assert(r@[4]@ =~= "--workers="@ + dec_digits(args.workers as nat));
        assert(r@[5]@ =~= "--log-process-name"@);
    }
    let ghost base6 = r@;

    let n = peers.len();
    let mut i: usize = 0;
    while i < n
        invariant
            n == peers@.len(),
            i <= n,
            peers_model == peers@.map_values(|p: (String, u64)| (p.0@, p.1 as nat)),
            r@.len() == 6 + i,
            base6.len() == 6,
            forall|j: int| 0 <= j < 6 ==> r@[j] == base6[j],
            forall|j: int|
                6 <= j < r@.len() ==> (#[trigger] r@[j])@ == peers_model[j - 6].0 + ":"@
                    + dec_digits(peers_model[j - 6].1),
        decreases n - i,
    {
        let peer = host_port(peers[i].0.as_str(), peers[i].1);
        r.push(peer);
        i += 1;
    }

    match my_index {
        Option::None => {},
        Option::Some(idx) => {
            r.push(flag_value("--process=", idx));
        },
    }
    if args.linger {
        r.push(String::from_str("--linger"));
    }
    proof {
        let model = replica_args_model(
            args.storage_addr@,
            listen_host@,
            args.scale as nat,
            args.workers as nat,
            args.linger,
            peers_model,
            my_control_port as nat,
            my_http_port as nat,
            match my_index {
                Option::None => Option::<nat>::None,
                Option::Some(i) => Option::Some(i as nat),
            },
        );
        assert(r@.len() == model.len());
        assert forall|k: int| 0 <= k < model.len() implies (#[trigger] r@[k])@ == model[k] by {
            if k < 6 {
                assert(r@[k] == base6[k]);
            } else if k < 6 + peers_model.len() {
                assert(r@[k]@ == peers_model[k - 6].0 + ":"@ + dec_digits(peers_model[k - 6].1));
            }
        }
    }
    r
}

} // verus!
