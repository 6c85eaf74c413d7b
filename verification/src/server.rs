//! The server: its settings, and what its workers do.
//!
//! Each worker is a thread of its own with listeners, a connection pool and a
//! pipeline for every listener. It serves each connection in a task of its
//! own, notices a new configuration at the top of its loop, and on a shutdown
//! waits for the connections that are still being served.

use vstd::prelude::*;

use crate::config::{ListenerConfig, Protocol, ProxyConfig, TlsConfig};
use crate::text;

verus! {

// ---------------------------------------------------------------------------
// Settings
// ---------------------------------------------------------------------------

/// A server around a shared configuration `C`.
#[derive(Debug)]
pub struct ProxyServer<C> {
    pub config: C,
    pub worker_threads: usize,
}

/// Builds a `ProxyServer`.
#[derive(Debug)]
pub struct ProxyServerBuilder<C> {
    pub config: Option<C>,
    pub worker_threads: Option<usize>,
}

/// Why a server cannot be built.
#[derive(Debug, Clone, Copy, PartialEq, Eq, Structural)]
pub enum BuildError {
    /// There is no configuration.
    NoConfig,
    /// There would be no worker.
    NoWorkers,
}

impl BuildError {
    /// The error in words.
    pub open spec fn message_text(self) -> Seq<char> {
        match self {
            BuildError::NoConfig => "config is required"@,
            BuildError::NoWorkers => "worker_threads must be at least 1"@,
        }
    }

    /// The error in words.
    pub fn message(self) -> (r: String)
        ensures
            r@ == self.message_text(),
    {
        match self {
            BuildError::NoConfig => "config is required".to_string(),
            BuildError::NoWorkers => "worker_threads must be at least 1".to_string(),
        }
    }
}

/// The number of workers: the one asked for, else one per core, else one.
pub open spec fn workers(asked: Option<usize>, cores: Option<usize>) -> usize {
    match asked {
        Some(n) => n,
        None => match cores {
            Some(n) => n,
            None => 1,
        },
    }
}

impl<C> ProxyServerBuilder<C> {
    pub fn new() -> (r: Self)
        ensures
            r.config is None,
            r.worker_threads is None,
    {
        ProxyServerBuilder { config: None, worker_threads: None }
    }

    /// This builder with that configuration.
    pub fn config(self, config: C) -> (r: Self)
        ensures
            r.config == Some(config),
            r.worker_threads == self.worker_threads,
    {
        ProxyServerBuilder { config: Some(config), worker_threads: self.worker_threads }
    }

    /// This builder with that number of workers.
    pub fn worker_threads(self, n: usize) -> (r: Self)
        ensures
            r.config == self.config,
            r.worker_threads == Some(n),
    {
        ProxyServerBuilder { config: self.config, worker_threads: Some(n) }
    }

    /// The server, where there is a configuration and at least one worker.
    /// `cores` is the number of cores, where it is known.
    pub fn build(self, cores: Option<usize>) -> (r: Result<ProxyServer<C>, BuildError>)
        ensures
            match r {
                Ok(server) => {
                    &&& self.config == Some(server.config)
                    &&& server.worker_threads == workers(self.worker_threads, cores)
                    &&& server.worker_threads > 0
                },
                Err(BuildError::NoConfig) => self.config is None,
                Err(BuildError::NoWorkers) => self.config is Some && workers(
                    self.worker_threads,
                    cores,
                ) == 0,
            },
    {
        match self.config {
            None => Err(BuildError::NoConfig),
            Some(config) => {
                let worker_threads: usize = match self.worker_threads {
                    Some(n) => n,
                    None => match cores {
                        Some(n) => n,
                        None => 1,
                    },
                };
                if worker_threads == 0 {
                    Err(BuildError::NoWorkers)
                } else {
                    Ok(ProxyServer { config, worker_threads })
                }
            },
        }
    }
}

impl<C> Default for ProxyServerBuilder<C> {
    fn default() -> (r: Self)
        ensures
            r.config is None,
            r.worker_threads is None,
    {
        ProxyServerBuilder::new()
    }
}

impl<C> ProxyServer<C> {
    pub fn builder() -> (r: ProxyServerBuilder<C>)
        ensures
            r.config is None,
            r.worker_threads is None,
    {
        ProxyServerBuilder::new()
    }
}

/// The name of a worker's thread.
pub fn worker_name(worker_id: usize) -> (r: String)
    ensures
        r@ == "proxy-worker-"@ + text::decimal(worker_id as nat),
{
    let mut r = "proxy-worker-".to_string();
    let digits = text::to_decimal(worker_id as u64);
    r.append(digits.as_str());
    r
}

/// How a worker ended.
#[derive(Debug, Clone, Copy, PartialEq, Eq, Structural)]
pub enum WorkerEnd {
    /// As it should.
    Done,
    /// With an error.
    Failed,
    /// With a panic.
    Panicked,
}

/// The first worker that did not end as it should.
pub fn first_failure(ends: &Vec<WorkerEnd>) -> (r: Option<usize>)
    ensures
        match r {
            Some(i) => {
                &&& i < ends@.len()
                &&& ends@[i as int] != WorkerEnd::Done
                &&& forall|k: int| 0 <= k < i ==> ends@[k] == WorkerEnd::Done
            },
            None => forall|k: int| 0 <= k < ends@.len() ==> ends@[k] == WorkerEnd::Done,
        },
{
    let mut i: usize = 0;
    while i < ends.len()
        invariant
            i <= ends@.len(),
            forall|k: int| 0 <= k < i ==> ends@[k] == WorkerEnd::Done,
        decreases ends.len() - i,
    {
        if ends[i] != WorkerEnd::Done {
            return Some(i);
        }
        i += 1;
    }
    None
}

// ---------------------------------------------------------------------------
// Listeners
// ---------------------------------------------------------------------------

/// What a listener needs for TLS.
pub enum TlsNeed<'a> {
    /// Nothing: it speaks plain HTTP.
    Plain,
    /// It speaks HTTPS but has no TLS settings: it stays without TLS.
    Missing,
    /// An acceptor with these settings.
    Acceptor(&'a TlsConfig),
}

/// What the listener needs for TLS.
pub fn tls_need(listener: &ListenerConfig) -> (r: TlsNeed<'_>)
    ensures
        match listener.protocol {
            Protocol::Http => r is Plain,
            Protocol::Https => match listener.tls {
                Some(tls) => r matches TlsNeed::Acceptor(t) && *t == tls,
                None => r is Missing,
            },
        },
{
    if listener.protocol != Protocol::Https {
        return TlsNeed::Plain;
    }
    match &listener.tls {
        Some(tls) => TlsNeed::Acceptor(tls),
        None => TlsNeed::Missing,
    }
}

/// Whether a new configuration makes the worker bind its listeners anew. It
/// always does: several sockets may share a port, so binding again is safe.
pub fn listeners_differ(_new: &ProxyConfig) -> (r: bool)
    ensures
        r,
{
    true
}

// ---------------------------------------------------------------------------
// Workers
// ---------------------------------------------------------------------------

/// Where a worker stands: what it waits for.
#[derive(Debug, Clone, Copy, PartialEq, Eq, Structural)]
pub enum WorkerPhase {
    /// For its listeners to be bound.
    Binding,
    /// For news: a shutdown, or a new configuration with that many listeners.
    Polling,
    /// For the listeners of the new configuration to be bound.
    Rebinding,
    /// For a connection at this listener.
    Accepting(usize),
    /// For the task that serves the connection from this listener.
    Spawning(usize),
    /// For a short while, as no connection came.
    Idling,
    /// For the connections still being served.
    Draining,
    /// For nothing: the worker is done.
    Stopped,
}

/// The state of a worker.
#[derive(Debug, Clone, Copy, PartialEq, Eq, Structural)]
pub struct Worker {
    pub phase: WorkerPhase,
    /// Listeners that are bound.
    pub listeners: usize,
    /// Pipelines: one for each listener of the current configuration.
    pub pipelines: usize,
    /// Whether a connection came in this round.
    pub accepted: bool,
    /// Connections being served.
    pub in_flight: u64,
}

/// What has come of the last action.
#[derive(Debug, Clone, Copy, PartialEq, Eq, Structural)]
pub enum WorkerEvent {
    /// The number of listeners bound, or none if binding failed.
    Bound(Option<usize>),
    /// A shutdown is asked for.
    Shutdown,
    /// Nothing is new.
    Unchanged,
    /// There is a new configuration with that many listeners.
    Changed(usize),
    /// Whether a connection came in.
    Accepted(bool),
    /// The task is started.
    Spawned,
    /// The wait is over.
    Waited,
}

/// What to do next.
#[derive(Debug, Clone, Copy, PartialEq, Eq, Structural)]
pub enum WorkerAction {
    /// Look for a shutdown and a new configuration.
    Poll,
    /// Bind the listeners of the new configuration and build its pipelines.
    Rebind,
    /// Accept at this listener, unless a shutdown is asked for.
    Accept(usize),
    /// Start a task that serves the connection from this listener by its
    /// pipeline.
    Spawn(usize),
    /// Sleep a short while.
    Idle,
    /// Sleep until the connections are served.
    Drain,
    /// End.
    Exit,
    /// End with the error of binding.
    Fail,
}

/// The start: the listeners are to be bound.
pub open spec fn new_worker() -> Worker {
    Worker {
        phase: WorkerPhase::Binding,
        listeners: 0,
        pipelines: 0,
        accepted: false,
        in_flight: 0,
    }
}

/// The end of a worker: at once where no connection is being served.
pub open spec fn stopping(w: Worker) -> (Worker, WorkerAction) {
    if w.in_flight > 0 {
        (Worker { phase: WorkerPhase::Draining, ..w }, WorkerAction::Drain)
    } else {
        (Worker { phase: WorkerPhase::Stopped, ..w }, WorkerAction::Exit)
    }
}

/// The end of a round over the listeners: the next starts at once where a
/// connection came in this one.
pub open spec fn round_over(w: Worker) -> (Worker, WorkerAction) {
    if w.accepted {
        (Worker { phase: WorkerPhase::Polling, ..w }, WorkerAction::Poll)
    } else {
        (Worker { phase: WorkerPhase::Idling, ..w }, WorkerAction::Idle)
    }
}

/// On to listener `i`, or the end of the round where there is none.
pub open spec fn at_listener(w: Worker, i: int) -> (Worker, WorkerAction) {
    if i < w.listeners {
        (Worker { phase: WorkerPhase::Accepting(i as usize), ..w }, WorkerAction::Accept(i as usize))
    } else {
        round_over(w)
    }
}

/// A new round over the listeners.
pub open spec fn round_start(w: Worker) -> (Worker, WorkerAction) {
    at_listener(Worker { accepted: false, ..w }, 0)
}

/// What an event leads to. An event that the phase does not wait for changes
/// nothing: the worker polls.
pub open spec fn worker_step(w: Worker, event: WorkerEvent) -> (Worker, WorkerAction) {
    match (w.phase, event) {
        (WorkerPhase::Binding, WorkerEvent::Bound(None)) => (
            Worker { phase: WorkerPhase::Stopped, ..w },
            WorkerAction::Fail,
        ),
        (WorkerPhase::Binding, WorkerEvent::Bound(Some(n))) => {
            if n == 0 {
                (Worker { phase: WorkerPhase::Stopped, ..w }, WorkerAction::Exit)
            } else {
                (
                    Worker { phase: WorkerPhase::Polling, listeners: n, pipelines: n, ..w },
                    WorkerAction::Poll,
                )
            }
        },
        (WorkerPhase::Polling, WorkerEvent::Shutdown) => stopping(w),
        (WorkerPhase::Polling, WorkerEvent::Unchanged) => round_start(w),
        (WorkerPhase::Polling, WorkerEvent::Changed(n)) => (
            Worker { phase: WorkerPhase::Rebinding, pipelines: n, ..w },
            WorkerAction::Rebind,
        ),
        (WorkerPhase::Rebinding, WorkerEvent::Bound(found)) => {
            let next = match found {
                Some(n) => Worker { listeners: n, ..w },
                None => w,
            };
            if next.listeners == 0 {
                stopping(next)
            } else {
                round_start(next)
            }
        },
        (WorkerPhase::Accepting(i), WorkerEvent::Shutdown) => round_over(w),
        (WorkerPhase::Accepting(i), WorkerEvent::Accepted(false)) => at_listener(w, i + 1),
        (WorkerPhase::Accepting(i), WorkerEvent::Accepted(true)) => {
            let next = Worker { accepted: true, ..w };
            if i < w.pipelines {
                (
                    Worker {
                        phase: WorkerPhase::Spawning(i),
                        in_flight: (w.in_flight + 1) as u64,
                        ..next
                    },
                    WorkerAction::Spawn(i),
                )
            } else {
                at_listener(next, i + 1)
            }
        },
        (WorkerPhase::Spawning(i), WorkerEvent::Spawned) => at_listener(w, i + 1),
        (WorkerPhase::Draining, WorkerEvent::Waited) => stopping(w),
        _ => (Worker { phase: WorkerPhase::Polling, ..w }, WorkerAction::Poll),
    }
}

/// Whether a state is one that a worker can be in: a listener that it waits at
/// is bound, and before the first round no connection is being served.
pub open spec fn worker_wf(w: Worker) -> bool {
    match w.phase {
        WorkerPhase::Binding => w.in_flight == 0,
        WorkerPhase::Accepting(i) => i < w.listeners,
        WorkerPhase::Spawning(i) => i < w.listeners,
        _ => true,
    }
}

fn stop(w: Worker) -> (r: (Worker, WorkerAction))
    ensures
        r == stopping(w),
{
    if w.in_flight > 0 {
        (Worker { phase: WorkerPhase::Draining, ..w }, WorkerAction::Drain)
    } else {
        (Worker { phase: WorkerPhase::Stopped, ..w }, WorkerAction::Exit)
    }
}

fn end_round(w: Worker) -> (r: (Worker, WorkerAction))
    ensures
        r == round_over(w),
{
    if w.accepted {
        (Worker { phase: WorkerPhase::Polling, ..w }, WorkerAction::Poll)
    } else {
        (Worker { phase: WorkerPhase::Idling, ..w }, WorkerAction::Idle)
    }
}

fn go_to_listener(w: Worker, i: usize) -> (r: (Worker, WorkerAction))
    ensures
        r == at_listener(w, i as int),
{
    if i < w.listeners {
        (Worker { phase: WorkerPhase::Accepting(i), ..w }, WorkerAction::Accept(i))
    } else {
        end_round(w)
    }
}

impl Worker {
    /// A worker whose listeners are to be bound.
    pub fn new() -> (r: Self)
        ensures
            r == new_worker(),
            worker_wf(r),
    {
        Worker {
            phase: WorkerPhase::Binding,
            listeners: 0,
            pipelines: 0,
            accepted: false,
            in_flight: 0,
        }
    }

    /// The next state of the worker, and what to do.
    pub fn step(self, event: WorkerEvent) -> (r: (Self, WorkerAction))
        requires
            worker_wf(self),
            self.in_flight < u64::MAX,
        ensures
            r == worker_step(self, event),
    {
        let w = self;
        match (w.phase, event) {
            (WorkerPhase::Binding, WorkerEvent::Bound(None)) => (
                Worker { phase: WorkerPhase::Stopped, ..w },
                WorkerAction::Fail,
            ),
            (WorkerPhase::Binding, WorkerEvent::Bound(Some(n))) => {
                if n == 0 {
                    (Worker { phase: WorkerPhase::Stopped, ..w }, WorkerAction::Exit)
                } else {
                    (
                        Worker { phase: WorkerPhase::Polling, listeners: n, pipelines: n, ..w },
                        WorkerAction::Poll,
                    )
                }
            },
            (WorkerPhase::Polling, WorkerEvent::Shutdown) => stop(w),
            (WorkerPhase::Polling, WorkerEvent::Unchanged) => go_to_listener(
                Worker { accepted: false, ..w },
                0,
            ),
            (WorkerPhase::Polling, WorkerEvent::Changed(n)) => (
                Worker { phase: WorkerPhase::Rebinding, pipelines: n, ..w },
                WorkerAction::Rebind,
            ),
            (WorkerPhase::Rebinding, WorkerEvent::Bound(found)) => {
                let next = match found {
                    Some(n) => Worker { listeners: n, ..w },
                    None => w,
                };
                if next.listeners == 0 {
                    stop(next)
                } else {
                    go_to_listener(Worker { accepted: false, ..next }, 0)
                }
            },
            (WorkerPhase::Accepting(i), WorkerEvent::Shutdown) => end_round(w),
            (WorkerPhase::Accepting(i), WorkerEvent::Accepted(false)) => go_to_listener(w, i + 1),
            (WorkerPhase::Accepting(i), WorkerEvent::Accepted(true)) => {
                let next = Worker { accepted: true, ..w };
                if i < w.pipelines {
                    (
                        Worker {
                            phase: WorkerPhase::Spawning(i),
                            in_flight: w.in_flight + 1,
                            ..next
                        },
                        WorkerAction::Spawn(i),
                    )
                } else {
                    go_to_listener(next, i + 1)
                }
            },
            (WorkerPhase::Spawning(i), WorkerEvent::Spawned) => go_to_listener(w, i + 1),
            (WorkerPhase::Draining, WorkerEvent::Waited) => stop(w),
            _ => (Worker { phase: WorkerPhase::Polling, ..w }, WorkerAction::Poll),
        }
    }

    /// The worker after the task of a connection has ended.
    pub fn connection_done(self) -> (r: Self)
        ensures
            r == after_connection(self),
    {
        let left: u64 = if self.in_flight > 0 {
            self.in_flight - 1
        } else {
            0
        };
        Worker { in_flight: left, ..self }
    }
}

/// A worker after the task of a connection has ended.
pub open spec fn after_connection(w: Worker) -> Worker {
    Worker {
        in_flight: if w.in_flight > 0 {
            (w.in_flight - 1) as u64
        } else {
            0
        },
        ..w
    }
}

// ---------------------------------------------------------------------------
// Laws
// ---------------------------------------------------------------------------

/// Whether the worker's action can bring that event.
pub open spec fn awaited(phase: WorkerPhase, event: WorkerEvent) -> bool {
    match phase {
        WorkerPhase::Binding | WorkerPhase::Rebinding => event is Bound,
        WorkerPhase::Polling => event is Shutdown || event is Unchanged || event is Changed,
        WorkerPhase::Accepting(_) => event is Shutdown || event is Accepted,
        WorkerPhase::Spawning(_) => event is Spawned,
        WorkerPhase::Idling | WorkerPhase::Draining => event is Waited,
        WorkerPhase::Stopped => false,
    }
}

/// A worker stays in a state that it can be in.
pub proof fn law_workers_stay_well_formed(w: Worker, event: WorkerEvent)
    requires
        worker_wf(w),
        awaited(w.phase, event),
        w.in_flight < u64::MAX,
    ensures
        worker_wf(worker_step(w, event).0),
{
}

/// The count of connections goes up by one for each task that is started, and
/// by nothing else; it goes down by one for each that ends.
pub proof fn law_connections_are_counted(w: Worker, event: WorkerEvent)
    requires
        worker_wf(w),
        w.in_flight < u64::MAX,
    ensures
        worker_step(w, event).0.in_flight == w.in_flight + if worker_step(w, event).1 is Spawn {
            1int
        } else {
            0int
        },
        w.in_flight > 0 ==> after_connection(w).in_flight == w.in_flight - 1,
        after_connection(w).phase == w.phase,
{
}

/// A worker ends only when no connection is being served any more.
pub proof fn law_workers_drain_before_they_end(w: Worker, event: WorkerEvent)
    requires
        worker_wf(w),
        worker_step(w, event).0.phase == WorkerPhase::Stopped,
    ensures
        worker_step(w, event).0.in_flight == 0,
{
}

/// A new configuration is taken up before the next connection: the worker has
/// its pipelines, and its listeners once they are bound.
pub proof fn law_new_configuration_is_taken_up(w: Worker, n: usize, bound: usize)
    requires
        worker_wf(w),
        w.phase == WorkerPhase::Polling,
    ensures
        ({
            let (rebinding, action) = worker_step(w, WorkerEvent::Changed(n));
            let (next, _) = worker_step(rebinding, WorkerEvent::Bound(Some(bound)));
            &&& action == WorkerAction::Rebind
            &&& next.pipelines == n
            &&& next.listeners == bound
            &&& next.in_flight == w.in_flight
        }),
{
}

/// A failed rebind keeps the listeners that were bound before.
pub proof fn law_failed_rebind_keeps_listeners(w: Worker)
    requires
        worker_wf(w),
        w.phase == WorkerPhase::Rebinding,
    ensures
        worker_step(w, WorkerEvent::Bound(None)).0.listeners == w.listeners,
{
}

/// A shutdown seen at the top of the loop ends the accepting: the worker ends,
/// at once or when its connections are served, and accepts no more.
pub proof fn law_shutdown_ends_the_accepting(w: Worker)
    requires
        worker_wf(w),
        w.phase == WorkerPhase::Polling || w.phase == WorkerPhase::Draining,
    ensures
        ({
            let event = if w.phase == WorkerPhase::Polling {
                WorkerEvent::Shutdown
            } else {
                WorkerEvent::Waited
            };
            let (next, action) = worker_step(w, event);
            if w.in_flight == 0 {
                next.phase == WorkerPhase::Stopped && action == WorkerAction::Exit
            } else {
                next.phase == WorkerPhase::Draining && action == WorkerAction::Drain
            }
        }),
{
}

/// A round goes over all listeners: after one without a connection comes the
/// next, and after the last the round is over.
pub proof fn law_rounds_visit_all_listeners(w: Worker, i: usize)
    requires
        worker_wf(w),
        w.phase == WorkerPhase::Accepting(i),
    ensures
        ({
            let (next, action) = worker_step(w, WorkerEvent::Accepted(false));
            if i + 1 < w.listeners {
                action == WorkerAction::Accept((i + 1) as usize)
            } else {
                action == WorkerAction::Poll || action == WorkerAction::Idle
            }
        }),
{
}

/// There are as many workers as are asked for, else as many as there are cores,
/// else one.
pub proof fn law_workers_are_as_many_as_asked_for(n: usize, cores: Option<usize>)
    ensures
        workers(Some(n), cores) == n,
        workers(None, Some(n)) == n,
        workers(None, None) == 1,
{
}

/// A worker that cannot bind fails, one without listeners ends at once, and any
/// other has a pipeline for each of its listeners.
pub proof fn law_workers_begin_with_their_listeners(n: usize)
    ensures
        worker_step(new_worker(), WorkerEvent::Bound(None)).1 == WorkerAction::Fail,
        worker_step(new_worker(), WorkerEvent::Bound(Some(0))).1 == WorkerAction::Exit,
        n > 0 ==> {
            let (w, action) = worker_step(new_worker(), WorkerEvent::Bound(Some(n)));
            &&& action == WorkerAction::Poll
            &&& w.listeners == n && w.pipelines == n && w.in_flight == 0
        },
{
}

/// A connection is served by the pipeline of the listener that it came in at;
/// one at a listener without a pipeline is dropped. Either way the next listener
/// follows, or the end of the round.
pub proof fn law_connections_go_to_the_pipeline_of_their_listener(w: Worker, i: usize)
    requires
        worker_wf(w),
        w.in_flight < u64::MAX,
        w.phase == WorkerPhase::Accepting(i),
    ensures
        ({
            let (next, action) = worker_step(w, WorkerEvent::Accepted(true));
            &&& next.accepted
            &&& i < w.pipelines ==> action == WorkerAction::Spawn(i)
            &&& i < w.pipelines && i + 1 < w.listeners ==> worker_step(
                next,
                WorkerEvent::Spawned,
            ).1 == WorkerAction::Accept((i + 1) as usize)
            &&& i >= w.pipelines && i + 1 < w.listeners ==> action == WorkerAction::Accept(
                (i + 1) as usize,
            )
            &&& i >= w.pipelines && i + 1 >= w.listeners ==> action == WorkerAction::Poll
        }),
{
}

/// A round starts at the first listener. At its end the worker rests a moment
/// where no connection came in, and goes on at once where one did.
pub proof fn law_workers_rest_only_when_idle(w: Worker, i: usize)
    requires
        worker_wf(w),
    ensures
        w.phase == WorkerPhase::Polling && w.listeners > 0 ==> worker_step(
            w,
            WorkerEvent::Unchanged,
        ).1 == WorkerAction::Accept(0) && !worker_step(w, WorkerEvent::Unchanged).0.accepted,
        w.phase == WorkerPhase::Accepting(i) && i + 1 == w.listeners ==> worker_step(
            w,
            WorkerEvent::Accepted(false),
        ).1 == (if w.accepted {
            WorkerAction::Poll
        } else {
            WorkerAction::Idle
        }),
        w.phase == WorkerPhase::Idling ==> worker_step(w, WorkerEvent::Waited).1
            == WorkerAction::Poll,
        w.phase == WorkerPhase::Accepting(i) ==> !(worker_step(
            w,
            WorkerEvent::Shutdown,
        ).1 is Accept),
{
}

/// A configuration without listeners ends the worker once its connections are
/// served.
pub proof fn law_no_listeners_end_the_worker(w: Worker)
    requires
        worker_wf(w),
        w.phase == WorkerPhase::Rebinding,
    ensures
        ({
            let (next, action) = worker_step(w, WorkerEvent::Bound(Some(0)));
            &&& w.in_flight == 0 ==> action == WorkerAction::Exit
            &&& w.in_flight > 0 ==> action == WorkerAction::Drain
        }),
{
}

/// A server without a configuration and one without workers are told apart.
pub proof fn law_build_errors_say_what_is_missing()
    ensures
        BuildError::NoConfig.message_text() == "config is required"@,
        BuildError::NoWorkers.message_text() == "worker_threads must be at least 1"@,
{
}

} // verus!
