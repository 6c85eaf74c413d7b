use std::sync::Arc;

use arc_swap::ArcSwap;
use multiway::config::{ListenerConfig, Protocol, ProxyConfig, TlsConfig, TlsMode};
use multiway::server::{
    first_failure, listeners_differ, tls_need, worker_name, BuildError, ProxyServer, TlsNeed,
    Worker, WorkerAction, WorkerEnd, WorkerEvent, WorkerPhase,
};

#[test]
fn builder_requires_config() {
    let result = ProxyServer::<Arc<ArcSwap<ProxyConfig>>>::builder().build(None);
    assert!(result.is_err());
}

#[test]
fn builder_rejects_zero_workers() {
    let config = Arc::new(ArcSwap::from_pointee(ProxyConfig::default()));
    let result = ProxyServer::builder()
        .config(config)
        .worker_threads(0)
        .build(None);
    assert!(result.is_err());
}

#[test]
fn builder_succeeds_with_valid_config() {
    let config = Arc::new(ArcSwap::from_pointee(ProxyConfig::default()));
    let server = ProxyServer::builder()
        .config(config)
        .worker_threads(1)
        .build(None);
    assert!(server.is_ok());
}

#[test]
fn builder_errors_in_words() {
    let none = ProxyServer::<u8>::builder().worker_threads(0).build(Some(8));
    assert_eq!(none.unwrap_err(), BuildError::NoConfig);
    assert_eq!(BuildError::NoConfig.message(), "config is required");
    let zero = ProxyServer::builder().config(1u8).worker_threads(0).build(Some(8));
    assert_eq!(zero.unwrap_err(), BuildError::NoWorkers);
    assert_eq!(BuildError::NoWorkers.message(), "worker_threads must be at least 1");
}

#[test]
fn workers_follow_the_cores_by_default() {
    assert_eq!(ProxyServer::builder().config(()).build(Some(6)).unwrap().worker_threads, 6);
    assert_eq!(ProxyServer::builder().config(()).build(None).unwrap().worker_threads, 1);
    let two = ProxyServer::builder().config(()).worker_threads(2).build(Some(6)).unwrap();
    assert_eq!(two.worker_threads, 2);
}

#[test]
fn worker_names() {
    assert_eq!(worker_name(0), "proxy-worker-0");
    assert_eq!(worker_name(120), "proxy-worker-120");
}

#[test]
fn the_first_failure_counts() {
    assert_eq!(first_failure(&vec![]), None);
    assert_eq!(first_failure(&vec![WorkerEnd::Done, WorkerEnd::Done]), None);
    let ends = vec![WorkerEnd::Done, WorkerEnd::Panicked, WorkerEnd::Failed];
    assert_eq!(first_failure(&ends), Some(1));
}

#[test]
fn tls_needs() {
    let tls = || TlsConfig {
        mode: TlsMode::Terminate,
        certificates: vec![],
        inline_certificates: vec![],
    };
    let mut listener = ListenerConfig::http("l", 80, None);
    assert!(matches!(tls_need(&listener), TlsNeed::Plain));
    listener.tls = Some(tls());
    assert!(matches!(tls_need(&listener), TlsNeed::Plain));
    listener.protocol = Protocol::Https;
    assert!(matches!(tls_need(&listener), TlsNeed::Acceptor(_)));
    listener.tls = None;
    assert!(matches!(tls_need(&listener), TlsNeed::Missing));
}

#[test]
fn any_new_configuration_rebinds() {
    assert!(listeners_differ(&ProxyConfig::default()));
}

fn bound(n: usize) -> Worker {
    let (w, action) = Worker::new().step(WorkerEvent::Bound(Some(n)));
    assert_eq!(action, WorkerAction::Poll);
    w
}

#[test]
fn workers_without_listeners_exit() {
    let (_, action) = Worker::new().step(WorkerEvent::Bound(Some(0)));
    assert_eq!(action, WorkerAction::Exit);
    let (_, action) = Worker::new().step(WorkerEvent::Bound(None));
    assert_eq!(action, WorkerAction::Fail);
}

#[test]
fn rounds_go_over_all_listeners() {
    let (w, a) = bound(2).step(WorkerEvent::Unchanged);
    assert_eq!(a, WorkerAction::Accept(0));
    let (w, a) = w.step(WorkerEvent::Accepted(false));
    assert_eq!(a, WorkerAction::Accept(1));
    let (w, a) = w.step(WorkerEvent::Accepted(false));
    assert_eq!(a, WorkerAction::Idle);
    let (w, a) = w.step(WorkerEvent::Waited);
    assert_eq!(a, WorkerAction::Poll);
    let (w, a) = w.step(WorkerEvent::Unchanged);
    assert_eq!(a, WorkerAction::Accept(0));
    let (w, a) = w.step(WorkerEvent::Accepted(true));
    assert_eq!(a, WorkerAction::Spawn(0));
    assert_eq!(w.in_flight, 1);
    let (w, a) = w.step(WorkerEvent::Spawned);
    assert_eq!(a, WorkerAction::Accept(1));
    let (w, a) = w.step(WorkerEvent::Accepted(false));
    assert_eq!(a, WorkerAction::Poll);
    // The connection is still being served: the worker waits for it.
    let (w, a) = w.step(WorkerEvent::Shutdown);
    assert_eq!(a, WorkerAction::Drain);
    let (w, a) = w.step(WorkerEvent::Waited);
    assert_eq!(a, WorkerAction::Drain);
    let w = w.connection_done();
    assert_eq!(w.in_flight, 0);
    let (w, a) = w.step(WorkerEvent::Waited);
    assert_eq!(a, WorkerAction::Exit);
    assert_eq!(w.phase, WorkerPhase::Stopped);
}

#[test]
fn a_shutdown_ends_the_round() {
    let (w, _) = bound(2).step(WorkerEvent::Unchanged);
    let (w, a) = w.step(WorkerEvent::Shutdown);
    assert_eq!(a, WorkerAction::Idle);
    let (w, a) = w.step(WorkerEvent::Waited);
    assert_eq!(a, WorkerAction::Poll);
    assert_eq!(w.step(WorkerEvent::Shutdown).1, WorkerAction::Exit);
}

#[test]
fn a_failed_rebind_keeps_the_listeners() {
    let (w, a) = bound(3).step(WorkerEvent::Changed(1));
    assert_eq!(a, WorkerAction::Rebind);
    let (w, a) = w.step(WorkerEvent::Bound(None));
    assert_eq!(a, WorkerAction::Accept(0));
    assert_eq!(w.listeners, 3);
    assert_eq!(w.pipelines, 1);
    // The listeners without a pipeline take connections but serve none.
    let (w, _) = w.step(WorkerEvent::Accepted(false));
    let (w, a) = w.step(WorkerEvent::Accepted(true));
    assert_eq!(a, WorkerAction::Accept(2));
    assert_eq!(w.in_flight, 0);
}

#[test]
fn a_configuration_without_listeners_ends_the_worker() {
    let (w, _) = bound(1).step(WorkerEvent::Changed(0));
    let (_, a) = w.step(WorkerEvent::Bound(Some(0)));
    assert_eq!(a, WorkerAction::Exit);
}

#[test]
fn a_new_configuration_brings_its_listeners_and_pipelines() {
    let (w, a) = bound(3).step(WorkerEvent::Changed(2));
    assert_eq!(a, WorkerAction::Rebind);
    let (w, a) = w.step(WorkerEvent::Bound(Some(2)));
    assert_eq!(a, WorkerAction::Accept(0));
    assert_eq!((w.listeners, w.pipelines), (2, 2));
}
