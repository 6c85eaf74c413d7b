use multiway::transport::{
    ListenerOpts, MockResolver, ResolveError, StdResolver, DEFAULT_MAX_IDLE_PER_ADDR,
};

#[test]
fn mock_resolver_returns_configured_addresses() {
    let expected = vec!["127.0.0.1:8080", "127.0.0.2:8080"];
    let resolver = MockResolver::new(expected.clone());
    let addrs = resolver.resolve("anything", 9999).unwrap();
    assert_eq!(addrs, expected);
}

#[test]
fn mock_resolver_empty_returns_error() {
    let resolver: MockResolver<u32> = MockResolver::default();
    let result = resolver.resolve("host", 80);
    assert!(result.is_err());
    assert_eq!(result.unwrap_err(), ResolveError::NoAddress);
}

#[test]
fn listener_defaults() {
    let opts = ListenerOpts::default();
    assert!(opts.reuse_port && opts.reuse_addr && opts.tcp_nodelay);
    assert_eq!(opts.backlog, 1024);
    assert_eq!(opts.recv_buf_size, None);
    assert_eq!(opts.send_buf_size, None);
    assert_eq!(StdResolver::default(), StdResolver);
    assert_eq!(DEFAULT_MAX_IDLE_PER_ADDR, 16);
}
