use multiway::config::Backend;
use multiway::pipeline::balance::select_backend;
use multiway::pipeline::meta::{extract_request_meta, RequestHead};
use multiway::pipeline::response::{
    bad_gateway_response, gateway_timeout_response, not_found_response, redirect_response,
    service_unavailable_response, TextResponse,
};
use multiway::pipeline::upstream::is_mirrored;
use multiway::pipeline::websocket::{is_raw_websocket_upgrade, is_websocket_upgrade};

/// A request with the given headers.
fn request(method: &str, uri: &str, headers: &[(&str, &str)]) -> RequestHead {
    let mut head = RequestHead::new(method, uri).unwrap();
    for (name, value) in headers {
        head = head.with_header(name, value).unwrap();
    }
    head
}

/// A request with the given headers for WebSocket testing.
fn ws_request(headers: &[(&str, &str)]) -> RequestHead {
    request("GET", "/ws", headers)
}

/// The first value of a response's header.
fn header(resp: &TextResponse, name: &str) -> String {
    String::from_utf8(resp.headers.get(name).unwrap().clone()).unwrap()
}

#[test]
fn extract_meta_basic() {
    let req = request("GET", "http://example.com/api/v1/users?page=2&limit=10", &[("host", "example.com"), ("x-custom", "value")]);

    let meta = extract_request_meta(&req);
    assert_eq!(meta.host.as_deref(), Some("example.com"));
    assert_eq!(meta.path, "/api/v1/users");
    assert_eq!(meta.method, "GET");
    assert!(
        meta.headers
            .contains(&("host".to_string(), "example.com".to_string()))
    );
    assert!(
        meta.headers
            .contains(&("x-custom".to_string(), "value".to_string()))
    );
    assert_eq!(
        meta.query_params,
        vec![
            ("page".to_string(), "2".to_string()),
            ("limit".to_string(), "10".to_string()),
        ]
    );
}

#[test]
fn extract_meta_strips_port_from_host() {
    let req = request("GET", "/path", &[("host", "example.com:8080")]);

    let meta = extract_request_meta(&req);
    assert_eq!(meta.host.as_deref(), Some("example.com"));
}

#[test]
fn extract_meta_host_without_port() {
    let req = request("GET", "/path", &[("host", "example.com")]);

    let meta = extract_request_meta(&req);
    assert_eq!(meta.host.as_deref(), Some("example.com"));
}

#[test]
fn extract_meta_no_host_header() {
    let req = request("POST", "/submit", &[]);

    let meta = extract_request_meta(&req);
    assert_eq!(meta.host, None);
    assert_eq!(meta.method, "POST");
}

#[test]
fn extract_meta_no_query_params() {
    let req = request("GET", "/path", &[("host", "example.com")]);

    let meta = extract_request_meta(&req);
    assert!(meta.query_params.is_empty());
}

#[test]
fn extract_meta_method_preserved() {
    for method in &["GET", "POST", "PUT", "DELETE", "PATCH", "HEAD", "OPTIONS"] {
        let req = request(method, "/", &[]);

        let meta = extract_request_meta(&req);
        assert_eq!(meta.method, *method);
    }
}

#[test]
fn extract_meta_multiple_headers() {
    let req = request("GET", "/", &[("host", "example.com"), ("accept", "text/html"), ("x-request-id", "abc-123")]);

    let meta = extract_request_meta(&req);
    assert_eq!(meta.headers.len(), 3);
}

#[test]
fn not_found_response_status() {
    let resp = not_found_response();
    assert_eq!(resp.status, http::StatusCode::NOT_FOUND.as_u16());
    assert_eq!(resp.status, 404);
}

#[test]
fn bad_gateway_response_status() {
    let resp = bad_gateway_response();
    assert_eq!(resp.status, http::StatusCode::BAD_GATEWAY.as_u16());
    assert_eq!(resp.status, 502);
}

#[test]
fn service_unavailable_response_status() {
    let resp = service_unavailable_response();
    assert_eq!(resp.status, http::StatusCode::SERVICE_UNAVAILABLE.as_u16());
    assert_eq!(resp.status, 503);
}

#[test]
fn gateway_timeout_response_status() {
    let resp = gateway_timeout_response();
    assert_eq!(resp.status, http::StatusCode::GATEWAY_TIMEOUT.as_u16());
    assert_eq!(resp.status, 504);
}

#[test]
fn redirect_response_has_location_header() {
    let resp = redirect_response(301, "https://example.com/new");
    assert_eq!(resp.status, 301);
    assert_eq!(
        header(&resp, "location"),
        "https://example.com/new"
    );
}

#[test]
fn redirect_response_302() {
    let resp = redirect_response(302, "/other");
    assert_eq!(resp.status, 302);
    assert_eq!(
        header(&resp, "location"),
        "/other"
    );
}

#[test]
fn select_backend_empty_returns_none() {
    assert!(select_backend(&[]).is_none());
}

#[test]
fn select_backend_single_returns_that_backend() {
    let backends = vec![Backend::new("ns", "svc", 8080)];
    let selected = select_backend(&backends).unwrap();
    assert_eq!(selected.name, "svc");
}

#[test]
fn select_backend_weight_zero_never_selected() {
    let backends = vec![
        Backend::new("ns", "zero-weight", 8080).with_weight(0),
        Backend::new("ns", "positive", 8081).with_weight(1),
    ];
    // Run many times to ensure zero-weight is never picked.
    for _ in 0..100 {
        let selected = select_backend(&backends).unwrap();
        assert_eq!(selected.name, "positive");
    }
}

#[test]
fn select_backend_all_zero_weight_returns_none() {
    let backends = vec![
        Backend::new("ns", "a", 8080).with_weight(0),
        Backend::new("ns", "b", 8081).with_weight(0),
    ];
    assert!(select_backend(&backends).is_none());
}

#[test]
fn select_backend_weighted_distribution() {
    let backends = vec![
        Backend::new("ns", "heavy", 8080).with_weight(100),
        Backend::new("ns", "light", 8081).with_weight(1),
    ];
    let mut heavy_count = 0u32;
    let iterations = 1000;
    for _ in 0..iterations {
        let selected = select_backend(&backends).unwrap();
        if selected.name == "heavy" {
            heavy_count += 1;
        }
    }
    // With 100:1 weighting, heavy should be picked most of the time.
    assert!(
        heavy_count > 900,
        "Expected heavy backend to be selected >900 times out of {iterations}, got {heavy_count}"
    );
}

#[test]
fn websocket_upgrade_detects_valid_upgrade() {
    let req = ws_request(&[
        ("host", "example.com"),
        ("connection", "Upgrade"),
        ("upgrade", "websocket"),
        ("sec-websocket-version", "13"),
        ("sec-websocket-key", "dGhlIHNhbXBsZSBub25jZQ=="),
    ]);
    assert!(is_websocket_upgrade(&req));
}

#[test]
fn websocket_upgrade_rejects_missing_connection_header() {
    let req = ws_request(&[
        ("host", "example.com"),
        ("upgrade", "websocket"),
        ("sec-websocket-version", "13"),
        ("sec-websocket-key", "dGhlIHNhbXBsZSBub25jZQ=="),
    ]);
    assert!(!is_websocket_upgrade(&req));
}

#[test]
fn websocket_upgrade_rejects_missing_upgrade_header() {
    let req = ws_request(&[
        ("host", "example.com"),
        ("connection", "Upgrade"),
        ("sec-websocket-version", "13"),
        ("sec-websocket-key", "dGhlIHNhbXBsZSBub25jZQ=="),
    ]);
    assert!(!is_websocket_upgrade(&req));
}

#[test]
fn websocket_upgrade_rejects_missing_websocket_version() {
    let req = ws_request(&[
        ("host", "example.com"),
        ("connection", "Upgrade"),
        ("upgrade", "websocket"),
        ("sec-websocket-key", "dGhlIHNhbXBsZSBub25jZQ=="),
    ]);
    assert!(!is_websocket_upgrade(&req));
}

#[test]
fn websocket_upgrade_rejects_missing_websocket_key() {
    let req = ws_request(&[
        ("host", "example.com"),
        ("connection", "Upgrade"),
        ("upgrade", "websocket"),
        ("sec-websocket-version", "13"),
    ]);
    assert!(!is_websocket_upgrade(&req));
}

#[test]
fn websocket_upgrade_rejects_non_websocket_upgrade() {
    let req = ws_request(&[
        ("host", "example.com"),
        ("connection", "Upgrade"),
        ("upgrade", "h2c"),
        ("sec-websocket-version", "13"),
        ("sec-websocket-key", "dGhlIHNhbXBsZSBub25jZQ=="),
    ]);
    assert!(!is_websocket_upgrade(&req));
}

#[test]
fn websocket_upgrade_is_case_insensitive() {
    let req = ws_request(&[
        ("host", "example.com"),
        ("Connection", "UPGRADE"),
        ("Upgrade", "WebSocket"),
        ("Sec-WebSocket-Version", "13"),
        ("Sec-WebSocket-Key", "dGhlIHNhbXBsZSBub25jZQ=="),
    ]);
    assert!(is_websocket_upgrade(&req));
}

#[test]
fn websocket_upgrade_connection_header_with_multiple_values() {
    let req = ws_request(&[
        ("host", "example.com"),
        ("connection", "keep-alive, Upgrade"),
        ("upgrade", "websocket"),
        ("sec-websocket-version", "13"),
        ("sec-websocket-key", "dGhlIHNhbXBsZSBub25jZQ=="),
    ]);
    assert!(is_websocket_upgrade(&req));
}

#[test]
fn raw_websocket_upgrade_detects_valid_upgrade() {
    let raw = b"GET /ws HTTP/1.1\r\nHost: example.com\r\nConnection: Upgrade\r\nUpgrade: websocket\r\nSec-WebSocket-Version: 13\r\nSec-WebSocket-Key: dGhlIHNhbXBsZSBub25jZQ==\r\n\r\n";
    assert!(is_raw_websocket_upgrade(raw));
}

#[test]
fn raw_websocket_upgrade_rejects_normal_request() {
    let raw = b"GET /hello HTTP/1.1\r\nHost: example.com\r\n\r\n";
    assert!(!is_raw_websocket_upgrade(raw));
}

#[test]
fn raw_websocket_upgrade_is_case_insensitive() {
    let raw = b"GET /ws HTTP/1.1\r\nhost: example.com\r\nCONNECTION: UPGRADE\r\nUPGRADE: WebSocket\r\nsec-websocket-version: 13\r\nsec-websocket-key: dGhlIHNhbXBsZSBub25jZQ==\r\n\r\n";
    assert!(is_raw_websocket_upgrade(raw));
}

#[test]
fn raw_websocket_upgrade_rejects_missing_key() {
    let raw = b"GET /ws HTTP/1.1\r\nHost: example.com\r\nConnection: Upgrade\r\nUpgrade: websocket\r\nSec-WebSocket-Version: 13\r\n\r\n";
    assert!(!is_raw_websocket_upgrade(raw));
}

#[test]
fn test_percentage_mirroring() {
    // With percent=0, no requests should be mirrored.
    let mut mirrored_count = 0u32;
    let iterations = 1000u32;
    let percent: u32 = 0;
    for _ in 0..iterations {
        if is_mirrored(percent, rand::random_range(0..100)) {
            mirrored_count += 1;
        }
    }
    assert_eq!(mirrored_count, 0, "0% should mirror nothing");

    // With percent=100, all requests should be mirrored.
    mirrored_count = 0;
    let percent: u32 = 100;
    for _ in 0..iterations {
        if is_mirrored(percent, rand::random_range(0..100)) {
            mirrored_count += 1;
        }
    }
    assert_eq!(mirrored_count, iterations, "100% should mirror everything");

    // With percent=50, roughly half should be mirrored.
    mirrored_count = 0;
    let percent: u32 = 50;
    for _ in 0..iterations {
        if is_mirrored(percent, rand::random_range(0..100)) {
            mirrored_count += 1;
        }
    }
    assert!(
        mirrored_count > 350 && mirrored_count < 650,
        "50% should mirror roughly half, got {mirrored_count} out of {iterations}"
    );
}
