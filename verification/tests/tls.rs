use multiway::config::{CertificateRef, InlineCertificate, TlsConfig, TlsMode};
use multiway::tls::{build_tls_acceptor, parse_pem_certs, parse_pem_private_key};

/// Generates a self-signed certificate using a single keypair.
fn generate_cert_and_key(hostnames: &[&str]) -> (String, String) {
    let key_pair = rcgen::KeyPair::generate().unwrap();
    let params = rcgen::CertificateParams::new(
        hostnames.iter().map(|h| h.to_string()).collect::<Vec<_>>(),
    )
    .unwrap();
    let cert = params.self_signed(&key_pair).unwrap();
    (cert.pem(), key_pair.serialize_pem())
}

#[test]
fn parse_valid_cert_pem() {
    let (cert_pem, _key_pem) = generate_cert_and_key(&["localhost"]);
    let certs = parse_pem_certs(&cert_pem).unwrap();
    assert_eq!(certs.len(), 1, "should parse one certificate");
}

#[test]
fn parse_valid_key_pem() {
    let (_cert_pem, key_pem) = generate_cert_and_key(&["localhost"]);
    let key = parse_pem_private_key(&key_pem);
    assert!(key.is_ok(), "should parse private key");
}

#[test]
fn parse_empty_cert_pem_returns_error() {
    let result = parse_pem_certs("");
    assert!(result.is_err());
    let err = result.unwrap_err().message();
    assert!(
        err.contains("no certificates"),
        "Expected 'no certificates' error, got: {err}"
    );
}

#[test]
fn parse_empty_key_pem_returns_error() {
    let result = parse_pem_private_key("");
    assert!(result.is_err());
    let err = result.unwrap_err().message();
    assert!(
        err.contains("no private key"),
        "Expected 'no private key' error, got: {err}"
    );
}

#[test]
fn parse_garbage_cert_pem_returns_error() {
    let result = parse_pem_certs("this is not PEM data");
    assert!(result.is_err());
}

#[test]
fn parse_garbage_key_pem_returns_error() {
    let result = parse_pem_private_key("this is not PEM data");
    assert!(result.is_err());
}

#[test]
fn build_acceptor_single_cert() {
    let (cert_pem, key_pem) = generate_cert_and_key(&["localhost"]);
    let tls_config = TlsConfig {
        mode: TlsMode::Terminate,
        certificates: Vec::new(),
        inline_certificates: vec![InlineCertificate {
            cert_pem,
            key_pem,
            hostnames: vec!["localhost".to_string()],
        }],
    };

    let acceptor = build_tls_acceptor(&tls_config).unwrap();
    assert!(
        acceptor.is_some(),
        "Terminate mode should produce an acceptor"
    );
}

#[test]
fn build_acceptor_passthrough_returns_none() {
    let tls_config = TlsConfig {
        mode: TlsMode::Passthrough,
        certificates: Vec::new(),
        inline_certificates: Vec::new(),
    };

    let acceptor = build_tls_acceptor(&tls_config).unwrap();
    assert!(acceptor.is_none(), "Passthrough mode should return None");
}

#[test]
fn build_acceptor_no_inline_certs_returns_error() {
    let tls_config = TlsConfig {
        mode: TlsMode::Terminate,
        certificates: vec![CertificateRef {
            namespace: "default".to_string(),
            name: "my-cert".to_string(),
        }],
        inline_certificates: Vec::new(),
    };

    let result = build_tls_acceptor(&tls_config);
    assert!(result.is_err());
    let err = match result {
        Err(e) => e.message(),
        Ok(_) => panic!("expected error"),
    };
    assert!(
        err.contains("no inline certificates"),
        "Expected 'no inline certificates' error, got: {err}"
    );
}

#[test]
fn build_acceptor_multiple_certs_sni() {
    let (cert_pem_a, key_pem_a) = generate_cert_and_key(&["alpha.example.com"]);
    let (cert_pem_b, key_pem_b) = generate_cert_and_key(&["beta.example.com"]);

    let tls_config = TlsConfig {
        mode: TlsMode::Terminate,
        certificates: Vec::new(),
        inline_certificates: vec![
            InlineCertificate {
                cert_pem: cert_pem_a,
                key_pem: key_pem_a,
                hostnames: vec!["alpha.example.com".to_string()],
            },
            InlineCertificate {
                cert_pem: cert_pem_b,
                key_pem: key_pem_b,
                hostnames: vec!["beta.example.com".to_string()],
            },
        ],
    };

    let acceptor = build_tls_acceptor(&tls_config).unwrap();
    assert!(
        acceptor.is_some(),
        "Multiple certs with SNI should produce an acceptor"
    );
}

#[test]
fn build_acceptor_invalid_cert_returns_error() {
    let (_cert_pem, key_pem) = generate_cert_and_key(&["localhost"]);
    let tls_config = TlsConfig {
        mode: TlsMode::Terminate,
        certificates: Vec::new(),
        inline_certificates: vec![InlineCertificate {
            cert_pem: "not a cert".to_string(),
            key_pem,
            hostnames: Vec::new(),
        }],
    };

    let result = build_tls_acceptor(&tls_config);
    assert!(result.is_err());
}

#[test]
fn build_acceptor_invalid_key_returns_error() {
    let (cert_pem, _key_pem) = generate_cert_and_key(&["localhost"]);
    let tls_config = TlsConfig {
        mode: TlsMode::Terminate,
        certificates: Vec::new(),
        inline_certificates: vec![InlineCertificate {
            cert_pem,
            key_pem: "not a key".to_string(),
            hostnames: Vec::new(),
        }],
    };

    let result = build_tls_acceptor(&tls_config);
    assert!(result.is_err());
}
