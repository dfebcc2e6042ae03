use krabka_admin::auth::{build_scram_sha512_security, BrokerSecurityConfig};
use krabka_admin::cli::connection::{ListenerProtocol, SaslSettings, ScramMechanism};

const SCRAM_PLAINTEXT_PASSWORD: &str = "password-sentinel";
const SCRAM_SSL_PASSWORD: &str = "tls-password-sentinel";

fn assert_scram_sha512_credentials(sasl: Option<&SaslSettings>, expected_username: &str, expected_password: &str) {
    match sasl {
        Some(SaslSettings::Scram { mechanism, username, password }) => {
            assert!(*mechanism == ScramMechanism::ScramSha512);
            assert!(username == expected_username);
            assert!(password == expected_password);
        },
        _ => panic!("expected SCRAM-SHA-512 credentials"),
    }
}

#[test]
fn build_security_uses_scram_sha512_only() {
    let security = build_scram_sha512_security(&BrokerSecurityConfig::SaslPlaintext, "alice", SCRAM_PLAINTEXT_PASSWORD);

    assert!(security.protocol == ListenerProtocol::SaslPlaintext);
    assert!(security.tls.is_none());
    assert!(security.sasl_host.is_none());
    assert_scram_sha512_credentials(security.sasl.as_ref(), "alice", SCRAM_PLAINTEXT_PASSWORD);
}

#[test]
fn build_security_preserves_sasl_ssl_tls_material() {
    let config = BrokerSecurityConfig::SaslSsl {
        trust_roots_pem: Some("ca.pem".to_string()),
        server_name: "broker.example.test".to_string(),
        client_identity: Some(("client.crt".to_string(), "client.key".to_string())),
    };

    let security = build_scram_sha512_security(&config, "carol", SCRAM_SSL_PASSWORD);
    let tls = security.tls.expect("SASL_SSL carries TLS config");

    assert!(security.protocol == ListenerProtocol::SaslSsl);
    assert!(tls.trust_roots_pem == Some("ca.pem".to_string()));
    assert!(tls.server_name == "broker.example.test");
    assert!(tls.client_identity == Some(("client.crt".to_string(), "client.key".to_string())));
    assert!(security.sasl_host.is_none());
    assert_scram_sha512_credentials(security.sasl.as_ref(), "carol", SCRAM_SSL_PASSWORD);
}
