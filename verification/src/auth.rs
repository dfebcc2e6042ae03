//! Signing in: what the broker's answer turns into, and the session that a
//! successful sign-in opens.

use vstd::prelude::*;

use crate::cli::connection::{ListenerProtocol, SaslSettings, ScramMechanism, SecuritySettings, TlsSettings};
use crate::error::UiError;
use crate::permissions::Capabilities;
use crate::session::{
    expiry, is_canonical_uuid, live_at, SessionCredentials, SessionRecord, SessionStore, SessionUser,
};
use crate::text::push_str;

verus! {

/// The credentials that the login form posts.
pub struct LoginRequest {
    pub username: String,
    pub password: String,
}

/// A successful sign-in: who signed in, and the session it opened.
pub struct LoginSuccess {
    pub username: String,
    pub principal: String,
    pub session_id: String,
}

/// The Kafka principal of a user.
pub open spec fn principal_of(username: Seq<char>) -> Seq<char> {
    "User:"@ + username
}

/// The Kafka principal of a user: `User:` and the name.
pub fn login_principal(username: &str) -> (p: String)
    ensures
        p@ == principal_of(username@),
{
    let mut p = String::new();
    push_str(&mut p, "User:");
    push_str(&mut p, username);
    p
}

/// The record a sign-in leaves in the store for its operator.
pub open spec fn signed_in_record(record: SessionRecord, request: LoginRequest, capabilities: Capabilities) -> bool {
    &&& record.user.username@ == request.username@
    &&& record.user.principal@ == principal_of(request.username@)
    &&& record.credentials matches Some(c) && c@ == request.password@
    &&& record.capabilities == capabilities
    &&& is_canonical_uuid(record.csrf_token@)
}

/// Finishes a sign-in once the broker has answered: a refusal is passed
/// on and opens nothing; an acceptance opens a session that holds the
/// password and the capabilities the broker reported.
pub fn complete_login(
    sessions: &mut SessionStore,
    request: LoginRequest,
    authenticated: Result<Capabilities, UiError>,
) -> (r: Result<LoginSuccess, UiError>)
    requires
        old(sessions).wf(),
    ensures
        final(sessions).wf(),
        final(sessions).spec_ttl() == old(sessions).spec_ttl(),
        match authenticated {
            Err(e) => r == Err::<LoginSuccess, UiError>(e) && final(sessions)@ == old(sessions)@,
            Ok(capabilities) => r matches Ok(s) && {
                &&& s.username@ == request.username@
                &&& s.principal@ == principal_of(request.username@)
                &&& is_canonical_uuid(s.session_id@)
                &&& final(sessions)@.contains_key(s.session_id@)
                &&& signed_in_record(final(sessions)@[s.session_id@], request, capabilities)
                &&& exists|now: u64|
                    #![trigger live_at(old(sessions)@, now)]
                    final(sessions)@ == live_at(old(sessions)@, now).insert(
                        s.session_id@,
                        final(sessions)@[s.session_id@],
                    ) && final(sessions)@[s.session_id@].expires_at == expiry(now, old(sessions).spec_ttl())
            },
        },
{
    let capabilities = match authenticated {
        Ok(c) => c,
        Err(e) => {
            return Err(e);
        },
    };
    let principal = login_principal(request.username.as_str());
    let user = SessionUser { username: request.username.clone(), principal: principal.clone() };
    let id = sessions.create_authenticated(user, SessionCredentials::scram_sha512(request.password), capabilities);
    let session_id = id.expose_for_cookie().to_owned();
    Ok(LoginSuccess { username: request.username, principal, session_id })
}

/// The capabilities a session gets from the operator's ACLs.
///
/// A broker that refuses the ACL read, and an operator that matches no ACL
/// at all, both give every capability: a Kafka super user bypasses ACLs and
/// so matches no entry, and a cluster that runs without an authorizer
/// refuses the read. The UI cannot tell either case from a truly ungranted
/// operator, so it shows every page and lets the broker refuse what the
/// operator may not do.
pub fn effective_capabilities(derived: Option<Capabilities>) -> (c: Capabilities)
    ensures
        match derived {
            None => c == Capabilities::spec_all(),
            Some(d) => if d == Capabilities::spec_none() {
                c == Capabilities::spec_all()
            } else {
                c == d
            },
        },
{
    match derived {
        None => Capabilities::all(),
        Some(d) => {
            if d == Capabilities::none() {
                Capabilities::all()
            } else {
                d
            }
        },
    }
}

/// Separates a rejected password from an unreachable broker.
///
/// The admin client reports every bootstrap failure as a connect error,
/// whatever the cause, so the error alone cannot say which happened. A TCP
/// probe of the same addresses decides it: a broker that accepts a TCP
/// connection runs, so the authenticated connect failed in the handshake,
/// and for this UI that means the credentials.
pub fn classify_login_failure(connect_failed: bool, probe_accepted: bool, error: UiError) -> (r: UiError)
    ensures
        connect_failed && probe_accepted ==> r == UiError::NotAuthenticated,
        !(connect_failed && probe_accepted) ==> r == error,
{
    if connect_failed && probe_accepted {
        UiError::NotAuthenticated
    } else {
        error
    }
}

/// How the admin UI reaches its brokers: SASL over plain TCP, or SASL over
/// TLS with the TLS material.
pub enum BrokerSecurityConfig {
    SaslPlaintext,
    SaslSsl {
        trust_roots_pem: Option<String>,
        server_name: String,
        client_identity: Option<(String, String)>,
    },
}

impl BrokerSecurityConfig {
    /// The listener protocol this configuration speaks.
    pub fn listener_protocol(&self) -> (p: ListenerProtocol)
        ensures
            self is SaslPlaintext ==> p == ListenerProtocol::SaslPlaintext,
            self is SaslSsl ==> p == ListenerProtocol::SaslSsl,
    {
        match self {
            BrokerSecurityConfig::SaslPlaintext => ListenerProtocol::SaslPlaintext,
            BrokerSecurityConfig::SaslSsl { .. } => ListenerProtocol::SaslSsl,
        }
    }

    /// The TLS material, for the TLS variant.
    pub fn tls(&self) -> (t: Option<TlsSettings>)
        ensures
            match self {
                BrokerSecurityConfig::SaslPlaintext => t is None,
                BrokerSecurityConfig::SaslSsl { trust_roots_pem, server_name, client_identity } => t matches Some(
                    tls,
                ) && tls.trust_roots_pem == *trust_roots_pem && tls.server_name == *server_name
                    && tls.client_identity == *client_identity,
            },
    {
        match self {
            BrokerSecurityConfig::SaslPlaintext => None,
            BrokerSecurityConfig::SaslSsl { trust_roots_pem, server_name, client_identity } => {
                let roots = match trust_roots_pem {
                    Some(r) => Some(r.clone()),
                    None => None,
                };
                let identity = match client_identity {
                    Some((cert, key)) => Some((cert.clone(), key.clone())),
                    None => None,
                };
                Some(TlsSettings { trust_roots_pem: roots, server_name: server_name.clone(), client_identity: identity })
            },
        }
    }
}

/// The security a sign-in connects with: the configured transport, and the
/// operator's name and password over SCRAM-SHA-512, the one mechanism the
/// admin UI signs in with.
pub fn build_scram_sha512_security(config: &BrokerSecurityConfig, username: &str, password: &str) -> (s: SecuritySettings)
    ensures
        config is SaslPlaintext ==> s.protocol == ListenerProtocol::SaslPlaintext && s.tls is None,
        config is SaslSsl ==> s.protocol == ListenerProtocol::SaslSsl && s.tls is Some,
        s.sasl matches Some(SaslSettings::Scram { mechanism, username: u, password: p }) && mechanism
            == ScramMechanism::ScramSha512 && u@ == username@ && p@ == password@,
        s.sasl_host is None,
{
    SecuritySettings {
        protocol: config.listener_protocol(),
        tls: config.tls(),
        sasl: Some(
            SaslSettings::Scram {
                mechanism: ScramMechanism::ScramSha512,
                username: username.to_owned(),
                password: password.to_owned(),
            },
        ),
        sasl_host: None,
    }
}

} // verus!
