//! Connection setup.
use std::sync::Arc;

use postgresql_trino_gateway::cancel::GatewayCancelHandler;
use postgresql_trino_gateway::config::{Config, TlsFiles};
use postgresql_trino_gateway::handler::GatewayHandlerFactory;
use postgresql_trino_gateway::query_extended::GatewayExtendedQueryHandler;
use postgresql_trino_gateway::query_simple::GatewayQueryHandler;
use postgresql_trino_gateway::session::{
    ActiveQueryId, CancelEntry, ConnectionState, Registry, SecretKey, lookup_cancel,
};
use postgresql_trino_gateway::startup::{
    GatewayParameterProvider, GatewayStartupHandler, PidCounter, SetupAction, SetupMessage,
    new_pid_and_secret_key, show_value,
};

fn config() -> Config {
    Config {
        listen_addr: "127.0.0.1:5432".to_owned(),
        tls_cert: None,
        tls_key: None,
        trino_host: "trino.test".to_owned(),
        trino_port: 8443,
        trino_catalog: "c".to_owned(),
        trino_schema: "s".to_owned(),
        trino_user: "service".to_owned(),
        trino_ssl: false,
        trino_tls_no_verify: false,
        trino_allow_plaintext_auth: false,
        auth: false,
        allow_insecure_listener: false,
        max_connections: 256,
    }
}

fn handler(config: Config) -> GatewayStartupHandler {
    GatewayStartupHandler { config: Arc::new(config) }
}

#[test]
fn announced_parameters_are_shown() {
    let announced = GatewayParameterProvider.server_parameters();
    assert_eq!(announced.len(), 16);
    for p in &announced {
        assert_eq!(show_value(&p.name.to_uppercase()), p.value);
    }
    assert_eq!((announced[0].name, announced[0].value), ("server_version", "16.6"));
    assert_eq!(show_value("nothing"), "on");
}

#[test]
fn without_authentication_clients_connect_at_once() {
    let h = handler(config());
    assert!(matches!(h.on_startup(SetupMessage::Startup, false), SetupAction::Connect));
    assert!(matches!(h.on_startup(SetupMessage::Startup, true), SetupAction::Connect));
}

#[test]
fn a_plaintext_client_is_refused_before_it_sends_a_password() {
    let mut c = config();
    c.auth = true;
    c.tls_cert = Some("cert".to_owned());
    assert!(!handler(c.clone()).tls_required());
    assert!(matches!(
        handler(c.clone()).on_startup(SetupMessage::Startup, false),
        SetupAction::AskPassword
    ));
    c.tls_key = Some("key".to_owned());
    let h = handler(c);
    assert!(h.tls_required());
    match h.on_startup(SetupMessage::Startup, false) {
        SetupAction::Refuse(e) => {
            assert_eq!(e.severity, "FATAL");
            assert_eq!(e.code, "28000");
            assert_eq!(e.message, "TLS is required for password authentication on this server");
        }
        other => panic!("unexpected {other:?}"),
    }
    assert!(matches!(h.on_startup(SetupMessage::Startup, true), SetupAction::AskPassword));
    assert!(matches!(h.on_startup(SetupMessage::Password, true), SetupAction::CheckPassword));
    match h.on_startup(SetupMessage::Other, true) {
        SetupAction::Unexpected(m) => {
            assert_eq!(m, "Expected Startup message during connection setup");
        }
        other => panic!("unexpected {other:?}"),
    }
}

#[test]
fn a_refused_password_names_its_user() {
    let h = handler(config());
    assert_eq!(h.on_password(Some("ann"), true), Ok("ann".to_owned()));
    assert_eq!(h.on_password(Some("ann"), false), Err("ann".to_owned()));
    assert_eq!(h.on_password(None, false), Err(String::new()));
}

#[test]
fn client_settings_follow_the_configuration() {
    let h = handler(config());
    let settings = h.client_settings(None);
    assert_eq!(settings.user, "service");
    assert_eq!(settings.host, "trino.test");
    assert_eq!(settings.port, 8443);
    assert_eq!((settings.catalog.as_str(), settings.schema.as_str()), ("c", "s"));
    assert!(!settings.secure && !settings.plaintext_auth && !settings.unverified);
    assert_eq!(h.client_settings(Some("ann")).user, "ann");
}

/// A client that would send a password over plain HTTP cannot be built, unless
/// the operator allows it.
#[test]
fn passwords_are_not_sent_over_plain_http() {
    let built = |c: &Config, password: Option<&str>| {
        handler(c.clone()).build_trino_client(Some("ann"), password).into_parts().0.build().is_ok()
    };
    let mut c = config();
    assert!(built(&c, None));
    assert!(!built(&c, Some("pw")));
    c.trino_allow_plaintext_auth = true;
    assert!(built(&c, Some("pw")));
    c.trino_allow_plaintext_auth = false;
    c.trino_ssl = true;
    assert!(built(&c, Some("pw")));
    c.trino_host = "no host".to_owned();
    assert!(!built(&c, None));
}

#[test]
fn certificates_are_verified_unless_the_operator_says_otherwise() {
    let mut c = config();
    assert!(!handler(c.clone()).build_trino_client(None, None).into_parts().1);
    c.trino_tls_no_verify = true;
    assert!(handler(c.clone()).build_trino_client(None, None).into_parts().1);
    assert!(handler(c).build_trino_client(Some("ann"), Some("pw")).into_parts().1);
}

#[test]
fn process_ids_count_up_from_one() {
    let mut pids = PidCounter::new();
    let pairs: Vec<(i32, SecretKey)> = (0..3).map(|_| new_pid_and_secret_key(&mut pids)).collect();
    assert_eq!(pairs.iter().map(|p| p.0).collect::<Vec<_>>(), vec![1, 2, 3]);
    assert!(pairs.iter().all(|p| matches!(p.1, SecretKey::I32(_))));
    let mut last = PidCounter { next: i32::MAX };
    assert_eq!(new_pid_and_secret_key(&mut last).0, i32::MAX);
    assert_eq!(last.next, i32::MIN);
}

#[test]
fn a_session_can_be_cancelled() {
    let mut cancels: Registry<CancelEntry<Arc<&str>, Arc<ActiveQueryId>>> = Registry::new();
    let mut pids = PidCounter::new();
    let h = handler(config());
    let slot = Arc::new(ActiveQueryId { id: None });
    let state: ConnectionState<Arc<&str>, Arc<ActiveQueryId>, u32> =
        h.establish_session(&mut cancels, &mut pids, Arc::new("client"), slot);
    assert_eq!(state.cancel_key.0, 1);
    assert_eq!(state.portals.len(), 0);
    assert_eq!(state.config.trino_host, "trino.test");
    let found = lookup_cancel(&cancels, state.cancel_key.0, &state.cancel_key.1).unwrap();
    assert_eq!(*found.trino_client, "client");
    assert!(Arc::ptr_eq(&found.active_query_id, &state.active_query_id));
}

#[test]
fn half_a_tls_configuration_is_none() {
    let mut c = config();
    assert!(matches!(c.tls_files(), TlsFiles::Neither));
    c.tls_cert = Some("a".to_owned());
    assert!(matches!(c.tls_files(), TlsFiles::CertOnly(p) if p == "a"));
    c.tls_key = Some("b".to_owned());
    assert!(matches!(c.tls_files(), TlsFiles::Both { cert, key } if cert == "a" && key == "b"));
    c.tls_cert = None;
    assert!(matches!(c.tls_files(), TlsFiles::KeyOnly(p) if p == "b"));
}

#[test]
fn a_connection_limit_of_zero_is_refused() {
    let mut c = config();
    assert_eq!(c.connection_limit(), Ok(256));
    c.max_connections = 0;
    assert!(c.connection_limit().unwrap_err().contains("--max-connections 0"));
}

#[test]
fn a_factory_holds_its_handlers() {
    let startup = Arc::new(handler(config()));
    let query = Arc::new(GatewayQueryHandler);
    let extended = Arc::new(GatewayExtendedQueryHandler);
    let factory = GatewayHandlerFactory::new(startup.clone(), query, extended);
    assert!(Arc::ptr_eq(&factory.startup, &startup));
    let cancel: &GatewayCancelHandler = &factory.cancel;
    assert!(format!("{cancel:?}").contains("Cancel"));
}
