//! Which configurations are accepted.
use postgresql_trino_gateway::config::Config;
use postgresql_trino_gateway::policy::{
    AuthPosture, Resolution, Warning, classify,
    listen_addr_is_loopback, startup_warnings, validate, validate_trino_posture,
};
use trino_rust_client::ClientBuilder;
use trino_rust_client::auth::Auth;

fn cfg(auth: bool, listen: &str, tls: bool) -> Config {
    Config {
        listen_addr: listen.to_owned(),
        tls_cert: tls.then_some("/tmp/cert".to_owned()),
        tls_key: tls.then_some("/tmp/key".to_owned()),
        trino_host: "h".to_owned(),
        trino_port: 8080,
        trino_catalog: "c".to_owned(),
        trino_schema: "s".to_owned(),
        trino_user: "u".to_owned(),
        trino_ssl: true, // safe default; tests that need plain HTTP override
        trino_tls_no_verify: false,
        trino_allow_plaintext_auth: false,
        auth,
        allow_insecure_listener: false,
        max_connections: 256,
    }
}

/// What the listen addresses of these tests resolve to.
fn resolve(addr: &str) -> Resolution {
    match addr {
        "127.0.0.1:5432" | "127.0.0.2:5432" | "[::1]:5432" => Ok(vec![true]),
        "localhost:5432" => Ok(vec![true, true]),
        "0.0.0.0:5432" | "[::]:5432" | "10.20.30.40:5432" => Ok(vec![false]),
        "not.a.real.host.invalid:5432" => Err("name or service not known".to_owned()),
        _ => Err("invalid socket address".to_owned()),
    }
}

fn judge(config: &Config) -> Result<AuthPosture, String> {
    classify(config, &resolve(&config.listen_addr))
}

#[test]
fn auth_disabled_on_loopback_is_ok() {
    assert_eq!(
        judge(&cfg(false, "127.0.0.1:5432", false)).unwrap(),
        AuthPosture::DisabledLoopback
    );
    assert_eq!(
        judge(&cfg(false, "[::1]:5432", false)).unwrap(),
        AuthPosture::DisabledLoopback
    );
}

#[test]
fn auth_disabled_on_non_loopback_is_refused_without_opt_in() {
    let err = judge(&cfg(false, "0.0.0.0:5432", false)).unwrap_err();
    let msg = format!("{err}");
    assert!(
        msg.contains("--allow-insecure-listener"),
        "must mention the opt-in flag: {msg}"
    );
    assert!(msg.contains("0.0.0.0:5432"), "echo bind addr: {msg}");
}

#[test]
fn auth_disabled_on_non_loopback_passes_with_opt_in() {
    let mut c = cfg(false, "0.0.0.0:5432", false);
    c.allow_insecure_listener = true;
    assert_eq!(judge(&c).unwrap(), AuthPosture::DisabledOpenBind);
}

/// The opt-in flag must not flip a loopback bind into the open-bind
/// posture. The loopback check runs first; the flag is a no-op on
/// loopback.
#[test]
fn allow_insecure_listener_on_loopback_stays_disabled_loopback() {
    let mut c = cfg(false, "127.0.0.1:5432", false);
    c.allow_insecure_listener = true;
    assert_eq!(judge(&c).unwrap(), AuthPosture::DisabledLoopback);
}

/// Setting both `--auth` and `--allow-insecure-listener` is a footgun
/// (the flag is silently ignored while auth is on, then activates if
/// the operator later drops --auth). `classify` warns but accepts.
#[test]
fn allow_insecure_listener_with_auth_on_is_accepted_with_warning() {
    let mut c = cfg(true, "127.0.0.1:5432", true);
    c.allow_insecure_listener = true;
    // Warn is logged; classify still returns the auth-driven posture.
    assert_eq!(judge(&c).unwrap(), AuthPosture::CleartextRequiresTls);
}

#[test]
fn auth_with_tls_passes_on_any_address() {
    assert_eq!(
        judge(&cfg(true, "0.0.0.0:5432", true)).unwrap(),
        AuthPosture::CleartextRequiresTls
    );
    assert_eq!(
        judge(&cfg(true, "127.0.0.1:5432", true)).unwrap(),
        AuthPosture::CleartextRequiresTls
    );
    assert_eq!(
        judge(&cfg(true, "[::]:5432", true)).unwrap(),
        AuthPosture::CleartextRequiresTls
    );
}

#[test]
fn auth_without_tls_on_loopback_warns_but_passes() {
    assert_eq!(
        judge(&cfg(true, "127.0.0.1:5432", false)).unwrap(),
        AuthPosture::CleartextLoopback
    );
    assert_eq!(
        judge(&cfg(true, "[::1]:5432", false)).unwrap(),
        AuthPosture::CleartextLoopback
    );
}

/// `IpAddr::is_loopback` accepts the entire 127.0.0.0/8 range (RFC 5735),
/// not just 127.0.0.1. Document and pin that behaviour.
#[test]
fn auth_without_tls_on_non_canonical_loopback_passes() {
    assert_eq!(
        judge(&cfg(true, "127.0.0.2:5432", false)).unwrap(),
        AuthPosture::CleartextLoopback
    );
}

/// `localhost` resolves to a loopback IP on every reasonable system.
/// Accept it rather than rejecting a common safe configuration.
#[test]
fn auth_without_tls_on_localhost_hostname_passes() {
    assert_eq!(
        judge(&cfg(true, "localhost:5432", false)).unwrap(),
        AuthPosture::CleartextLoopback
    );
}

#[test]
fn auth_without_tls_on_non_loopback_is_refused() {
    let err = judge(&cfg(true, "0.0.0.0:5432", false)).unwrap_err();
    let msg = format!("{err}");
    assert!(msg.contains("requires TLS"), "actionable message: {msg}");
    assert!(msg.contains("0.0.0.0:5432"), "echo bind addr: {msg}");
}

#[test]
fn auth_without_tls_on_public_ip_is_refused() {
    let err = judge(&cfg(true, "10.20.30.40:5432", false)).unwrap_err();
    assert!(format!("{err}").contains("requires TLS"));
}

#[test]
fn unparseable_listen_addr_with_auth_no_tls_surfaces_resolve_error() {
    // Use a name that DNS will not resolve. The error must mention the
    // input verbatim so the operator can fix it.
    let err = judge(&cfg(true, "not.a.real.host.invalid:5432", false)).unwrap_err();
    let msg = format!("{err}");
    assert!(
        msg.contains("invalid --listen-addr") || msg.contains("not.a.real.host.invalid"),
        "should surface the bad input: {msg}"
    );
}

/// Asymmetric tls_cert without tls_key is treated as no-TLS by the
/// has_tls check. A non-loopback bind in that state is refused, which
/// matches the main.rs warning that already fires.
#[test]
fn asymmetric_tls_flags_are_treated_as_no_tls() {
    let mut c = cfg(true, "0.0.0.0:5432", false);
    c.tls_cert = Some("/tmp/cert".to_owned());
    c.tls_key = None;
    assert!(judge(&c).is_err());
}

/// Disabled posture now validates listen-addr (it must be loopback or
/// opted in via --allow-insecure-listener), so an unparseable address
/// surfaces an error here.
#[test]
fn auth_disabled_with_unparseable_addr_surfaces_error() {
    let err = judge(&cfg(false, "garbage", false)).unwrap_err();
    let msg = format!("{err}");
    assert!(msg.contains("invalid --listen-addr") || msg.contains("garbage"));
}

// -- validate_trino_posture --

#[test]
fn trino_posture_default_https_is_ok() {
    let c = cfg(true, "127.0.0.1:5432", false);
    assert!(validate_trino_posture(&c).is_ok());
}

/// Auth on + Trino HTTP + no plaintext-auth opt-in: the trino client
/// would refuse to send the password and every authenticated PG
/// connection would fail. Surface that at startup.
#[test]
fn trino_posture_auth_over_http_without_opt_in_is_refused() {
    let mut c = cfg(true, "127.0.0.1:5432", false);
    c.trino_ssl = false;
    let err = validate_trino_posture(&c).unwrap_err();
    let msg = format!("{err}");
    assert!(
        msg.contains("--trino-ssl") && msg.contains("--trino-allow-plaintext-auth"),
        "should mention both escape hatches: {msg}"
    );
}

#[test]
fn trino_posture_auth_over_http_with_opt_in_passes() {
    let mut c = cfg(true, "127.0.0.1:5432", false);
    c.trino_ssl = false;
    c.trino_allow_plaintext_auth = true;
    assert!(validate_trino_posture(&c).is_ok());
}

/// Tls-no-verify with auth disabled and Trino over HTTPS: warn but
/// pass. The flag is a useful self-signed-cert escape hatch.
#[test]
fn trino_posture_tls_no_verify_with_https_passes() {
    let mut c = cfg(false, "127.0.0.1:5432", false);
    c.trino_tls_no_verify = true;
    assert!(validate_trino_posture(&c).is_ok());
}

/// Tls-no-verify without --trino-ssl: the flag has no effect because
/// verification only runs over TLS. Warn, but don't refuse.
#[test]
fn trino_posture_tls_no_verify_without_ssl_warns_but_passes() {
    let mut c = cfg(false, "127.0.0.1:5432", false);
    c.trino_ssl = false;
    c.trino_tls_no_verify = true;
    // auth is off here so the auth+http refusal doesn't apply.
    assert!(validate_trino_posture(&c).is_ok());
}

/// Plaintext-auth flag set with --trino-ssl on: redundant (TLS already
/// protects the credentials in transit). Warn but pass.
#[test]
fn trino_posture_plaintext_auth_with_https_warns_but_passes() {
    let mut c = cfg(true, "127.0.0.1:5432", true);
    c.trino_allow_plaintext_auth = true;
    assert!(validate_trino_posture(&c).is_ok());
}

/// Plaintext-auth flag set with --auth off and Trino over HTTP: the
/// flag would only matter if credentials were being forwarded, but
/// there are none. Warn but pass.
#[test]
fn trino_posture_plaintext_auth_without_auth_warns_but_passes() {
    let mut c = cfg(false, "127.0.0.1:5432", false);
    c.trino_ssl = false;
    c.trino_allow_plaintext_auth = true;
    assert!(validate_trino_posture(&c).is_ok());
}

/// Defence in depth: if validate_trino_posture is ever bypassed, the
/// trino-rust-client itself rejects the broken combo at build time
/// (BasicAuthWithHttp). Pin that contract so a future trino-rust-client
/// upgrade that loosens it doesn't silently let credentials leak over
/// plain HTTP without the operator's explicit opt-in.
#[test]
fn trino_client_builder_rejects_basic_auth_over_http_when_not_opted_in() {
    // secure(false) is the default, auth_http_insecure(false) is the
    // default; setting Basic auth in this state must error at build().
    let result = ClientBuilder::new("u", "h")
        .auth(Auth::new_basic("u", Some("pw")))
        .build();
    assert!(
        result.is_err(),
        "trino-rust-client must reject Basic auth over HTTP when not explicitly allowed"
    );
}

/// A configuration that is accepted never has a password cross an open network
/// unasked.
#[test]
fn accepted_configurations_are_safe() {
    for auth in [false, true] {
        for tls in [false, true] {
            for listen in ["127.0.0.1:5432", "0.0.0.0:5432"] {
                for opened in [false, true] {
                    for ssl in [false, true] {
                        let mut c = cfg(auth, listen, tls);
                        c.allow_insecure_listener = opened;
                        c.trino_ssl = ssl;
                        let accepted = validate(&c, &resolve(listen)).is_ok();
                        let local = listen.starts_with("127");
                        let expected = if auth {
                            (tls || local) && ssl
                        } else {
                            local || opened
                        };
                        assert_eq!(accepted, expected, "{c:?}");
                    }
                }
            }
        }
    }
}

#[test]
fn an_address_is_loopback_where_all_it_resolves_to_is() {
    assert_eq!(listen_addr_is_loopback("a:1", &Ok(vec![true, true])), Ok(true));
    assert_eq!(listen_addr_is_loopback("a:1", &Ok(vec![true, false])), Ok(false));
    let none = listen_addr_is_loopback("a:1", &Ok(vec![])).unwrap_err();
    assert!(none.contains("a:1"), "{none}");
    let bad = listen_addr_is_loopback("a:1", &Err("no such host".to_owned())).unwrap_err();
    assert_eq!(bad, "invalid --listen-addr: a:1: no such host");
}

#[test]
fn warnings_name_flags_without_effect() {
    assert!(startup_warnings(&cfg(true, "127.0.0.1:5432", true)).is_empty());
    let mut c = cfg(true, "127.0.0.1:5432", true);
    c.allow_insecure_listener = true;
    c.trino_tls_no_verify = true;
    c.trino_allow_plaintext_auth = true;
    let w = startup_warnings(&c);
    assert!(w.contains(&Warning::InsecureListenerIgnored));
    assert!(w.contains(&Warning::NoVerify));
    assert!(w.contains(&Warning::PlaintextAuthIgnored));
    c.trino_ssl = false;
    let w = startup_warnings(&c);
    assert!(w.contains(&Warning::NoVerifyIgnored));
}
