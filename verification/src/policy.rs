//! The security policy that is checked at startup.
//!
//! Authentication is a cleartext password, which is forwarded to Trino. It is
//! refused on a listener that is neither protected by TLS nor bound to
//! loopback addresses only.
use vstd::prelude::*;

use crate::config::Config;

verus! {

/// How a configuration treats clients and their credentials.
#[derive(Clone, Copy, Debug, PartialEq, Eq, Structural)]
pub enum AuthPosture {
    /// Authentication is off and the listener is loopback.
    DisabledLoopback,
    /// Authentication is off on a listener that is not loopback, which the
    /// operator asked for.
    DisabledOpenBind,
    /// Authentication is on and TLS is configured; clients without TLS are
    /// refused as they connect.
    CleartextRequiresTls,
    /// Authentication is on without TLS, on a loopback listener.
    CleartextLoopback,
}

/// What the listen address resolves to: for each address whether it is
/// loopback, or why it could not be resolved.
pub type Resolution = Result<Vec<bool>, String>;

/// Every address of a list is loopback.
pub open spec fn all_loopback(addresses: Seq<bool>) -> bool {
    forall|i: int| 0 <= i < addresses.len() ==> #[trigger] addresses[i]
}

/// Whether the listen address is loopback, or the message that refuses it.
pub open spec fn loopback(addr: Seq<char>, resolved: Resolution) -> Result<bool, Seq<char>> {
    match resolved {
        Err(cause) => Err("invalid --listen-addr: "@ + addr + ": "@ + cause@),
        Ok(addresses) => if addresses@.len() == 0 {
            Err("--listen-addr "@ + addr + " did not resolve to any address"@)
        } else {
            Ok(all_loopback(addresses@))
        },
    }
}

/// A message by its characters.
pub open spec fn message_view<T>(r: Result<T, String>) -> Result<T, Seq<char>> {
    match r {
        Ok(v) => Ok(v),
        Err(m) => Err(m@),
    }
}

/// Whether every address of a list is loopback.
fn are_loopback(addresses: &Vec<bool>) -> (r: bool)
    ensures
        r == all_loopback(addresses@),
{
    let mut i: usize = 0;
    while i < addresses.len()
        invariant
            i <= addresses@.len(),
            forall|k: int| 0 <= k < i ==> #[trigger] addresses@[k],
        decreases addresses@.len() - i,
    {
        if !addresses[i] {
            assert(!addresses@[i as int]);
            return false;
        }
        i += 1;
    }
    true
}

/// Whether every address that the listen address resolves to is loopback. A
/// host with both a loopback and a public address counts as public.
pub fn listen_addr_is_loopback(addr: &str, resolved: &Resolution) -> (r: Result<bool, String>)
    ensures
        message_view(r) == loopback(addr@, *resolved),
{
    match resolved {
        Err(cause) => {
            let mut m = "invalid --listen-addr: ".to_owned();
            m.append(addr);
            m.append(": ");
            m.append(cause.as_str());
            Err(m)
        },
        Ok(addresses) => {
            if addresses.len() == 0 {
                let mut m = "--listen-addr ".to_owned();
                m.append(addr);
                m.append(" did not resolve to any address");
                return Err(m);
            }
            Ok(are_loopback(addresses))
        },
    }
}

/// The message that refuses an open listener without authentication.
pub open spec fn open_bind_refused(addr: Seq<char>) -> Seq<char> {
    "--auth=false on a non-loopback bind ("@ + addr
        + ") is not allowed by default. Either pass --auth (and --tls-cert/--tls-key for password protection) to require authentication, or pass --allow-insecure-listener to explicitly allow unauthenticated network access."@
}

/// The message that refuses passwords on an open listener without TLS.
pub open spec fn cleartext_refused(addr: Seq<char>) -> Seq<char> {
    "--auth on non-loopback bind ("@ + addr
        + ") requires TLS. Set --tls-cert and --tls-key, or bind to 127.0.0.1 / [::1] / localhost for dev."@
}

/// The posture of a configuration, or the message that refuses it.
pub open spec fn posture(config: Config, resolved: Resolution) -> Result<AuthPosture, Seq<char>> {
    let addr = config.listen_addr@;
    if config.auth && config.has_tls() {
        Ok(AuthPosture::CleartextRequiresTls)
    } else {
        match loopback(addr, resolved) {
            Err(m) => Err(m),
            Ok(true) => if config.auth {
                Ok(AuthPosture::CleartextLoopback)
            } else {
                Ok(AuthPosture::DisabledLoopback)
            },
            Ok(false) => if config.auth {
                Err(cleartext_refused(addr))
            } else if config.allow_insecure_listener {
                Ok(AuthPosture::DisabledOpenBind)
            } else {
                Err(open_bind_refused(addr))
            },
        }
    }
}

/// Classifies a configuration, given what its listen address resolves to.
pub fn classify(config: &Config, resolved: &Resolution) -> (r: Result<AuthPosture, String>)
    ensures
        message_view(r) == posture(*config, *resolved),
{
    let addr = config.listen_addr.as_str();
    if !config.auth {
        return match listen_addr_is_loopback(addr, resolved) {
            Err(m) => Err(m),
            Ok(true) => Ok(AuthPosture::DisabledLoopback),
            Ok(false) => {
                if config.allow_insecure_listener {
                    Ok(AuthPosture::DisabledOpenBind)
                } else {
                    let mut m = "--auth=false on a non-loopback bind (".to_owned();
                    m.append(addr);
                    m.append(
                        ") is not allowed by default. Either pass --auth (and --tls-cert/--tls-key for password protection) to require authentication, or pass --allow-insecure-listener to explicitly allow unauthenticated network access.",
                    );
                    Err(m)
                }
            },
        };
    }
    if config.tls_configured() {
        return Ok(AuthPosture::CleartextRequiresTls);
    }
    match listen_addr_is_loopback(addr, resolved) {
        Err(m) => Err(m),
        Ok(true) => Ok(AuthPosture::CleartextLoopback),
        Ok(false) => {
            let mut m = "--auth on non-loopback bind (".to_owned();
            m.append(addr);
            m.append(
                ") requires TLS. Set --tls-cert and --tls-key, or bind to 127.0.0.1 / [::1] / localhost for dev.",
            );
            Err(m)
        },
    }
}

/// The message that refuses to forward passwords over plain HTTP unasked.
pub open spec fn plaintext_auth_refused() -> Seq<char> {
    "--auth requires either --trino-ssl (HTTPS to Trino) or --trino-allow-plaintext-auth (forward credentials over plain HTTP). Without one, the Trino client will refuse to send the password and every authenticated PG connection will fail."@
}

/// Passwords would be forwarded over plain HTTP, which nobody asked for.
pub open spec fn forwards_unasked(config: Config) -> bool {
    config.auth && !config.trino_ssl && !config.trino_allow_plaintext_auth
}

/// Checks how credentials would reach Trino. The one combination that would
/// only surface as an error on each connection is refused: authentication with
/// Trino over plain HTTP, without the flag that allows it.
pub fn validate_trino_posture(config: &Config) -> (r: Result<(), String>)
    ensures
        message_view(r) == (if forwards_unasked(*config) {
            Err::<(), Seq<char>>(plaintext_auth_refused())
        } else {
            Ok::<(), Seq<char>>(())
        }),
{
    if config.auth && !config.trino_ssl && !config.trino_allow_plaintext_auth {
        return Err(
            "--auth requires either --trino-ssl (HTTPS to Trino) or --trino-allow-plaintext-auth (forward credentials over plain HTTP). Without one, the Trino client will refuse to send the password and every authenticated PG connection will fail.".to_owned(),
        );
    }
    Ok(())
}

/// Settings that are insecure, or that have no effect.
#[derive(Clone, Copy, Debug, PartialEq, Eq, Structural)]
pub enum Warning {
    /// The insecure-listener flag does nothing while authentication is on.
    InsecureListenerIgnored,
    /// Skipping certificate verification does nothing without HTTPS.
    NoVerifyIgnored,
    /// Trino's identity is not verified.
    NoVerify,
    /// The plain-HTTP flag does nothing with HTTPS.
    PlaintextAuthIgnored,
    /// Passwords are forwarded over plain HTTP.
    PlaintextAuth,
    /// The plain-HTTP flag does nothing without authentication.
    PlaintextAuthUnused,
}

/// The warnings that a configuration gives rise to.
pub open spec fn warnings(config: Config) -> Seq<Warning> {
    (if config.auth && config.allow_insecure_listener {
        seq![Warning::InsecureListenerIgnored]
    } else {
        Seq::empty()
    }) + (if !config.trino_tls_no_verify {
        Seq::empty()
    } else if !config.trino_ssl {
        seq![Warning::NoVerifyIgnored]
    } else {
        seq![Warning::NoVerify]
    }) + (if !config.trino_allow_plaintext_auth {
        Seq::empty()
    } else if config.trino_ssl {
        seq![Warning::PlaintextAuthIgnored]
    } else if config.auth {
        seq![Warning::PlaintextAuth]
    } else {
        seq![Warning::PlaintextAuthUnused]
    })
}

/// The warnings that a configuration gives rise to, for the startup log.
pub fn startup_warnings(config: &Config) -> (r: Vec<Warning>)
    ensures
        r@ == warnings(*config),
{
    let mut r: Vec<Warning> = Vec::new();
    if config.auth && config.allow_insecure_listener {
        r.push(Warning::InsecureListenerIgnored);
    }
    if config.trino_tls_no_verify {
        if !config.trino_ssl {
            r.push(Warning::NoVerifyIgnored);
        } else {
            r.push(Warning::NoVerify);
        }
    }
    if config.trino_allow_plaintext_auth {
        if config.trino_ssl {
            r.push(Warning::PlaintextAuthIgnored);
        } else if config.auth {
            r.push(Warning::PlaintextAuth);
        } else {
            r.push(Warning::PlaintextAuthUnused);
        }
    }
    assert(r@ =~= warnings(*config));
    r
}

/// The verdict on a configuration as a whole.
pub open spec fn verdict(config: Config, resolved: Resolution) -> Result<AuthPosture, Seq<char>> {
    match posture(config, resolved) {
        Err(m) => Err(m),
        Ok(p) => if forwards_unasked(config) {
            Err(plaintext_auth_refused())
        } else {
            Ok(p)
        },
    }
}

/// Validates the gateway's security policy. An error keeps the gateway from
/// starting.
pub fn validate(config: &Config, resolved: &Resolution) -> (r: Result<AuthPosture, String>)
    ensures
        message_view(r) == verdict(*config, *resolved),
{
    match classify(config, resolved) {
        Err(m) => Err(m),
        Ok(p) => match validate_trino_posture(config) {
            Err(m) => Err(m),
            Ok(_) => Ok(p),
        },
    }
}

/// A configuration that is accepted neither lets clients in unauthenticated
/// from the network unless the operator asked for it, nor takes passwords in
/// the clear over the network, nor forwards them over plain HTTP unasked.
pub proof fn accepted_is_safe(config: Config, resolved: Resolution)
    requires
        verdict(config, resolved) is Ok,
    ensures
        !config.auth ==> loopback(config.listen_addr@, resolved) == Ok::<bool, Seq<char>>(true)
            || config.allow_insecure_listener,
        config.auth ==> config.has_tls() || loopback(config.listen_addr@, resolved) == Ok::<
            bool,
            Seq<char>,
        >(true),
        config.auth ==> config.trino_ssl || config.trino_allow_plaintext_auth,
{
}

/// The flag for open listeners changes nothing while authentication is on.
pub proof fn insecure_flag_needs_auth_off(config: Config, resolved: Resolution, flag: bool)
    requires
        config.auth,
    ensures
        posture(Config { allow_insecure_listener: flag, ..config }, resolved) == posture(
            config,
            resolved,
        ),
{
}

/// Each posture says whether authentication is on, and what stands in for it or
/// protects it. Only two configurations with a listen address that resolves are
/// refused: open ones without authentication that nobody asked for, and passwords on
/// an open listener without TLS.
pub proof fn postures_go_by_the_flags(config: Config, resolved: Resolution)
    ensures
        ({
            let local = loopback(config.listen_addr@, resolved);
            match posture(config, resolved) {
                Ok(AuthPosture::DisabledLoopback) => !config.auth && local == Ok::<
                    bool,
                    Seq<char>,
                >(true),
                Ok(AuthPosture::DisabledOpenBind) => !config.auth && local == Ok::<
                    bool,
                    Seq<char>,
                >(false) && config.allow_insecure_listener,
                Ok(AuthPosture::CleartextRequiresTls) => config.auth && config.tls_cert is Some
                    && config.tls_key is Some,
                Ok(AuthPosture::CleartextLoopback) => config.auth && !(config.tls_cert is Some
                    && config.tls_key is Some) && local == Ok::<bool, Seq<char>>(true),
                Err(m) => local == Err::<bool, Seq<char>>(m) || (local == Ok::<bool, Seq<char>>(
                    false,
                ) && (!config.auth ==> !config.allow_insecure_listener) && (config.auth ==> !(
                config.tls_cert is Some && config.tls_key is Some))),
            }
        }),
        config.auth && config.tls_cert is Some && config.tls_key is Some ==> posture(
            config,
            resolved,
        ) is Ok,
{
}

/// A listener is loopback where it resolves and each of its addresses is loopback; a
/// single address that is not makes it public.
pub proof fn one_public_address_makes_it_public(addr: Seq<char>, resolved: Resolution)
    ensures
        match loopback(addr, resolved) {
            Ok(b) => resolved matches Ok(list) && list@.len() > 0 && (b <==> !list@.contains(false)),
            Err(m) => resolved is Err || resolved->Ok_0@.len() == 0,
        },
{
    if let Ok(list) = resolved {
        if !all_loopback(list@) {
            let i = choose|i: int| 0 <= i < list@.len() && !(#[trigger] list@[i]);
            assert(list@[i] == false);
        }
    }
}

/// Configurations that are safe are accepted, and no others.
pub proof fn safe_is_accepted(config: Config, resolved: Resolution)
    ensures
        ({
            let local = loopback(config.listen_addr@, resolved);
            verdict(config, resolved) is Ok <==> if config.auth {
                &&& config.trino_ssl || config.trino_allow_plaintext_auth
                &&& config.tls_cert is Some && config.tls_key is Some || local == Ok::<
                    bool,
                    Seq<char>,
                >(true)
            } else {
                local == Ok::<bool, Seq<char>>(true) || local == Ok::<bool, Seq<char>>(false)
                    && config.allow_insecure_listener
            }
        }),
        verdict(config, resolved) is Ok ==> verdict(config, resolved) == posture(config, resolved),
{
}

/// There is a warning for each setting that is insecure or has no effect, one at most
/// for each flag.
#[verifier::rlimit(50)]
pub proof fn warnings_go_by_the_flags(config: Config)
    ensures
        ({
            let list = warnings(config);
            &&& list.contains(Warning::InsecureListenerIgnored) <==> config.auth
                && config.allow_insecure_listener
            &&& list.contains(Warning::NoVerifyIgnored) <==> config.trino_tls_no_verify
                && !config.trino_ssl
            &&& list.contains(Warning::NoVerify) <==> config.trino_tls_no_verify
                && config.trino_ssl
            &&& list.contains(Warning::PlaintextAuthIgnored) <==> config.trino_allow_plaintext_auth
                && config.trino_ssl
            &&& list.contains(Warning::PlaintextAuth) <==> config.trino_allow_plaintext_auth
                && !config.trino_ssl && config.auth
            &&& list.contains(Warning::PlaintextAuthUnused) <==> config.trino_allow_plaintext_auth
                && !config.trino_ssl && !config.auth
            &&& list.no_duplicates()
        }),
{
    let a: Seq<Warning> = if config.auth && config.allow_insecure_listener {
        seq![Warning::InsecureListenerIgnored]
    } else {
        Seq::empty()
    };
    let b: Seq<Warning> = if !config.trino_tls_no_verify {
        Seq::empty()
    } else if !config.trino_ssl {
        seq![Warning::NoVerifyIgnored]
    } else {
        seq![Warning::NoVerify]
    };
    let c: Seq<Warning> = if !config.trino_allow_plaintext_auth {
        Seq::empty()
    } else if config.trino_ssl {
        seq![Warning::PlaintextAuthIgnored]
    } else if config.auth {
        seq![Warning::PlaintextAuth]
    } else {
        seq![Warning::PlaintextAuthUnused]
    };
    let list = warnings(config);
    assert(list == a + b + c);
    if a.len() > 0 {
        assert(list[0] == a[0]);
    }
    if b.len() > 0 {
        assert(list[a.len() as int] == b[0]);
    }
    if c.len() > 0 {
        assert(list[(a + b).len() as int] == c[0]);
    }
}

/// Passwords go to Trino over plain HTTP only where that was asked for.
pub proof fn plain_http_is_asked_for(config: Config)
    ensures
        !forwards_unasked(config) <==> (config.auth ==> config.trino_ssl
            || config.trino_allow_plaintext_auth),
{
}

/// A refusal names the listen address, and an accepted configuration keeps its posture.
#[verifier::rlimit(50)]
pub proof fn refusals_name_the_address(config: Config, resolved: Resolution)
    ensures
        ({
            let addr = config.listen_addr@;
            posture(config, resolved) matches Err(m) ==> exists|i: int|
                0 <= i && i + addr.len() <= m.len() && #[trigger] m.subrange(i, i + addr.len())
                    == addr
        }),
        message_view(Ok::<AuthPosture, String>(AuthPosture::CleartextLoopback)) == Ok::<
            AuthPosture,
            Seq<char>,
        >(AuthPosture::CleartextLoopback),
        forall|m: String| #[trigger]
            message_view(Err::<AuthPosture, String>(m)) == Err::<AuthPosture, Seq<char>>(m@),
{
    let addr = config.listen_addr@;
    let n = addr.len() as int;
    if let Err(m) = posture(config, resolved) {
        let open = "--auth=false on a non-loopback bind ("@;
        let clear = "--auth on non-loopback bind ("@;
        let bad = "invalid --listen-addr: "@;
        let none = "--listen-addr "@;
        let at = |head: Seq<char>| m.subrange(head.len() as int, head.len() + n);
        if m == open_bind_refused(addr) {
            assert(at(open) =~= addr);
        } else if m == cleartext_refused(addr) {
            assert(at(clear) =~= addr);
        } else if resolved is Err {
            assert(at(bad) =~= addr);
        } else {
            assert(at(none) =~= addr);
        }
    }
}

} // verus!
