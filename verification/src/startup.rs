//! Connection startup and authentication.
use std::sync::Arc;

use vstd::prelude::*;

use crate::config::Config;
use crate::session::{CancelEntry, ConnectionState, PortalCache, Registry, SecretKey, register_cancel};
use crate::session;
use crate::text;
use crate::text::eq_ignore_case;
use crate::wire::{ErrorInfo, ErrorView};

verus! {

/// The parameters that the server announces at startup and returns to `SHOW`.
pub open spec fn params() -> Seq<(Seq<char>, Seq<char>)> {
    seq![
        ("server_version"@, "16.6"@),
        ("server_version_num"@, "160006"@),
        ("server_encoding"@, "UTF8"@),
        ("client_encoding"@, "UTF8"@),
        ("DateStyle"@, "ISO, MDY"@),
        ("integer_datetimes"@, "on"@),
        ("standard_conforming_strings"@, "on"@),
        ("TimeZone"@, "UTC"@),
        ("IntervalStyle"@, "postgres"@),
        ("in_hot_standby"@, "off"@),
        ("search_path"@, "\"$user\", public"@),
        ("is_superuser"@, "on"@),
        ("default_transaction_read_only"@, "off"@),
        ("application_name"@, ""@),
        ("max_identifier_length"@, "63"@),
        ("transaction_isolation"@, "read committed"@),
    ]
}

/// One server parameter.
#[derive(Clone, Copy, Debug)]
pub struct ServerParam {
    pub name: &'static str,
    pub value: &'static str,
}

/// A list of parameters, each by its characters.
pub open spec fn param_views(list: Seq<ServerParam>) -> Seq<(Seq<char>, Seq<char>)> {
    Seq::new(list.len(), |i: int| (list[i].name@, list[i].value@))
}

/// One server parameter.
fn param(name: &'static str, value: &'static str) -> (r: ServerParam)
    ensures
        r.name@ == name@,
        r.value@ == value@,
{
    ServerParam { name, value }
}

/// The parameters that the server announces at startup and returns to `SHOW`:
/// a single list, so that the two answers cannot drift apart.
pub fn server_params() -> (r: Vec<ServerParam>)
    ensures
        param_views(r@) == params(),
{
    let r = vec![
        param("server_version", "16.6"),
        param("server_version_num", "160006"),
        param("server_encoding", "UTF8"),
        param("client_encoding", "UTF8"),
        param("DateStyle", "ISO, MDY"),
        param("integer_datetimes", "on"),
        param("standard_conforming_strings", "on"),
        param("TimeZone", "UTC"),
        param("IntervalStyle", "postgres"),
        param("in_hot_standby", "off"),
        param("search_path", "\"$user\", public"),
        param("is_superuser", "on"),
        param("default_transaction_read_only", "off"),
        param("application_name", ""),
        param("max_identifier_length", "63"),
        param("transaction_isolation", "read committed"),
    ];
    assert(param_views(r@) =~= params());
    r
}

/// The value of the first parameter of a list, from position `i` on, that has
/// the given name in any case.
pub open spec fn value_from(
    list: Seq<(Seq<char>, Seq<char>)>,
    name: Seq<char>,
    i: int,
) -> Option<Seq<char>>
    decreases list.len() - i,
{
    if 0 <= i < list.len() {
        if text::same_ignoring_case(list[i].0, name) {
            Some(list[i].1)
        } else {
            value_from(list, name, i + 1)
        }
    } else {
        None
    }
}

/// The value of a parameter; `on` for one that is not announced.
pub open spec fn param_value(name: Seq<char>) -> Seq<char> {
    match value_from(params(), name, 0) {
        Some(v) => v,
        None => "on"@,
    }
}

/// The value of a parameter, whose name may be in any case. `on` is a safe
/// answer for one that is not announced.
pub fn show_value(name: &str) -> (r: &'static str)
    ensures
        r@ == param_value(name@),
{
    let list = server_params();
    let mut i: usize = 0;
    while i < list.len()
        invariant
            i <= list@.len(),
            param_views(list@) == params(),
            value_from(params(), name@, 0) == value_from(params(), name@, i as int),
        decreases list@.len() - i,
    {
        assert(params()[i as int] == (list@[i as int].name@, list@[i as int].value@));
        assert(params().len() == list@.len());
        if eq_ignore_case(list[i].name, name) {
            return list[i].value;
        }
        i += 1;
    }
    assert(params().len() == list@.len());
    "on"
}

/// The parameters that are announced to a client.
#[derive(Debug)]
pub struct GatewayParameterProvider;

impl GatewayParameterProvider {
    /// The parameters that are announced to every client.
    pub fn server_parameters(&self) -> (r: Vec<ServerParam>)
        ensures
            param_views(r@) == params(),
    {
        server_params()
    }
}

/// A letter and a length by which the names of the announced parameters can be
/// told apart in any case.
spec fn name_mark(i: int) -> (int, char) {
    (params()[i].0.len() as int, text::ascii_upper(params()[i].0[0]))
}

/// The marks of the announced parameters.
proof fn name_marks()
    ensures
        forall|i: int| 0 <= i < 16 ==> (#[trigger] params()[i]).0.len() > 0,
        forall|i: int, j: int| 0 <= i < j < 16 ==> name_mark(i) != name_mark(j),
{
    reveal_strlit("server_version");
    reveal_strlit("server_version_num");
    reveal_strlit("server_encoding");
    reveal_strlit("client_encoding");
    reveal_strlit("DateStyle");
    reveal_strlit("integer_datetimes");
    reveal_strlit("standard_conforming_strings");
    reveal_strlit("TimeZone");
    reveal_strlit("IntervalStyle");
    reveal_strlit("in_hot_standby");
    reveal_strlit("search_path");
    reveal_strlit("is_superuser");
    reveal_strlit("default_transaction_read_only");
    reveal_strlit("application_name");
    reveal_strlit("max_identifier_length");
    reveal_strlit("transaction_isolation");
}

/// A search that starts before the only match finds it.
proof fn only_match(i: int, k: int)
    requires
        0 <= k <= i < 16,
    ensures
        value_from(params(), params()[i].0, k) == Some(params()[i].1),
    decreases i - k,
{
    name_marks();
    if k < i {
        let a = params()[k].0;
        let b = params()[i].0;
        assert(name_mark(k) != name_mark(i));
        if text::same_ignoring_case(a, b) {
            assert(text::ascii_uppercase(a).len() == a.len());
            assert(text::ascii_uppercase(b).len() == b.len());
            assert(text::ascii_uppercase(a)[0] == text::ascii_upper(a[0]));
            assert(text::ascii_uppercase(b)[0] == text::ascii_upper(b[0]));
        }
        only_match(i, k + 1);
    }
}

/// `SHOW` of an announced parameter gives the value that was announced.
pub proof fn announced_is_shown(i: int)
    requires
        0 <= i < params().len(),
    ensures
        param_value(params()[i].0) == params()[i].1,
{
    only_match(i, 0);
}

/// What a Trino client is built from.
#[derive(Clone, Debug)]
pub struct ClientSettings {
    pub user: String,
    pub host: String,
    pub port: u16,
    pub catalog: String,
    pub schema: String,
    /// Connect by HTTPS.
    pub secure: bool,
    /// Accept any certificate of Trino's.
    pub unverified: bool,
    /// Send a password over plain HTTP.
    pub plaintext_auth: bool,
}

/// What a Trino client is built from, with the password it forwards.
pub struct SettingsView {
    pub user: Seq<char>,
    pub host: Seq<char>,
    pub port: u16,
    pub catalog: Seq<char>,
    pub schema: Seq<char>,
    pub secure: bool,
    pub unverified: bool,
    pub plaintext_auth: bool,
    pub password: Option<Seq<char>>,
}

impl ClientSettings {
    /// The settings, with a password. Without one there is nothing to send over
    /// plain HTTP.
    pub open spec fn with_password(self, password: Option<Seq<char>>) -> SettingsView {
        SettingsView {
            user: self.user@,
            host: self.host@,
            port: self.port,
            catalog: self.catalog@,
            schema: self.schema@,
            secure: self.secure,
            unverified: self.unverified,
            plaintext_auth: self.plaintext_auth && password is Some,
            password,
        }
    }
}

/// A builder of clients of the Trino client library.
#[verifier::external_type_specification]
#[verifier::external_body]
pub struct ExClientBuilder(trino_rust_client::ClientBuilder);

/// A builder of a Trino client, together with the settings it holds.
///
/// Whether certificates are verified is carried beside the outside builder, on
/// which it is still to be set.
pub struct TrinoClientBuilder {
    builder: trino_rust_client::ClientBuilder,
    unverified: bool,
    settings: Ghost<SettingsView>,
}

impl View for TrinoClientBuilder {
    type V = SettingsView;

    closed spec fn view(&self) -> SettingsView {
        SettingsView { unverified: self.unverified, ..self.settings@ }
    }
}

impl TrinoClientBuilder {
    /// The builder itself.
    pub closed spec fn inner(self) -> trino_rust_client::ClientBuilder {
        self.builder
    }

    /// The builder itself, and whether it is to accept any certificate.
    pub fn into_parts(self) -> (r: (trino_rust_client::ClientBuilder, bool))
        ensures
            r.0 == self.inner(),
            r.1 == self@.unverified,
    {
        (self.builder, self.unverified)
    }
}

/// Starts a client with `trino_rust_client::ClientBuilder::new`, and sets its
/// port, catalog, schema and scheme. A new builder has no credentials, and sends
/// none over plain HTTP.
#[verifier::external_body]
fn plain_builder(settings: &ClientSettings) -> (r: TrinoClientBuilder)
    ensures
        r@ == settings.with_password(None),
{
    let builder = trino_rust_client::ClientBuilder::new(&settings.user, &settings.host)
        .port(settings.port)
        .catalog(&settings.catalog)
        .schema(&settings.schema)
        .secure(settings.secure);
    let unverified = settings.unverified;
    TrinoClientBuilder { builder, unverified, settings: Ghost(settings.with_password(None)) }
}

/// Sets the credentials of a client with `trino_rust_client::ClientBuilder::auth`:
/// a user and a password, which it sends as HTTP Basic authentication. With
/// `auth_http_insecure` it sets whether they may go over plain HTTP.
#[verifier::external_body]
fn set_password(
    builder: TrinoClientBuilder,
    user: &str,
    password: &str,
    plaintext_auth: bool,
) -> (r: TrinoClientBuilder)
    requires
        builder@.user == user@,
    ensures
        r@ == (SettingsView { password: Some(password@), plaintext_auth, ..builder@ }),
{
    let auth = trino_rust_client::auth::Auth::new_basic(user, Some(password));
    let settings = Ghost(SettingsView { password: Some(password@), plaintext_auth, ..builder@ });
    let unverified = builder.unverified;
    let builder = builder.builder.auth(auth).auth_http_insecure(plaintext_auth);
    TrinoClientBuilder { builder, unverified, settings }
}

/// Draws a random number with `rand::random`, of which nothing is stated.
#[verifier::external_body]
fn random_i32() -> (r: i32) {
    rand::random::<i32>()
}

/// The process ids of connections, which count up from 1.
///
/// 0 is left out, since it means "not received" to some clients.
#[derive(Debug)]
pub struct PidCounter {
    pub next: i32,
}

impl PidCounter {
    /// A counter that has given out no process id.
    pub fn new() -> (r: Self)
        ensures
            r.next == pid_at(0),
    {
        PidCounter { next: 1 }
    }
}

/// The process id that follows another.
pub open spec fn pid_after(pid: i32) -> i32 {
    if pid == i32::MAX {
        i32::MIN
    } else {
        (pid + 1) as i32
    }
}

/// The process id of a connection, by the number of connections before it.
pub open spec fn pid_at(n: nat) -> i32
    decreases n,
{
    if n == 0 {
        1
    } else {
        pid_after(pid_at((n - 1) as nat))
    }
}

/// The process ids of the first connections, as many as there are positive
/// numbers to give, count up from 1: none is 0, and no two are equal.
pub proof fn pids_count_up(n: nat)
    requires
        n < i32::MAX,
    ensures
        pid_at(n) == n + 1,
    decreases n,
{
    if n > 0 {
        pids_count_up((n - 1) as nat);
    }
}

/// The process id and the secret of a new connection, by which it can be
/// cancelled: the next id of the counter, and a random number that nobody else
/// can guess.
pub fn new_pid_and_secret_key(pids: &mut PidCounter) -> (r: (i32, SecretKey))
    ensures
        r.0 == old(pids).next,
        r.1 is I32,
        final(pids).next == pid_after(old(pids).next),
{
    let pid: i32 = pids.next;
    pids.next = pid.wrapping_add(1);
    (pid, SecretKey::I32(random_i32()))
}

/// What a client sends while its connection is set up.
#[derive(Clone, Copy, Debug, PartialEq, Eq, Structural)]
pub enum SetupMessage {
    /// The request to start a session.
    Startup,
    /// The answer to the request for a password.
    Password,
    /// Anything else.
    Other,
}

/// What is to be done in answer to a message of the setup.
#[derive(Debug)]
pub enum SetupAction {
    /// Refuse the connection with this error.
    Refuse(ErrorInfo),
    /// Ask the client for its password.
    AskPassword,
    /// Connect to Trino without credentials, and start the session.
    Connect,
    /// Connect to Trino with the password that was sent, and start the session
    /// where Trino accepts it.
    CheckPassword,
    /// Fail: the message is not one of the setup.
    Unexpected(&'static str),
}

/// What is to be done in answer to a message of the setup, its texts as characters.
pub enum SetupView {
    Refuse(ErrorView),
    AskPassword,
    Connect,
    CheckPassword,
    Unexpected(Seq<char>),
}

impl View for SetupAction {
    type V = SetupView;

    open spec fn view(&self) -> SetupView {
        match self {
            SetupAction::Refuse(e) => SetupView::Refuse(e@),
            SetupAction::AskPassword => SetupView::AskPassword,
            SetupAction::Connect => SetupView::Connect,
            SetupAction::CheckPassword => SetupView::CheckPassword,
            SetupAction::Unexpected(m) => SetupView::Unexpected(m@),
        }
    }
}

/// What is to be done in answer to a message of the setup, on a connection that is
/// encrypted or not.
pub open spec fn setup_action(config: Config, message: SetupMessage, secure: bool) -> SetupView {
    match message {
        SetupMessage::Startup => if !config.auth {
            SetupView::Connect
        } else if config.has_tls() && !secure {
            SetupView::Refuse(tls_required_error())
        } else {
            SetupView::AskPassword
        },
        SetupMessage::Password => SetupView::CheckPassword,
        SetupMessage::Other => SetupView::Unexpected(
            "Expected Startup message during connection setup"@,
        ),
    }
}

/// The user of a client: the empty one where it names none.
pub open spec fn client_user(user: Option<Seq<char>>) -> Seq<char> {
    match user {
        Some(u) => u,
        None => ""@,
    }
}

/// The error that refuses a plaintext client.
pub open spec fn tls_required_error() -> ErrorView {
    ErrorView {
        severity: "FATAL"@,
        code: "28000"@,
        message: "TLS is required for password authentication on this server"@,
    }
}

/// Handles the startup of a connection.
///
/// Without authentication every client runs as the configured Trino user. With
/// it a cleartext password is asked for, which is forwarded to Trino.
#[derive(Debug)]
pub struct GatewayStartupHandler {
    pub config: Arc<Config>,
}

impl GatewayStartupHandler {
    /// Whether both halves of the TLS configuration are there. Where clients
    /// authenticate, plaintext ones are refused then.
    pub fn tls_required(&self) -> (r: bool)
        ensures
            r == self.config.has_tls(),
    {
        self.config.tls_configured()
    }

    /// Decides on a message of the setup, on a connection that is encrypted or
    /// not.
    ///
    /// A client that skips the upgrade to TLS is refused before it is asked for
    /// a password.
    pub fn on_startup(&self, message: SetupMessage, secure: bool) -> (r: SetupAction)
        ensures
            r@ == setup_action(*self.config, message, secure),
            match r {
                SetupAction::Refuse(e) => message == SetupMessage::Startup && self.config.auth
                    && self.config.has_tls() && !secure && e@ == tls_required_error(),
                SetupAction::AskPassword => message == SetupMessage::Startup && self.config.auth
                    && (secure || !self.config.has_tls()),
                SetupAction::Connect => message == SetupMessage::Startup && !self.config.auth,
                SetupAction::CheckPassword => message == SetupMessage::Password,
                SetupAction::Unexpected(m) => message == SetupMessage::Other && m@
                    == "Expected Startup message during connection setup"@,
            },
    {
        match message {
            SetupMessage::Startup => {
                if !self.config.auth {
                    SetupAction::Connect
                } else if self.tls_required() && !secure {
                    SetupAction::Refuse(
                        ErrorInfo::new(
                            "FATAL",
                            "28000",
                            "TLS is required for password authentication on this server".to_owned(),
                        ),
                    )
                } else {
                    SetupAction::AskPassword
                }
            },
            SetupMessage::Password => SetupAction::CheckPassword,
            SetupMessage::Other => SetupAction::Unexpected(
                "Expected Startup message during connection setup",
            ),
        }
    }

    /// Decides on a password, once Trino was asked with it: the user that is
    /// connected, or the one whose password is invalid. Any failure of Trino
    /// counts as a refusal. A client that names no user is the empty one.
    pub fn on_password(&self, user: Option<&str>, accepted: bool) -> (r: Result<String, String>)
        ensures
            match r {
                Ok(u) => accepted && u@ == client_user(text::str_view(user)),
                Err(u) => !accepted && u@ == client_user(text::str_view(user)),
            },
    {
        let name = match user {
            Some(u) => u.to_owned(),
            None => "".to_owned(),
        };
        if accepted {
            Ok(name)
        } else {
            Err(name)
        }
    }

    /// The settings of the Trino client for a connection.
    pub open spec fn settings(
        self,
        user: Option<Seq<char>>,
        password: Option<Seq<char>>,
    ) -> SettingsView {
        SettingsView {
            user: match user {
                Some(u) => u,
                None => self.config.trino_user@,
            },
            host: self.config.trino_host@,
            port: self.config.trino_port,
            catalog: self.config.trino_catalog@,
            schema: self.config.trino_schema@,
            secure: self.config.trino_ssl,
            unverified: self.config.trino_tls_no_verify,
            plaintext_auth: self.config.trino_allow_plaintext_auth && password is Some,
            password,
        }
    }

    /// The settings of the Trino client for a connection: it runs as the given
    /// user, or as the configured one.
    pub fn client_settings(&self, user: Option<&str>) -> (r: ClientSettings)
        ensures
            forall|password: Option<Seq<char>>| #[trigger]
                r.with_password(password) == self.settings(text::str_view(user), password),
    {
        ClientSettings {
            user: match user {
                Some(u) => u.to_owned(),
                None => self.config.trino_user.clone(),
            },
            host: self.config.trino_host.clone(),
            port: self.config.trino_port,
            catalog: self.config.trino_catalog.clone(),
            schema: self.config.trino_schema.clone(),
            secure: self.config.trino_ssl,
            unverified: self.config.trino_tls_no_verify,
            plaintext_auth: self.config.trino_allow_plaintext_auth,
        }
    }

    /// Prepares the Trino client for a connection, which forwards the password
    /// of the client where there is one. Plain HTTP is allowed for it only then.
    pub fn build_trino_client(&self, user: Option<&str>, password: Option<&str>) -> (r:
        TrinoClientBuilder)
        ensures
            r@ == self.settings(text::str_view(user), text::str_view(password)),
    {
        let settings = self.client_settings(user);
        let builder = plain_builder(&settings);
        match password {
            Some(p) => {
                assert(settings.with_password(Some(p@)) == self.settings(
                    text::str_view(user),
                    Some(p@),
                ));
                set_password(builder, settings.user.as_str(), p, settings.plaintext_auth)
            },
            None => builder,
        }
    }

    /// Sets up the session of a connection whose Trino client was built: gives
    /// it a process id and a secret, and enters it for cancel requests.
    pub fn establish_session<C, S, R>(
        &self,
        cancels: &mut Registry<CancelEntry<Arc<C>, Arc<S>>>,
        pids: &mut PidCounter,
        trino_client: Arc<C>,
        active_query_id: Arc<S>,
    ) -> (r: ConnectionState<Arc<C>, Arc<S>, R>)
        requires
            old(cancels).wf(),
        ensures
            final(cancels).wf(),
            r.trino_client == trino_client,
            r.config == self.config,
            r.portals.wf(),
            r.portals.count() == 0,
            r.portals@ == Map::<Seq<char>, session::CachedPortalResponse<R>>::empty(),
            r.active_query_id == active_query_id,
            r.cancel_key.0 == old(pids).next,
            r.cancel_key.1 is I32,
            final(pids).next == pid_after(old(pids).next),
            final(cancels)@ == old(cancels)@.insert(
                session::cancel_key(r.cancel_key.0, r.cancel_key.1@),
                (CancelEntry { trino_client, active_query_id }),
            ),
    {
        let (pid, secret_key) = new_pid_and_secret_key(pids);
        register_cancel(
            cancels,
            pid,
            &secret_key,
            CancelEntry {
                trino_client: Arc::clone(&trino_client),
                active_query_id: Arc::clone(&active_query_id),
            },
        );
        ConnectionState {
            trino_client,
            config: Arc::clone(&self.config),
            portals: PortalCache::new(),
            active_query_id,
            cancel_key: (pid, secret_key),
        }
    }
}

/// A search by name gives the same in any letter case.
proof fn case_is_ignored(a: Seq<char>, b: Seq<char>, i: int)
    requires
        text::same_ignoring_case(a, b),
        0 <= i,
    ensures
        value_from(params(), a, i) == value_from(params(), b, i),
    decreases params().len() - i,
{
    if i < params().len() {
        case_is_ignored(a, b, i + 1);
    }
}

/// A search for a name that no parameter has finds nothing.
proof fn unknown_is_not_found(name: Seq<char>, i: int)
    requires
        0 <= i,
        forall|k: int| 0 <= k < 16 ==> !text::same_ignoring_case(#[trigger] params()[k].0, name),
    ensures
        value_from(params(), name, i) is None,
    decreases params().len() - i,
{
    if i < params().len() {
        unknown_is_not_found(name, i + 1);
    }
}

/// `SHOW` gives each parameter its value, whatever the letter case of the name, and
/// `on` for a name that is not announced.
#[verifier::rlimit(50)]
pub proof fn parameters_have_their_values(name: Seq<char>)
    ensures
        text::same_ignoring_case("server_version"@, name) ==> param_value(name) == "16.6"@,
        text::same_ignoring_case("server_version_num"@, name) ==> param_value(name) == "160006"@,
        text::same_ignoring_case("server_encoding"@, name) ==> param_value(name) == "UTF8"@,
        text::same_ignoring_case("client_encoding"@, name) ==> param_value(name) == "UTF8"@,
        text::same_ignoring_case("DateStyle"@, name) ==> param_value(name) == "ISO, MDY"@,
        text::same_ignoring_case("integer_datetimes"@, name) ==> param_value(name) == "on"@,
        text::same_ignoring_case("standard_conforming_strings"@, name) ==> param_value(name) == "on"@,
        text::same_ignoring_case("TimeZone"@, name) ==> param_value(name) == "UTC"@,
        text::same_ignoring_case("IntervalStyle"@, name) ==> param_value(name) == "postgres"@,
        text::same_ignoring_case("in_hot_standby"@, name) ==> param_value(name) == "off"@,
        text::same_ignoring_case("search_path"@, name) ==> param_value(name) == "\"$user\", public"@,
        text::same_ignoring_case("is_superuser"@, name) ==> param_value(name) == "on"@,
        text::same_ignoring_case("default_transaction_read_only"@, name) ==> param_value(name) == "off"@,
        text::same_ignoring_case("application_name"@, name) ==> param_value(name) == ""@,
        text::same_ignoring_case("max_identifier_length"@, name) ==> param_value(name) == "63"@,
        text::same_ignoring_case("transaction_isolation"@, name) ==> param_value(name) == "read committed"@,
        !text::same_ignoring_case("server_version"@, name)
            && !text::same_ignoring_case("server_version_num"@, name)
            && !text::same_ignoring_case("server_encoding"@, name)
            && !text::same_ignoring_case("client_encoding"@, name)
            && !text::same_ignoring_case("DateStyle"@, name)
            && !text::same_ignoring_case("integer_datetimes"@, name)
            && !text::same_ignoring_case("standard_conforming_strings"@, name)
            && !text::same_ignoring_case("TimeZone"@, name)
            && !text::same_ignoring_case("IntervalStyle"@, name)
            && !text::same_ignoring_case("in_hot_standby"@, name)
            && !text::same_ignoring_case("search_path"@, name)
            && !text::same_ignoring_case("is_superuser"@, name)
            && !text::same_ignoring_case("default_transaction_read_only"@, name)
            && !text::same_ignoring_case("application_name"@, name)
            && !text::same_ignoring_case("max_identifier_length"@, name)
            && !text::same_ignoring_case("transaction_isolation"@, name) ==> param_value(name) == "on"@,
{
    if text::same_ignoring_case("server_version"@, name) {
        case_is_ignored("server_version"@, name, 0);
        announced_is_shown(0);
    }
    if text::same_ignoring_case("server_version_num"@, name) {
        case_is_ignored("server_version_num"@, name, 0);
        announced_is_shown(1);
    }
    if text::same_ignoring_case("server_encoding"@, name) {
        case_is_ignored("server_encoding"@, name, 0);
        announced_is_shown(2);
    }
    if text::same_ignoring_case("client_encoding"@, name) {
        case_is_ignored("client_encoding"@, name, 0);
        announced_is_shown(3);
    }
    if text::same_ignoring_case("DateStyle"@, name) {
        case_is_ignored("DateStyle"@, name, 0);
        announced_is_shown(4);
    }
    if text::same_ignoring_case("integer_datetimes"@, name) {
        case_is_ignored("integer_datetimes"@, name, 0);
        announced_is_shown(5);
    }
    if text::same_ignoring_case("standard_conforming_strings"@, name) {
        case_is_ignored("standard_conforming_strings"@, name, 0);
        announced_is_shown(6);
    }
    if text::same_ignoring_case("TimeZone"@, name) {
        case_is_ignored("TimeZone"@, name, 0);
        announced_is_shown(7);
    }
    if text::same_ignoring_case("IntervalStyle"@, name) {
        case_is_ignored("IntervalStyle"@, name, 0);
        announced_is_shown(8);
    }
    if text::same_ignoring_case("in_hot_standby"@, name) {
        case_is_ignored("in_hot_standby"@, name, 0);
        announced_is_shown(9);
    }
    if text::same_ignoring_case("search_path"@, name) {
        case_is_ignored("search_path"@, name, 0);
        announced_is_shown(10);
    }
    if text::same_ignoring_case("is_superuser"@, name) {
        case_is_ignored("is_superuser"@, name, 0);
        announced_is_shown(11);
    }
    if text::same_ignoring_case("default_transaction_read_only"@, name) {
        case_is_ignored("default_transaction_read_only"@, name, 0);
        announced_is_shown(12);
    }
    if text::same_ignoring_case("application_name"@, name) {
        case_is_ignored("application_name"@, name, 0);
        announced_is_shown(13);
    }
    if text::same_ignoring_case("max_identifier_length"@, name) {
        case_is_ignored("max_identifier_length"@, name, 0);
        announced_is_shown(14);
    }
    if text::same_ignoring_case("transaction_isolation"@, name) {
        case_is_ignored("transaction_isolation"@, name, 0);
        announced_is_shown(15);
    }
    if !text::same_ignoring_case("server_version"@, name)
        && !text::same_ignoring_case("server_version_num"@, name)
        && !text::same_ignoring_case("server_encoding"@, name)
        && !text::same_ignoring_case("client_encoding"@, name)
        && !text::same_ignoring_case("DateStyle"@, name)
        && !text::same_ignoring_case("integer_datetimes"@, name)
        && !text::same_ignoring_case("standard_conforming_strings"@, name)
        && !text::same_ignoring_case("TimeZone"@, name)
        && !text::same_ignoring_case("IntervalStyle"@, name)
        && !text::same_ignoring_case("in_hot_standby"@, name)
        && !text::same_ignoring_case("search_path"@, name)
        && !text::same_ignoring_case("is_superuser"@, name)
        && !text::same_ignoring_case("default_transaction_read_only"@, name)
        && !text::same_ignoring_case("application_name"@, name)
        && !text::same_ignoring_case("max_identifier_length"@, name)
        && !text::same_ignoring_case("transaction_isolation"@, name) {
        assert forall|k: int| 0 <= k < 16 implies !text::same_ignoring_case(
            #[trigger] params()[k].0,
            name,
        ) by {}
        unknown_is_not_found(name, 0);
    }
}

/// Process ids count up from 1, and start over from the smallest number after the
/// largest: no two of 2^32 connections in a row have the same.
pub proof fn pids_wrap_around(n: nat)
    ensures
        (pid_at(n) - (n + 1)) % 0x1_0000_0000 == 0,
    decreases n,
{
    if n > 0 {
        pids_wrap_around((n - 1) as nat);
        let before = pid_at((n - 1) as nat);
        if before == i32::MAX {
            assert(pid_at(n) - (n + 1) == before - n - 0x1_0000_0000);
        } else {
            assert(pid_at(n) - (n + 1) == before - n);
        }
    }
}

/// A client of Trino runs as the user that the connection names, or as the configured
/// one; it forwards the password that it is given and no other, over plain HTTP only
/// where there is one and the operator allows it; all else is as configured.
pub proof fn clients_run_as_their_user(
    handler: GatewayStartupHandler,
    user: Option<Seq<char>>,
    password: Option<Seq<char>>,
)
    ensures
        ({
            let s = handler.settings(user, password);
            &&& user matches Some(u) ==> s.user == u
            &&& user is None ==> s.user == handler.config.trino_user@
            &&& s.password == password
            &&& s.plaintext_auth <==> password is Some && handler.config.trino_allow_plaintext_auth
            &&& s.host == handler.config.trino_host@ && s.port == handler.config.trino_port
            &&& s.catalog == handler.config.trino_catalog@ && s.schema
                == handler.config.trino_schema@
            &&& s.secure == handler.config.trino_ssl
            &&& s.unverified == handler.config.trino_tls_no_verify
        }),
        client_user(user) == (match user {
            Some(u) => u,
            None => Seq::empty(),
        }),
{
    reveal_strlit("");
    assert(""@ =~= Seq::<char>::empty());
}

/// No password is asked for on a connection that is not encrypted where TLS is
/// configured: such a client is refused. Without authentication none is asked for at
/// all, and with it nobody is connected without one.
pub proof fn passwords_are_protected(config: Config, secure: bool)
    ensures
        ({
            let reply = setup_action(config, SetupMessage::Startup, secure);
            &&& reply is AskPassword ==> config.auth && (secure || config.tls_cert is None
                || config.tls_key is None)
            &&& reply is Connect <==> !config.auth
            &&& reply is Refuse <==> config.auth && config.tls_cert is Some && config.tls_key is Some
                && !secure
            &&& reply matches SetupView::Refuse(e) ==> e.severity == seq!['F', 'A', 'T', 'A', 'L']
                && e.code == seq!['2', '8', '0', '0', '0']
            &&& reply is Refuse || reply is AskPassword || reply is Connect
        }),
        setup_action(config, SetupMessage::Password, secure) is CheckPassword,
        setup_action(config, SetupMessage::Other, secure) is Unexpected,
{
    reveal_strlit("FATAL");
    reveal_strlit("28000");
    assert("FATAL"@ =~= seq!['F', 'A', 'T', 'A', 'L']);
    assert("28000"@ =~= seq!['2', '8', '0', '0', '0']);
}

} // verus!
