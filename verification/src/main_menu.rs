//! Decisions of the main menu: the text shown for a failed connection, whether
//! a login attempt may start, and the networking settings a login attempt or
//! a server-list action leaves behind.
use vstd::prelude::*;
use vstd::utf8::{valid_utf8, decode_utf8};
use crate::login::BanInfo;
use crate::text::{chars_of, string_of};

verus! {

/// The messages of the menu, by their localization identifier.
#[derive(Clone, Copy, Debug, PartialEq, Eq, Structural)]
pub enum MsgKey {
    InternalError,
    AuthenticationError,
    Kicked,
    ServerFull,
    UntrustedAuthServer,
    Timeout,
    ServerShutDown,
    NotOnWhitelist,
    BannedUntil,
    Banned,
    InvalidCharacter,
    NetworkWrongVersion,
    NetworkError,
    ServerNotFound,
    CommonError,
    FailedSendingRequest,
    InsecureAuthScheme,
    FailedAuthServerUrlInvalid,
    ClientCrashed,
    UsernameBadCharacters,
    UsernameTooLong,
}

/// Text to be localized and shown for a failure.
#[derive(Debug)]
pub enum LocalizedText {
    /// The message alone.
    Msg(MsgKey),
    /// The message, `": "` and the detail.
    MsgWithDetail(MsgKey, String),
    /// The message with its argument `reason`.
    MsgWithReason(MsgKey, String),
    /// The ban message with the reason and the end date (a Unix timestamp, to
    /// be shown in local time).
    BannedUntil { reason: String, until: i64 },
    /// The too-long-name message with the longest allowed length.
    UsernameTooLong { max_len: usize },
    /// A network failure: the network error message, `": "` and the detail.
    Network(NetworkDetail),
    /// The client and server versions differ: the wrong-version message with
    /// the client's version and the server's commit hash and date.
    VersionMismatch { server_hash: String, server_date: String },
    /// A text sent by the server, shown as is.
    Raw(String),
}

/// The detail of a network failure.
#[derive(Debug)]
pub enum NetworkDetail {
    /// The wrong-version message.
    WrongVersion,
    /// The error as text.
    Text(String),
}

/// Version information sent by a server.
#[derive(Debug)]
pub struct ServerInfo {
    pub git_hash: String,
    pub git_date: String,
}

/// Network failures, as far as the messages tell them apart.
#[derive(Debug)]
pub enum NetworkError {
    /// The handshake failed because the protocol versions differ.
    WrongVersion,
    /// Any other network failure, as text.
    Other(String),
}

/// Failures of the authentication client.
#[derive(Debug)]
pub enum AuthClientError {
    RequestError(String),
    ResponseError(String),
    CertificateLoad(String),
    JsonError(String),
    InsecureSchema,
    /// The server answered with an error status and this body.
    ServerError(u16, Vec<u8>),
}

/// Failures of the game client, with their details as text.
#[derive(Debug)]
pub enum ClientError {
    SpecsErr(String),
    AuthErr(String),
    Kicked(String),
    TooManyPlayers,
    AuthServerNotTrusted,
    ServerTimeout,
    ServerShutdown,
    NotOnWhitelist,
    Banned(BanInfo),
    InvalidCharacter,
    NetworkErr(NetworkError),
    ParticipantErr(String),
    StreamErr(String),
    HostnameLookupFailed(String),
    Other(String),
    AuthClientError(AuthClientError),
    AuthServerUrlInvalid(String),
}

/// Failures of client initialization.
#[derive(Debug)]
pub enum InitError {
    ClientError { error: ClientError, mismatched_server_info: Option<ServerInfo> },
    ClientCrashed,
    ServerNotFound,
}

/// The first second that chrono's `DateTime<Utc>` represents: the start of
/// `NaiveDate::MIN` (the timestamp of `DateTime::<Utc>::MIN_UTC`).
pub const UTC_MIN_SECS: i64 = -8334601228800;

/// The last second that chrono's `DateTime<Utc>` represents: the end of
/// `NaiveDate::MAX`, December 31 of the year 262142 (the timestamp of
/// `DateTime::<Utc>::MAX_UTC`).
pub const UTC_MAX_SECS: i64 = 8210266876799;

/// Whether the second `secs` after the Unix epoch is a date that chrono
/// represents.
pub open spec fn utc_timestamp_in_range(secs: i64) -> bool {
    UTC_MIN_SECS <= secs <= UTC_MAX_SECS
}

/// chrono's `DateTime::<Utc>::from_timestamp(secs, 0)`: whether it gives a
/// date.  Its source makes the day `secs.div_euclid(86_400)` after the epoch
/// and accepts it exactly when it lies between `NaiveDate::MIN` and
/// `NaiveDate::MAX`; the time of day is always valid for zero nanoseconds.
#[verifier::external_body]
fn timestamp_in_range(secs: i64) -> (r: bool)
    ensures
        r == utc_timestamp_in_range(secs),
{
    chrono::DateTime::<chrono::Utc>::from_timestamp(secs, 0).is_some()
}

/// The text `String::from_utf8_lossy` makes of `bytes`.
pub uninterp spec fn utf8_lossy(bytes: Seq<u8>) -> Seq<char>;

/// `String::from_utf8_lossy`: the bytes decoded as UTF-8, invalid sequences
/// replaced by U+FFFD.  Valid UTF-8 is decoded unchanged; how invalid input is
/// replaced is left to std.
#[verifier::external_body]
fn from_utf8_lossy(bytes: &Vec<u8>) -> (r: String)
    ensures
        r@ == utf8_lossy(bytes@),
        valid_utf8(bytes@) ==> r@ == decode_utf8(bytes@),
{
    String::from_utf8_lossy(bytes.as_slice()).into_owned()
}

/// The text for a network failure: a version mismatch when the server's
/// commit differs from the client's, else the network error with `detail`.
pub open spec fn net_error_ok(
    detail: NetworkDetail,
    mismatched: Option<ServerInfo>,
    client_git_hash: Seq<char>,
    t: LocalizedText,
) -> bool {
    match mismatched {
        Some(info) => if info.git_hash@ != client_git_hash {
            t == (LocalizedText::VersionMismatch {
                server_hash: info.git_hash,
                server_date: info.git_date,
            })
        } else {
            t == LocalizedText::Network(detail)
        },
        None => t == LocalizedText::Network(detail),
    }
}

fn net_error(
    detail: NetworkDetail,
    mismatched: Option<ServerInfo>,
    client_git_hash: &str,
) -> (t: LocalizedText)
    ensures
        net_error_ok(detail, mismatched, client_git_hash@, t),
{
    match mismatched {
        Some(info) => {
            let h = String::from_str(client_git_hash);
            if info.git_hash != h {
                LocalizedText::VersionMismatch { server_hash: info.git_hash, server_date: info.git_date }
            } else {
                LocalizedText::Network(detail)
            }
        },
        None => LocalizedText::Network(detail),
    }
}

/// `t` is the text for the client failure `error` (see `get_client_msg_error`).
pub open spec fn client_msg_text_ok(
    error: ClientError,
    mismatched_server_info: Option<ServerInfo>,
    client_git_hash: Seq<char>,
    t: LocalizedText,
) -> bool {
        match error {
            ClientError::SpecsErr(e) => t == LocalizedText::MsgWithDetail(MsgKey::InternalError, e),
            ClientError::AuthErr(e) => t == LocalizedText::MsgWithDetail(MsgKey::AuthenticationError, e),
            ClientError::Kicked(reason) => t == LocalizedText::MsgWithReason(MsgKey::Kicked, reason),
            ClientError::TooManyPlayers => t == LocalizedText::Msg(MsgKey::ServerFull),
            ClientError::AuthServerNotTrusted => t == LocalizedText::Msg(MsgKey::UntrustedAuthServer),
            ClientError::ServerTimeout => t == LocalizedText::Msg(MsgKey::Timeout),
            ClientError::ServerShutdown => t == LocalizedText::Msg(MsgKey::ServerShutDown),
            ClientError::NotOnWhitelist => t == LocalizedText::Msg(MsgKey::NotOnWhitelist),
            ClientError::Banned(info) => match info.until {
                Some(until) => if utc_timestamp_in_range(until) {
                    t == (LocalizedText::BannedUntil { reason: info.reason, until })
                } else {
                    t == LocalizedText::MsgWithReason(MsgKey::Banned, info.reason)
                },
                None => t == LocalizedText::MsgWithReason(MsgKey::Banned, info.reason),
            },
            ClientError::InvalidCharacter => t == LocalizedText::Msg(MsgKey::InvalidCharacter),
            ClientError::NetworkErr(NetworkError::WrongVersion) => net_error_ok(
                NetworkDetail::WrongVersion,
                mismatched_server_info,
                client_git_hash,
                t,
            ),
            ClientError::NetworkErr(NetworkError::Other(e)) => net_error_ok(
                NetworkDetail::Text(e),
                mismatched_server_info,
                client_git_hash,
                t,
            ),
            ClientError::ParticipantErr(e) => net_error_ok(
                NetworkDetail::Text(e),
                mismatched_server_info,
                client_git_hash,
                t,
            ),
            ClientError::StreamErr(e) => net_error_ok(
                NetworkDetail::Text(e),
                mismatched_server_info,
                client_git_hash,
                t,
            ),
            ClientError::HostnameLookupFailed(e) => t == LocalizedText::MsgWithDetail(
                MsgKey::ServerNotFound,
                e,
            ),
            ClientError::Other(e) => t == LocalizedText::MsgWithDetail(MsgKey::CommonError, e),
            ClientError::AuthClientError(AuthClientError::RequestError(e)) => t
                == LocalizedText::MsgWithDetail(MsgKey::FailedSendingRequest, e),
            ClientError::AuthClientError(AuthClientError::ResponseError(e)) => t
                == LocalizedText::MsgWithDetail(MsgKey::FailedSendingRequest, e),
            ClientError::AuthClientError(AuthClientError::CertificateLoad(e)) => t
                == LocalizedText::MsgWithDetail(MsgKey::FailedSendingRequest, e),
            ClientError::AuthClientError(AuthClientError::JsonError(e)) => t
                == LocalizedText::MsgWithDetail(MsgKey::FailedSendingRequest, e),
            ClientError::AuthClientError(AuthClientError::InsecureSchema) => t == LocalizedText::Msg(
                MsgKey::InsecureAuthScheme,
            ),
            ClientError::AuthClientError(AuthClientError::ServerError(_, body)) => t matches LocalizedText::Raw(s) && s@ == utf8_lossy(body@),
            ClientError::AuthServerUrlInvalid(e) => t matches LocalizedText::MsgWithDetail(
                k,
                d,
            ) && k == MsgKey::FailedAuthServerUrlInvalid && d@ == "https://"@ + e@,
        }
}

/// The text shown when the client fails with `error`.  `mismatched_server_info`
/// is the version of the server when it is known to differ, and
/// `client_git_hash` the commit the client was built from.
pub fn get_client_msg_error(
    error: ClientError,
    mismatched_server_info: Option<ServerInfo>,
    client_git_hash: &str,
) -> (t: LocalizedText)
    ensures
        client_msg_text_ok(error, mismatched_server_info, client_git_hash@, t),
{
    match error {
        ClientError::SpecsErr(e) => LocalizedText::MsgWithDetail(MsgKey::InternalError, e),
        ClientError::AuthErr(e) => LocalizedText::MsgWithDetail(MsgKey::AuthenticationError, e),
        ClientError::Kicked(reason) => LocalizedText::MsgWithReason(MsgKey::Kicked, reason),
        ClientError::TooManyPlayers => LocalizedText::Msg(MsgKey::ServerFull),
        ClientError::AuthServerNotTrusted => LocalizedText::Msg(MsgKey::UntrustedAuthServer),
        ClientError::ServerTimeout => LocalizedText::Msg(MsgKey::Timeout),
        ClientError::ServerShutdown => LocalizedText::Msg(MsgKey::ServerShutDown),
        ClientError::NotOnWhitelist => LocalizedText::Msg(MsgKey::NotOnWhitelist),
        ClientError::Banned(info) => match info.until {
            Some(until) => if timestamp_in_range(until) {
                LocalizedText::BannedUntil { reason: info.reason, until }
            } else {
                LocalizedText::MsgWithReason(MsgKey::Banned, info.reason)
            },
            None => LocalizedText::MsgWithReason(MsgKey::Banned, info.reason),
        },
        ClientError::InvalidCharacter => LocalizedText::Msg(MsgKey::InvalidCharacter),
        ClientError::NetworkErr(NetworkError::WrongVersion) => net_error(
            NetworkDetail::WrongVersion,
            mismatched_server_info,
            client_git_hash,
        ),
        ClientError::NetworkErr(NetworkError::Other(e)) => net_error(
            NetworkDetail::Text(e),
            mismatched_server_info,
            client_git_hash,
        ),
        ClientError::ParticipantErr(e) => net_error(
            NetworkDetail::Text(e),
            mismatched_server_info,
            client_git_hash,
        ),
        ClientError::StreamErr(e) => net_error(
            NetworkDetail::Text(e),
            mismatched_server_info,
            client_git_hash,
        ),
        ClientError::HostnameLookupFailed(e) => LocalizedText::MsgWithDetail(MsgKey::ServerNotFound, e),
        ClientError::Other(e) => LocalizedText::MsgWithDetail(MsgKey::CommonError, e),
        ClientError::AuthClientError(e) => match e {
            AuthClientError::RequestError(e) => LocalizedText::MsgWithDetail(
                MsgKey::FailedSendingRequest,
                e,
            ),
            AuthClientError::ResponseError(e) => LocalizedText::MsgWithDetail(
                MsgKey::FailedSendingRequest,
                e,
            ),
            AuthClientError::CertificateLoad(e) => LocalizedText::MsgWithDetail(
                MsgKey::FailedSendingRequest,
                e,
            ),
            AuthClientError::JsonError(e) => LocalizedText::MsgWithDetail(
                MsgKey::FailedSendingRequest,
                e,
            ),
            AuthClientError::InsecureSchema => LocalizedText::Msg(MsgKey::InsecureAuthScheme),
            AuthClientError::ServerError(_, body) => LocalizedText::Raw(from_utf8_lossy(&body)),
        },
        ClientError::AuthServerUrlInvalid(e) => {
            let mut d = chars_of("https://");
            proof {
                reveal_strlit("https://");
            }
            let ev = chars_of(e.as_str());
            let ghost start = d@;
            let mut i: usize = 0;
            while i < ev.len()
                invariant
                    i <= ev.len(),
                    d@ == start + ev@.subrange(0, i as int),
                decreases ev.len() - i,
            {
                d.push(ev[i]);
                i = i + 1;
                assert(d@ =~= start + ev@.subrange(0, i as int));
            }
            assert(ev@.subrange(0, ev.len() as int) =~= ev@);
            LocalizedText::MsgWithDetail(MsgKey::FailedAuthServerUrlInvalid, string_of(d.as_slice()))
        },
    }
}

/// The text shown when client initialization fails.
pub fn get_client_init_msg_error(error: InitError, client_git_hash: &str) -> (t: LocalizedText)
    ensures
        match error {
            InitError::ClientError { error: e, mismatched_server_info: m } => client_msg_text_ok(
                e,
                m,
                client_git_hash@,
                t,
            ),
            InitError::ClientCrashed => t == LocalizedText::Msg(MsgKey::ClientCrashed),
            InitError::ServerNotFound => t == LocalizedText::Msg(MsgKey::ServerNotFound),
        },
{
    match error {
        InitError::ClientError { error, mismatched_server_info } => get_client_msg_error(
            error,
            mismatched_server_info,
            client_git_hash,
        ),
        InitError::ClientCrashed => LocalizedText::Msg(MsgKey::ClientCrashed),
        InitError::ServerNotFound => LocalizedText::Msg(MsgKey::ServerNotFound),
    }
}

/// The localization identifier of each message.
pub open spec fn spec_fluent_id(k: MsgKey) -> Seq<char> {
    match k {
            MsgKey::InternalError => "main-login-internal_error"@,
            MsgKey::AuthenticationError => "main-login-authentication_error"@,
            MsgKey::Kicked => "main-login-kicked"@,
            MsgKey::ServerFull => "main-login-server_full"@,
            MsgKey::UntrustedAuthServer => "main-login-untrusted_auth_server"@,
            MsgKey::Timeout => "main-login-timeout"@,
            MsgKey::ServerShutDown => "main-login-server_shut_down"@,
            MsgKey::NotOnWhitelist => "main-login-not_on_whitelist"@,
            MsgKey::BannedUntil => "main-login-banned_until"@,
            MsgKey::Banned => "main-login-banned"@,
            MsgKey::InvalidCharacter => "main-login-invalid_character"@,
            MsgKey::NetworkWrongVersion => "main-login-network_wrong_version"@,
            MsgKey::NetworkError => "main-login-network_error"@,
            MsgKey::ServerNotFound => "main-login-server_not_found"@,
            MsgKey::CommonError => "common-error"@,
            MsgKey::FailedSendingRequest => "main-login-failed_sending_request"@,
            MsgKey::InsecureAuthScheme => "main-login-insecure_auth_scheme"@,
            MsgKey::FailedAuthServerUrlInvalid => "main-login-failed_auth_server_url_invalid"@,
            MsgKey::ClientCrashed => "main-login-client_crashed"@,
            MsgKey::UsernameBadCharacters => "main-login-username_bad_characters"@,
            MsgKey::UsernameTooLong => "main-login-username_too_long"@,
    }
}

impl MsgKey {
    /// The localization identifier of the message.
    pub fn fluent_id(self) -> (r: &'static str)
        ensures
            r@ == spec_fluent_id(self),
    {
        match self {
            MsgKey::InternalError => "main-login-internal_error",
            MsgKey::AuthenticationError => "main-login-authentication_error",
            MsgKey::Kicked => "main-login-kicked",
            MsgKey::ServerFull => "main-login-server_full",
            MsgKey::UntrustedAuthServer => "main-login-untrusted_auth_server",
            MsgKey::Timeout => "main-login-timeout",
            MsgKey::ServerShutDown => "main-login-server_shut_down",
            MsgKey::NotOnWhitelist => "main-login-not_on_whitelist",
            MsgKey::BannedUntil => "main-login-banned_until",
            MsgKey::Banned => "main-login-banned",
            MsgKey::InvalidCharacter => "main-login-invalid_character",
            MsgKey::NetworkWrongVersion => "main-login-network_wrong_version",
            MsgKey::NetworkError => "main-login-network_error",
            MsgKey::ServerNotFound => "main-login-server_not_found",
            MsgKey::CommonError => "common-error",
            MsgKey::FailedSendingRequest => "main-login-failed_sending_request",
            MsgKey::InsecureAuthScheme => "main-login-insecure_auth_scheme",
            MsgKey::FailedAuthServerUrlInvalid => "main-login-failed_auth_server_url_invalid",
            MsgKey::ClientCrashed => "main-login-client_crashed",
            MsgKey::UsernameBadCharacters => "main-login-username_bad_characters",
            MsgKey::UsernameTooLong => "main-login-username_too_long",
        }
    }
}

/// Why a player name is refused.
#[derive(Clone, Copy, Debug, PartialEq, Eq, Structural)]
pub enum AliasError {
    ForbiddenCharacters,
    TooLong,
}

/// What a login attempt leads to.
#[derive(Debug)]
pub enum LoginAttemptOutcome {
    /// The name is refused; the text is shown instead.
    Refused(LocalizedText),
    /// A connection is to be started.
    Connect,
    /// A connection is already in progress; nothing happens.
    AlreadyConnecting,
}

/// Decides a login attempt from the check of the player name (`alias_check`,
/// with `max_alias_len` the longest name allowed) and whether a connection is
/// already in progress.
pub fn attempt_login(
    alias_check: Result<(), AliasError>,
    max_alias_len: usize,
    connecting: bool,
) -> (r: LoginAttemptOutcome)
    ensures
        match alias_check {
            Err(AliasError::ForbiddenCharacters) => r == LoginAttemptOutcome::Refused(
                LocalizedText::Msg(MsgKey::UsernameBadCharacters),
            ),
            Err(AliasError::TooLong) => r == LoginAttemptOutcome::Refused(
                LocalizedText::UsernameTooLong { max_len: max_alias_len },
            ),
            Ok(()) => if connecting {
                r is AlreadyConnecting
            } else {
                r is Connect
            },
        },
{
    match alias_check {
        Err(AliasError::ForbiddenCharacters) => LoginAttemptOutcome::Refused(
            LocalizedText::Msg(MsgKey::UsernameBadCharacters),
        ),
        Err(AliasError::TooLong) => LoginAttemptOutcome::Refused(
            LocalizedText::UsernameTooLong { max_len: max_alias_len },
        ),
        Ok(()) => if connecting {
            LoginAttemptOutcome::AlreadyConnecting
        } else {
            LoginAttemptOutcome::Connect
        },
    }
}

/// How to reach a server.
#[derive(Debug)]
pub enum ConnectionArgs {
    /// Look the server up by SRV record, then connect by QUIC or TCP.
    Srv { hostname: String, prefer_ipv6: bool, validate_tls: bool, use_quic: bool },
    Quic { hostname: String, prefer_ipv6: bool, validate_tls: bool },
    Tcp { hostname: String, prefer_ipv6: bool },
}

/// The networking settings the menu reads and changes.
#[derive(Debug)]
pub struct NetworkingSettings {
    pub username: String,
    pub default_server: String,
    /// The server list.
    pub servers: Vec<String>,
    /// Authentication servers the player trusts.
    pub trusted_auth_servers: Vec<String>,
    pub use_srv: bool,
    pub use_quic: bool,
    pub validate_tls: bool,
}

/// `s` is one of the strings of `list`.
pub open spec fn listed(list: Seq<String>, s: Seq<char>) -> bool {
    exists|i: int| 0 <= i < list.len() && (#[trigger] list[i])@ == s
}

/// No two strings of `list` are equal: the list is used as a set.
pub open spec fn distinct_strings(list: Seq<String>) -> bool {
    forall|i: int, j: int|
        0 <= i < list.len() && 0 <= j < list.len() && i != j ==> (#[trigger] list[i])@ != (
        #[trigger] list[j])@
}

/// The server list after a login attempt to `addr`: a non-empty address not
/// yet listed is appended.
pub open spec fn servers_after(list: Seq<String>, addr: String) -> Seq<String> {
    if addr@.len() > 0 && !listed(list, addr@) {
        list.push(addr)
    } else {
        list
    }
}

fn list_contains(list: &Vec<String>, s: &String) -> (r: bool)
    ensures
        r == listed(list@, s@),
{
    let mut i: usize = 0;
    while i < list.len()
        invariant
            i <= list.len(),
            forall|j: int| 0 <= j < i ==> (#[trigger] list@[j])@ != s@,
        decreases list.len() - i,
    {
        if list[i] == *s {
            return true;
        }
        i = i + 1;
    }
    false
}

impl NetworkingSettings {
    /// A login attempt: remembers the name and the server, adds a non-empty
    /// server address to the list unless it is there, and gives the connection
    /// to open: by SRV lookup if enabled, else by QUIC if enabled, else by TCP.
    pub fn login_attempt(&mut self, username: String, server_address: String) -> (r: ConnectionArgs)
        ensures
            final(self).username == username,
            final(self).default_server == server_address,
            final(self).trusted_auth_servers == old(self).trusted_auth_servers,
            final(self).use_srv == old(self).use_srv,
            final(self).use_quic == old(self).use_quic,
            final(self).validate_tls == old(self).validate_tls,
            final(self).servers@ == servers_after(old(self).servers@, server_address),
            r == if old(self).use_srv {
                ConnectionArgs::Srv {
                    hostname: server_address,
                    prefer_ipv6: false,
                    validate_tls: old(self).validate_tls,
                    use_quic: old(self).use_quic,
                }
            } else if old(self).use_quic {
                ConnectionArgs::Quic {
                    hostname: server_address,
                    prefer_ipv6: false,
                    validate_tls: old(self).validate_tls,
                }
            } else {
                ConnectionArgs::Tcp { hostname: server_address, prefer_ipv6: false }
            },
    {
        self.username = username;
        self.default_server = server_address.clone();
        let empty = server_address.as_str().is_empty();
        if !empty && !list_contains(&self.servers, &server_address) {
            self.servers.push(server_address.clone());
        }
        if self.use_srv {
            ConnectionArgs::Srv {
                hostname: server_address,
                prefer_ipv6: false,
                validate_tls: self.validate_tls,
                use_quic: self.use_quic,
            }
        } else if self.use_quic {
            ConnectionArgs::Quic {
                hostname: server_address,
                prefer_ipv6: false,
                validate_tls: self.validate_tls,
            }
        } else {
            ConnectionArgs::Tcp { hostname: server_address, prefer_ipv6: false }
        }
    }

    /// Removes entry `server_index` from the server list.
    pub fn delete_server(&mut self, server_index: usize)
        requires
            server_index < old(self).servers@.len(),
        ensures
            final(self).servers@ == old(self).servers@.remove(server_index as int),
            final(self).username == old(self).username,
            final(self).default_server == old(self).default_server,
            final(self).trusted_auth_servers == old(self).trusted_auth_servers,
    {
        self.servers.remove(server_index);
    }

    /// Whether the player trusts the authentication server `auth_server`.
    pub fn is_auth_trusted(&self, auth_server: &String) -> (r: bool)
        ensures
            r == listed(self.trusted_auth_servers@, auth_server@),
    {
        list_contains(&self.trusted_auth_servers, auth_server)
    }

    /// Records the player's answer about trusting `auth_server`: when trusted,
    /// it is added to the trusted servers (once).  Returns whether it was
    /// trusted.
    pub fn answer_auth_trust(&mut self, auth_server: String, trust: bool) -> (r: bool)
        ensures
            r == trust,
            final(self).servers == old(self).servers,
            final(self).username == old(self).username,
            final(self).default_server == old(self).default_server,
            final(self).trusted_auth_servers@ == if trust && !listed(
                old(self).trusted_auth_servers@,
                auth_server@,
            ) {
                old(self).trusted_auth_servers@.push(auth_server)
            } else {
                old(self).trusted_auth_servers@
            },
            distinct_strings(old(self).trusted_auth_servers@) ==> distinct_strings(
                final(self).trusted_auth_servers@,
            ),
    {
        if trust && !list_contains(&self.trusted_auth_servers, &auth_server) {
            self.trusted_auth_servers.push(auth_server);
        }
        trust
    }
}

/// How far connecting to a server has come.
#[derive(Clone, Copy, Debug, PartialEq, Eq, Structural)]
pub enum InitPhase {
    /// Not connecting.
    Idle,
    /// The client is being initialized.
    Connecting,
    /// The client is connected; render pipelines are being created.
    Pipeline,
}

/// What happens to the main menu in a frame, one thing at a time.
#[derive(Debug)]
pub enum MenuEvent {
    /// The window asks to close (and the menu's own widgets did not take it).
    Close,
    /// The player chose to quit.
    Quit,
    /// The player tries to log in to `server_address` as `username`;
    /// `alias_check` is the check of the name, `max_alias_len` the longest name
    /// allowed.
    LoginAttempt {
        username: String,
        server_address: String,
        alias_check: Result<(), AliasError>,
        max_alias_len: usize,
    },
    /// The player cancels the login attempt.
    CancelLoginAttempt,
    /// The player deletes entry `server_index` of the server list.
    DeleteServer { server_index: usize },
    /// The player answers whether to trust an authentication server.
    AuthServerTrust(String, bool),
    /// Client initialization succeeded.
    ClientReady,
    /// Client initialization failed.
    ClientFailed(InitError),
    /// The connecting client asks whether an authentication server is trusted.
    IsAuthTrusted(String),
    /// While pipelines are created, the server closed the connection.
    ServerDisconnected,
    /// While pipelines are created, ticking the client failed.
    ClientTickFailed(ClientError),
    /// The render pipelines are ready; what the player may do on this server.
    PipelinesReady { can_spectate: bool, can_enter_character: bool },
}

/// What the main menu does in answer.
#[derive(Debug)]
pub enum MenuAction {
    /// Nothing beyond the new phase.
    Continue,
    /// Leave the game.
    Shutdown,
    /// Start connecting with these arguments.
    Connect(ConnectionArgs),
    /// Show this text in the info box.
    ShowInfo(LocalizedText),
    /// Show that client initialization failed, for this reason.
    ShowInitFailure(LocalizedText),
    /// Tell the connecting client whether the authentication server is trusted.
    AnswerAuthTrust(String, bool),
    /// Ask the player whether to trust the authentication server.
    PromptAuthTrust(String),
    /// Go to spectating at once.
    Spectate,
    /// Go to character selection.
    SelectCharacter,
}

/// `t` is the text for the initialization failure `error`.
pub open spec fn init_text_ok(error: InitError, client_git_hash: Seq<char>, t: LocalizedText) -> bool {
    match error {
        InitError::ClientError { error: e, mismatched_server_info: m } => client_msg_text_ok(
            e,
            m,
            client_git_hash,
            t,
        ),
        InitError::ClientCrashed => t == LocalizedText::Msg(MsgKey::ClientCrashed),
        InitError::ServerNotFound => t == LocalizedText::Msg(MsgKey::ServerNotFound),
    }
}

/// The main menu's answer to `event` in `phase`: the next phase and the action.
/// Closing or quitting leaves the game.  A login attempt is recorded in the
/// settings, then refused for a bad name, ignored while a connection is in
/// progress, or starts connecting.  Cancelling stops connecting.  The outcome
/// of client initialization only matters while connecting, and the outcome of
/// ticking the client and of pipeline creation only while pipelines are
/// created: a failure goes back to idle with a message, a finished pipeline
/// goes to spectating (for a client that may only spectate) or to character
/// selection.  A trusted authentication server is confirmed to the client at
/// once; an unknown one is put to the player, whose answer is recorded (when
/// trusted) and passed to a connecting client.
pub fn menu_step(
    settings: &mut NetworkingSettings,
    phase: InitPhase,
    event: MenuEvent,
    client_git_hash: &str,
) -> (r: (InitPhase, MenuAction))
    requires
        event matches MenuEvent::DeleteServer { server_index } ==> server_index
            < old(settings).servers@.len(),
    ensures
        match event {
            MenuEvent::Close => r.0 == phase && r.1 is Shutdown && *final(settings) == *old(settings),
            MenuEvent::Quit => r.0 == phase && r.1 is Shutdown && *final(settings) == *old(settings),
            MenuEvent::LoginAttempt { username, server_address, alias_check, max_alias_len } => {
                &&& final(settings).username == username
                &&& final(settings).default_server == server_address
                &&& final(settings).servers@ == servers_after(old(settings).servers@, server_address)
                &&& final(settings).trusted_auth_servers == old(settings).trusted_auth_servers
                &&& final(settings).use_srv == old(settings).use_srv
                &&& final(settings).use_quic == old(settings).use_quic
                &&& final(settings).validate_tls == old(settings).validate_tls
                &&& match alias_check {
                    Err(AliasError::ForbiddenCharacters) => r.0 == phase && r.1 == MenuAction::ShowInfo(
                        LocalizedText::Msg(MsgKey::UsernameBadCharacters),
                    ),
                    Err(AliasError::TooLong) => r.0 == phase && r.1 == MenuAction::ShowInfo(
                        LocalizedText::UsernameTooLong { max_len: max_alias_len },
                    ),
                    Ok(()) => if phase == InitPhase::Idle {
                        r.0 == InitPhase::Connecting && r.1 == MenuAction::Connect(
                            if old(settings).use_srv {
                                ConnectionArgs::Srv {
                                    hostname: server_address,
                                    prefer_ipv6: false,
                                    validate_tls: old(settings).validate_tls,
                                    use_quic: old(settings).use_quic,
                                }
                            } else if old(settings).use_quic {
                                ConnectionArgs::Quic {
                                    hostname: server_address,
                                    prefer_ipv6: false,
                                    validate_tls: old(settings).validate_tls,
                                }
                            } else {
                                ConnectionArgs::Tcp { hostname: server_address, prefer_ipv6: false }
                            },
                        )
                    } else {
                        r.0 == phase && r.1 is Continue
                    },
                }
            },
            MenuEvent::CancelLoginAttempt => r.0 == InitPhase::Idle && r.1 is Continue
                && *final(settings) == *old(settings),
            MenuEvent::DeleteServer { server_index } => {
                &&& r.0 == phase && r.1 is Continue
                &&& final(settings).servers@ == old(settings).servers@.remove(server_index as int)
                &&& final(settings).username == old(settings).username
                &&& final(settings).default_server == old(settings).default_server
                &&& final(settings).trusted_auth_servers == old(settings).trusted_auth_servers
            },
            MenuEvent::AuthServerTrust(server, trust) => {
                &&& r.0 == phase
                &&& final(settings).servers == old(settings).servers
                &&& final(settings).username == old(settings).username
                &&& final(settings).default_server == old(settings).default_server
                &&& final(settings).trusted_auth_servers@ == if trust && !listed(
                    old(settings).trusted_auth_servers@,
                    server@,
                ) {
                    old(settings).trusted_auth_servers@.push(server)
                } else {
                    old(settings).trusted_auth_servers@
                }
                &&& if phase == InitPhase::Connecting {
                    r.1 == MenuAction::AnswerAuthTrust(server, trust)
                } else {
                    r.1 is Continue
                }
            },
            MenuEvent::ClientReady => *final(settings) == *old(settings) && r.1 is Continue && r.0
                == if phase == InitPhase::Connecting {
                InitPhase::Pipeline
            } else {
                phase
            },
            MenuEvent::ClientFailed(e) => *final(settings) == *old(settings) && if phase
                == InitPhase::Connecting {
                r.0 == InitPhase::Idle && (r.1 matches MenuAction::ShowInitFailure(t) && init_text_ok(
                    e,
                    client_git_hash@,
                    t,
                ))
            } else {
                r.0 == phase && r.1 is Continue
            },
            MenuEvent::IsAuthTrusted(server) => *final(settings) == *old(settings) && r.0 == phase
                && if phase == InitPhase::Connecting {
                if listed(old(settings).trusted_auth_servers@, server@) {
                    r.1 == MenuAction::AnswerAuthTrust(server, true)
                } else {
                    r.1 == MenuAction::PromptAuthTrust(server)
                }
            } else {
                r.1 is Continue
            },
            MenuEvent::ServerDisconnected => *final(settings) == *old(settings) && if phase
                == InitPhase::Pipeline {
                r.0 == InitPhase::Idle && r.1 == MenuAction::ShowInfo(
                    LocalizedText::Msg(MsgKey::ServerShutDown),
                )
            } else {
                r.0 == phase && r.1 is Continue
            },
            MenuEvent::ClientTickFailed(e) => *final(settings) == *old(settings) && if phase
                == InitPhase::Pipeline {
                r.0 == InitPhase::Idle && (r.1 matches MenuAction::ShowInfo(t) && client_msg_text_ok(
                    e,
                    None,
                    client_git_hash@,
                    t,
                ))
            } else {
                r.0 == phase && r.1 is Continue
            },
            MenuEvent::PipelinesReady { can_spectate, can_enter_character } => *final(settings)
                == *old(settings) && if phase == InitPhase::Pipeline {
                r.0 == InitPhase::Idle && if can_spectate && !can_enter_character {
                    r.1 is Spectate
                } else {
                    r.1 is SelectCharacter
                }
            } else {
                r.0 == phase && r.1 is Continue
            },
        },
{
    match event {
        MenuEvent::Close => (phase, MenuAction::Shutdown),
        MenuEvent::Quit => (phase, MenuAction::Shutdown),
        MenuEvent::LoginAttempt { username, server_address, alias_check, max_alias_len } => {
            let args = settings.login_attempt(username, server_address);
            let connecting = match phase {
                InitPhase::Idle => false,
                _ => true,
            };
            match attempt_login(alias_check, max_alias_len, connecting) {
                LoginAttemptOutcome::Refused(text) => (phase, MenuAction::ShowInfo(text)),
                LoginAttemptOutcome::Connect => (InitPhase::Connecting, MenuAction::Connect(args)),
                LoginAttemptOutcome::AlreadyConnecting => (phase, MenuAction::Continue),
            }
        },
        MenuEvent::CancelLoginAttempt => (InitPhase::Idle, MenuAction::Continue),
        MenuEvent::DeleteServer { server_index } => {
            settings.delete_server(server_index);
            (phase, MenuAction::Continue)
        },
        MenuEvent::AuthServerTrust(server, trust) => {
            let answer = server.clone();
            settings.answer_auth_trust(server, trust);
            match phase {
                InitPhase::Connecting => (phase, MenuAction::AnswerAuthTrust(answer, trust)),
                _ => (phase, MenuAction::Continue),
            }
        },
        MenuEvent::ClientReady => match phase {
            InitPhase::Connecting => (InitPhase::Pipeline, MenuAction::Continue),
            _ => (phase, MenuAction::Continue),
        },
        MenuEvent::ClientFailed(e) => match phase {
            InitPhase::Connecting => (
                InitPhase::Idle,
                MenuAction::ShowInitFailure(get_client_init_msg_error(e, client_git_hash)),
            ),
            _ => (phase, MenuAction::Continue),
        },
        MenuEvent::IsAuthTrusted(server) => match phase {
            InitPhase::Connecting => if settings.is_auth_trusted(&server) {
                (phase, MenuAction::AnswerAuthTrust(server, true))
            } else {
                (phase, MenuAction::PromptAuthTrust(server))
            },
            _ => (phase, MenuAction::Continue),
        },
        MenuEvent::ServerDisconnected => match phase {
            InitPhase::Pipeline => (
                InitPhase::Idle,
                MenuAction::ShowInfo(LocalizedText::Msg(MsgKey::ServerShutDown)),
            ),
            _ => (phase, MenuAction::Continue),
        },
        MenuEvent::ClientTickFailed(e) => match phase {
            InitPhase::Pipeline => (
                InitPhase::Idle,
                MenuAction::ShowInfo(get_client_msg_error(e, None, client_git_hash)),
            ),
            _ => (phase, MenuAction::Continue),
        },
        MenuEvent::PipelinesReady { can_spectate, can_enter_character } => match phase {
            InitPhase::Pipeline => if can_spectate && !can_enter_character {
                (InitPhase::Idle, MenuAction::Spectate)
            } else {
                (InitPhase::Idle, MenuAction::SelectCharacter)
            },
            _ => (phase, MenuAction::Continue),
        },
    }
}

} // verus!
