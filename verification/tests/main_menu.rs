use veloren_logic::main_menu::{UTC_MAX_SECS, UTC_MIN_SECS};
use veloren_logic::login::BanInfo;
use veloren_logic::main_menu::{
    attempt_login, get_client_init_msg_error, get_client_msg_error, AliasError, AuthClientError, ClientError,
    ConnectionArgs, InitError, LocalizedText, LoginAttemptOutcome, MsgKey, NetworkDetail, NetworkError,
    NetworkingSettings, ServerInfo,
};

fn text(e: ClientError) -> LocalizedText { get_client_msg_error(e, None, "abc123") }

#[test]
fn client_error_texts() {
    assert!(matches!(text(ClientError::TooManyPlayers), LocalizedText::Msg(MsgKey::ServerFull)));
    assert!(matches!(text(ClientError::Kicked("spam".into())), LocalizedText::MsgWithReason(MsgKey::Kicked, r) if r == "spam"));
    assert!(matches!(text(ClientError::Other("x".into())), LocalizedText::MsgWithDetail(MsgKey::CommonError, d) if d == "x"));
    assert!(matches!(
        text(ClientError::AuthServerUrlInvalid("auth.example".into())),
        LocalizedText::MsgWithDetail(MsgKey::FailedAuthServerUrlInvalid, d) if d == "https://auth.example"
    ));
    assert!(matches!(
        text(ClientError::AuthClientError(AuthClientError::ServerError(500, b"oops \xff".to_vec()))),
        LocalizedText::Raw(s) if s == "oops \u{FFFD}"
    ));
    assert!(matches!(
        text(ClientError::AuthClientError(AuthClientError::JsonError("bad".into()))),
        LocalizedText::MsgWithDetail(MsgKey::FailedSendingRequest, d) if d == "bad"
    ));
}

#[test]
fn ban_texts() {
    let until = text(ClientError::Banned(BanInfo { reason: "r".into(), until: Some(1_700_000_000) }));
    assert!(matches!(until, LocalizedText::BannedUntil { reason, until: 1_700_000_000 } if reason == "r"));
    let forever = text(ClientError::Banned(BanInfo { reason: "r".into(), until: None }));
    assert!(matches!(forever, LocalizedText::MsgWithReason(MsgKey::Banned, r) if r == "r"));
    let out_of_range = text(ClientError::Banned(BanInfo { reason: "r".into(), until: Some(i64::MAX) }));
    assert!(matches!(out_of_range, LocalizedText::MsgWithReason(MsgKey::Banned, _)));
}

#[test]
fn network_texts() {
    let same = ServerInfo { git_hash: "abc123".into(), git_date: "d".into() };
    let other = ServerInfo { git_hash: "fff".into(), git_date: "2024".into() };
    assert!(matches!(
        get_client_msg_error(ClientError::StreamErr("closed".into()), Some(same), "abc123"),
        LocalizedText::Network(NetworkDetail::Text(t)) if t == "closed"
    ));
    assert!(matches!(
        get_client_msg_error(ClientError::NetworkErr(NetworkError::WrongVersion), Some(other), "abc123"),
        LocalizedText::VersionMismatch { server_hash, server_date } if server_hash == "fff" && server_date == "2024"
    ));
    assert!(matches!(
        get_client_msg_error(ClientError::NetworkErr(NetworkError::WrongVersion), None, "abc123"),
        LocalizedText::Network(NetworkDetail::WrongVersion)
    ));
}

#[test]
fn init_error_texts() {
    assert!(matches!(get_client_init_msg_error(InitError::ClientCrashed, "a"), LocalizedText::Msg(MsgKey::ClientCrashed)));
    assert!(matches!(get_client_init_msg_error(InitError::ServerNotFound, "a"), LocalizedText::Msg(MsgKey::ServerNotFound)));
    assert!(matches!(
        get_client_init_msg_error(InitError::ClientError { error: ClientError::ServerTimeout, mismatched_server_info: None }, "a"),
        LocalizedText::Msg(MsgKey::Timeout)
    ));
    assert_eq!(MsgKey::ServerFull.fluent_id(), "main-login-server_full");
    assert_eq!(MsgKey::CommonError.fluent_id(), "common-error");
}

#[test]
fn login_attempts() {
    assert!(matches!(attempt_login(Ok(()), 32, false), LoginAttemptOutcome::Connect));
    assert!(matches!(attempt_login(Ok(()), 32, true), LoginAttemptOutcome::AlreadyConnecting));
    assert!(matches!(
        attempt_login(Err(AliasError::TooLong), 32, false),
        LoginAttemptOutcome::Refused(LocalizedText::UsernameTooLong { max_len: 32 })
    ));
    assert!(matches!(
        attempt_login(Err(AliasError::ForbiddenCharacters), 32, true),
        LoginAttemptOutcome::Refused(LocalizedText::Msg(MsgKey::UsernameBadCharacters))
    ));
}

fn settings() -> NetworkingSettings {
    NetworkingSettings {
        username: String::new(),
        default_server: String::new(),
        servers: vec!["a.net".into()],
        trusted_auth_servers: vec![],
        use_srv: false,
        use_quic: false,
        validate_tls: true,
    }
}

#[test]
fn settings_after_login_attempts() {
    let mut s = settings();
    let args = s.login_attempt("bob".into(), "b.net".into());
    assert!(matches!(args, ConnectionArgs::Tcp { hostname, prefer_ipv6: false } if hostname == "b.net"));
    assert_eq!(s.servers, vec!["a.net".to_string(), "b.net".to_string()]);
    assert_eq!((s.username.as_str(), s.default_server.as_str()), ("bob", "b.net"));
    s.login_attempt("bob".into(), "b.net".into());
    s.login_attempt("bob".into(), "".into());
    assert_eq!(s.servers.len(), 2);
    s.use_quic = true;
    assert!(matches!(s.login_attempt("b".into(), "c".into()), ConnectionArgs::Quic { validate_tls: true, .. }));
    s.use_srv = true;
    assert!(matches!(s.login_attempt("b".into(), "c".into()), ConnectionArgs::Srv { use_quic: true, .. }));
    s.delete_server(0);
    assert_eq!(s.servers, vec!["b.net".to_string(), "c".to_string()]);
    assert!(!s.is_auth_trusted(&"auth.net".to_string()));
    assert!(!s.answer_auth_trust("auth.net".into(), false));
    assert!(s.answer_auth_trust("auth.net".into(), true));
    assert!(s.answer_auth_trust("auth.net".into(), true));
    assert_eq!(s.trusted_auth_servers.len(), 1);
    assert!(s.is_auth_trusted(&"auth.net".to_string()));
}

#[test]
fn chrono_date_range_bounds() {
    let ok = |s: i64| chrono::DateTime::<chrono::Utc>::from_timestamp(s, 0).is_some();
    assert!(ok(UTC_MIN_SECS));
    assert!(!ok(UTC_MIN_SECS - 1));
    assert!(ok(UTC_MAX_SECS));
    assert!(!ok(UTC_MAX_SECS + 1));
    assert!(!ok(i64::MIN));
    assert!(!ok(i64::MAX));
    assert_eq!(UTC_MIN_SECS, chrono::DateTime::<chrono::Utc>::MIN_UTC.timestamp());
    assert_eq!(UTC_MAX_SECS, chrono::DateTime::<chrono::Utc>::MAX_UTC.timestamp());
}

#[test]
fn ban_end_outside_date_range_shows_plain_ban() {
    let ban = |until: i64| ClientError::Banned(BanInfo { reason: "r".into(), until: Some(until) });
    assert!(matches!(text(ban(UTC_MAX_SECS)), LocalizedText::BannedUntil { until, .. } if until == UTC_MAX_SECS));
    assert!(matches!(text(ban(UTC_MAX_SECS + 1)), LocalizedText::MsgWithReason(MsgKey::Banned, r) if r == "r"));
}
