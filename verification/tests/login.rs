use veloren_logic::login::{
    ban_applies, derive_singleplayer_uuid, derive_uuid, split_scheme, AdminList, AdminRole, AuthLookup,
    Ban, BanAction, BanTable, Banlist, LoginProvider, LoginStep, PendingPoll, RegisterError, Timestamp,
    Whitelist,
};

#[test]
fn offline_uuids() {
    assert_eq!(derive_uuid(""), 144066263297769815596495629667062367629);
    assert_eq!(derive_uuid("Alice"), 267601034354974788802091033528360230031);
    assert_eq!(derive_uuid("ä"), 11301434663472386723201331594430715306);
    assert_eq!(derive_singleplayer_uuid(), 228011997942537598040306157767155958012);
    assert_ne!(derive_uuid("alice"), derive_uuid("Alice"));
}

fn ban(end: Option<i64>, role: AdminRole, upgrade: bool) -> Ban {
    Ban {
        reason: "griefing".to_string(),
        upgrade_to_ip: upgrade,
        end_date: end.map(|secs| Timestamp { secs, nanos: 0 }),
        performed_by_role: role,
    }
}

fn at(secs: i64) -> Timestamp { Timestamp { secs, nanos: 0 } }

#[test]
fn ban_rules() {
    let permanent = ban(None, AdminRole::Admin, false);
    assert!(ban_applies(&permanent, None, at(0)));
    assert!(ban_applies(&permanent, Some(AdminRole::Moderator), at(0)));
    assert!(!ban_applies(&permanent, Some(AdminRole::Admin), at(0)));
    let by_mod = ban(None, AdminRole::Moderator, false);
    assert!(!ban_applies(&by_mod, Some(AdminRole::Moderator), at(0)));
    let until_100 = ban(Some(100), AdminRole::Moderator, false);
    assert!(ban_applies(&until_100, None, at(99)));
    assert!(ban_applies(&until_100, None, Timestamp { secs: 99, nanos: 999_999_999 }));
    assert!(!ban_applies(&until_100, None, at(100)));
    assert!(!ban_applies(&until_100, None, at(101)));
    let info = until_100.info();
    assert_eq!(info.reason, "griefing");
    assert_eq!(info.until, Some(100));
}

fn empty_banlist() -> Banlist { Banlist { uuid_bans: BanTable::new(), ip_bans: BanTable::new() } }

fn received(name: &str, uuid: u128) -> PendingPoll { PendingPoll::Received(Ok((name.to_string(), uuid))) }

#[test]
fn login_waiting_and_failures() {
    let admins = AdminList::new();
    let wl = Whitelist::new();
    let bl = empty_banlist();
    assert!(matches!(LoginProvider::login(PendingPoll::Empty, None, &admins, &wl, &bl, at(0)), LoginStep::Waiting));
    match LoginProvider::login(PendingPoll::Closed, None, &admins, &wl, &bl, at(0)) {
        LoginStep::Refused { error: RegisterError::AuthError(m), ip_ban_upgrade: None } => {
            assert_eq!(m, "Internal Error verifying")
        },
        other => panic!("{:?}", other),
    }
    match LoginProvider::login(PendingPoll::Received(Err(RegisterError::NotOnWhitelist)), None, &admins, &wl, &bl, at(0)) {
        LoginStep::Refused { error: RegisterError::NotOnWhitelist, ip_ban_upgrade: None } => {},
        other => panic!("{:?}", other),
    }
}

#[test]
fn login_bans_uuid_then_ip() {
    let admins = AdminList::new();
    let wl = Whitelist::new();
    let mut bl = empty_banlist();
    bl.uuid_bans.insert(1, BanAction::Unban);
    bl.ip_bans.insert(77, BanAction::Ban(ban(None, AdminRole::Admin, true)));
    match LoginProvider::login(received("bob", 1), Some(77), &admins, &wl, &bl, at(0)) {
        LoginStep::Refused { error: RegisterError::Banned(info), ip_ban_upgrade } => {
            assert_eq!(info.reason, "griefing");
            assert_eq!(ip_ban_upgrade, Some((77, 1, "bob".to_string())));
        },
        other => panic!("{:?}", other),
    }
    // Without an address the address ban is not consulted.
    assert!(matches!(
        LoginProvider::login(received("bob", 1), None, &admins, &wl, &bl, at(0)),
        LoginStep::CheckPlayerCount { is_admin: false, uuid: 1, .. }
    ));
    let mut bl2 = empty_banlist();
    let mut b = ban(Some(50), AdminRole::Moderator, true);
    b.reason = "first".into();
    bl2.uuid_bans.insert(1, BanAction::Ban(b));
    bl2.ip_bans.insert(77, BanAction::Ban(ban(None, AdminRole::Moderator, false)));
    match LoginProvider::login(received("bob", 1), Some(77), &admins, &wl, &bl2, at(0)) {
        LoginStep::Refused { error: RegisterError::Banned(info), ip_ban_upgrade } => {
            assert_eq!(info.reason, "first");
            assert_eq!(info.until, Some(50));
            assert_eq!(ip_ban_upgrade, Some((77, 1, "bob".to_string())));
        },
        other => panic!("{:?}", other),
    }
    // After the UUID ban expired, the address ban (without upgrade) refuses.
    match LoginProvider::login(received("bob", 1), Some(77), &admins, &wl, &bl2, at(60)) {
        LoginStep::Refused { error: RegisterError::Banned(info), ip_ban_upgrade: None } => {
            assert_eq!(info.reason, "griefing");
        },
        other => panic!("{:?}", other),
    }
}

#[test]
fn login_admins_and_whitelist() {
    let mut admins = AdminList::new();
    admins.insert(5, AdminRole::Admin);
    admins.insert(6, AdminRole::Moderator);
    let mut wl = Whitelist::new();
    wl.insert(2);
    let mut bl = empty_banlist();
    bl.uuid_bans.insert(5, BanAction::Ban(ban(None, AdminRole::Admin, false)));
    bl.uuid_bans.insert(6, BanAction::Ban(ban(None, AdminRole::Admin, false)));
    assert!(matches!(
        LoginProvider::login(received("root", 5), None, &admins, &wl, &bl, at(0)),
        LoginStep::CheckPlayerCount { is_admin: true, .. }
    ));
    // A moderator banned by an admin stays out.
    assert!(matches!(
        LoginProvider::login(received("mod", 6), None, &admins, &wl, &bl, at(0)),
        LoginStep::Refused { error: RegisterError::Banned(_), .. }
    ));
    assert!(matches!(
        LoginProvider::login(received("eve", 3), None, &admins, &wl, &bl, at(0)),
        LoginStep::Refused { error: RegisterError::NotOnWhitelist, ip_ban_upgrade: None }
    ));
    match LoginProvider::login(received("ann", 2), None, &admins, &wl, &bl, at(0)) {
        LoginStep::CheckPlayerCount { username, uuid, is_admin } => {
            assert_eq!((username.as_str(), uuid, is_admin), ("ann", 2, false))
        },
        other => panic!("{:?}", other),
    }
}

#[test]
fn player_limit() {
    assert!(matches!(LoginProvider::finish_login(false, true, 7), Err(RegisterError::TooManyPlayers)));
    assert!(matches!(LoginProvider::finish_login(true, true, 7), Ok(7)));
    assert!(matches!(LoginProvider::finish_login(false, false, 7), Ok(7)));
}

#[test]
fn providers() {
    let offline = LoginProvider::new(None);
    match offline.verify("Alice") {
        AuthLookup::Resolved((name, uuid)) => {
            assert_eq!(name, "Alice");
            assert_eq!(uuid, derive_uuid("Alice"));
            assert!(matches!(offline.username_to_uuid("Alice"), AuthLookup::Resolved(u) if u == uuid));
        },
        other => panic!("{:?}", other),
    }
    assert!(matches!(offline.uuid_to_username(1, "fallback"), AuthLookup::Resolved(s) if s == "fallback"));
    let online = LoginProvider::new(Some("https://auth.example.net".to_string()));
    let srv = online.auth_server.as_ref().unwrap();
    assert_eq!(srv.scheme, "https");
    assert_eq!(srv.authority, "auth.example.net");
    assert!(matches!(online.verify("token"), AuthLookup::AskAuthServer));
    assert!(matches!(online.username_to_uuid("x"), AuthLookup::AskAuthServer));
    assert!(matches!(online.uuid_to_username(1, "x"), AuthLookup::AskAuthServer));
}

#[test]
fn url_splitting() {
    assert_eq!(split_scheme("a://b://c"), Some(("a".to_string(), "b://c".to_string())));
    assert_eq!(split_scheme("://"), Some(("".to_string(), "".to_string())));
    assert_eq!(split_scheme("http:/x"), None);
}
