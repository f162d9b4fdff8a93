//! Server-side login decisions: offline UUIDs, ban rules, whitelist and the
//! player limit.
use vstd::prelude::*;
use vstd::string::StringSliceAdditionalSpecFns;

verus! {

/// Starting value of the offline UUID hash.
pub const UUID_SEED: u128 = 144066263297769815596495629667062367629;

/// Multiplier of the offline UUID hash.
pub const UUID_PRIME: u128 = 309485009821345068724781371;

/// The offline UUID of a name given by its UTF-8 bytes: starting from
/// `UUID_SEED`, each byte is xor-ed in and the state multiplied by `UUID_PRIME`
/// modulo 2^128.
pub open spec fn uuid_of_bytes(bytes: Seq<u8>) -> u128
    decreases bytes.len(),
{
    if bytes.len() == 0 {
        UUID_SEED
    } else {
        (uuid_of_bytes(bytes.drop_last()) ^ (bytes.last() as u128)).wrapping_mul(UUID_PRIME)
    }
}

/// The UUID of a player that logs in without an authentication server,
/// derived from the user name alone.
pub fn derive_uuid(username: &str) -> (r: u128)
    ensures
        r == uuid_of_bytes(username.spec_bytes()),
{
    let bytes = username.as_bytes();
    let mut state: u128 = UUID_SEED;
    let mut i: usize = 0;
    while i < bytes.len()
        invariant
            i <= bytes.len(),
            bytes@ == username.spec_bytes(),
            state == uuid_of_bytes(bytes@.subrange(0, i as int)),
        decreases bytes.len() - i,
    {
        let ghost prefix = bytes@.subrange(0, i as int);
        state = state ^ (bytes[i] as u128);
        state = state.wrapping_mul(UUID_PRIME);
        i = i + 1;
        assert(bytes@.subrange(0, i as int).drop_last() =~= prefix);
    }
    assert(bytes@.subrange(0, bytes.len() as int) =~= bytes@);
    state
}

/// The UUID of the local player of a single-player game.
pub fn derive_singleplayer_uuid() -> (r: u128)
    ensures
        r == uuid_of_bytes("singleplayer".spec_bytes()),
{
    derive_uuid("singleplayer")
}

/// Administrative roles, from least to most powerful.
#[derive(Clone, Copy, Debug, PartialEq, Eq, Structural)]
pub enum AdminRole {
    Moderator,
    Admin,
}

impl AdminRole {
    /// Position of the role in the order of power.
    pub open spec fn rank(self) -> int {
        match self {
            AdminRole::Moderator => 0,
            AdminRole::Admin => 1,
        }
    }

    /// Position of the role in the order of power.
    pub fn level(self) -> (r: u8)
        ensures
            r == self.rank(),
    {
        match self {
            AdminRole::Moderator => 0,
            AdminRole::Admin => 1,
        }
    }
}

/// An instant in UTC: whole seconds since the Unix epoch and the nanoseconds
/// after them (`nanos < 2_000_000_000`, leap seconds included).
#[derive(Clone, Copy, Debug, PartialEq, Eq, Structural)]
pub struct Timestamp {
    pub secs: i64,
    pub nanos: u32,
}

impl Timestamp {
    /// `self` is not later than `other`.
    pub open spec fn spec_not_after(self, other: Timestamp) -> bool {
        self.secs < other.secs || (self.secs == other.secs && self.nanos <= other.nanos)
    }

    /// Whether `self` is not later than `other`.
    pub fn not_after(self, other: Timestamp) -> (r: bool)
        ensures
            r == self.spec_not_after(other),
    {
        self.secs < other.secs || (self.secs == other.secs && self.nanos <= other.nanos)
    }
}

/// What a banned player is told: the reason and, for a ban with an end, the
/// second at which it ends.
#[derive(Debug)]
pub struct BanInfo {
    pub reason: String,
    pub until: Option<i64>,
}

/// A ban: its reason, whether it is to be extended to the player's address,
/// its end (none for a permanent ban) and the role of whoever issued it.
#[derive(Debug)]
pub struct Ban {
    pub reason: String,
    pub upgrade_to_ip: bool,
    pub end_date: Option<Timestamp>,
    pub performed_by_role: AdminRole,
}

impl Ban {
    pub open spec fn spec_is_expired(&self, now: Timestamp) -> bool {
        self.end_date matches Some(end) && end.spec_not_after(now)
    }

    /// A ban has expired once its end is not later than `now`.
    pub fn is_expired(&self, now: Timestamp) -> (r: bool)
        ensures
            r == self.spec_is_expired(now),
    {
        match self.end_date {
            Some(end) => end.not_after(now),
            None => false,
        }
    }

    pub open spec fn spec_until(&self) -> Option<i64> {
        match self.end_date {
            Some(end) => Some(end.secs),
            None => None,
        }
    }

    /// The information sent to the banned player.
    pub fn info(&self) -> (r: BanInfo)
        ensures
            r.reason == self.reason,
            r.until == self.spec_until(),
    {
        BanInfo {
            reason: self.reason.clone(),
            until: match self.end_date {
                Some(end) => Some(end.secs),
                None => None,
            },
        }
    }
}

/// A ban is in force against a player unless it has expired or the player is an
/// admin whose role is at least that of the ban's issuer.
pub open spec fn spec_ban_applies(ban: &Ban, admin: Option<AdminRole>, now: Timestamp) -> bool {
    !ban.spec_is_expired(now) && !(admin matches Some(role) && role.rank()
        >= ban.performed_by_role.rank())
}

/// Determines whether a user is banned, given a ban record connected to the
/// user, the user's admin role (if any) and the current time.
pub fn ban_applies(ban: &Ban, admin: Option<AdminRole>, now: Timestamp) -> (r: bool)
    ensures
        r == spec_ban_applies(ban, admin, now),
{
    let exceeds_ban_role = match admin {
        Some(role) => role.level() >= ban.performed_by_role.level(),
        None => false,
    };
    !ban.is_expired(now) && !exceeds_ban_role
}

/// The admins of a server by player UUID, kept in a `hashbrown::HashMap`.
#[verifier::external_body]
pub struct AdminList {
    map: hashbrown::HashMap<u128, AdminRole>,
}

/// The players allowed on a whitelisted server, kept in a `hashbrown::HashSet`.
#[verifier::external_body]
pub struct Whitelist {
    set: hashbrown::HashSet<u128>,
}

/// The current ban action recorded for a player UUID or an address.
#[derive(Debug)]
pub enum BanAction {
    Ban(Ban),
    Unban,
}

impl BanAction {
    /// The ban in force for this entry, if the last action was a ban.
    pub open spec fn spec_ban(&self) -> Option<&Ban> {
        match self {
            BanAction::Ban(b) => Some(b),
            BanAction::Unban => None,
        }
    }

    /// The ban in force for this entry, if the last action was a ban.
    pub fn ban(&self) -> (r: Option<&Ban>)
        ensures
            r == self.spec_ban(),
    {
        match self {
            BanAction::Ban(b) => Some(b),
            BanAction::Unban => None,
        }
    }
}

/// Ban entries by key (a player UUID, or a normalized IP address as 128 bits),
/// kept in a `hashbrown::HashMap`.
#[verifier::external_body]
pub struct BanTable {
    map: hashbrown::HashMap<u128, BanAction>,
}

/// What the admin list holds.
pub uninterp spec fn admin_entries(list: &AdminList) -> Map<u128, AdminRole>;

/// What the whitelist holds.
pub uninterp spec fn whitelist_entries(list: &Whitelist) -> Set<u128>;

/// What a ban table holds.
pub uninterp spec fn ban_entries(table: &BanTable) -> Map<u128, BanAction>;

/// `hashbrown::HashMap::new`: an empty table.
#[verifier::external_body]
fn admin_map_new() -> (r: AdminList)
    ensures
        admin_entries(&r).dom() == Set::<u128>::empty(),
{
    AdminList { map: hashbrown::HashMap::new() }
}

/// `hashbrown::HashMap::insert`: maps `uuid` to `role`, replacing an old entry.
#[verifier::external_body]
fn admin_map_insert(list: &mut AdminList, uuid: u128, role: AdminRole)
    ensures
        admin_entries(final(list)) == admin_entries(old(list)).insert(uuid, role),
{
    list.map.insert(uuid, role);
}

/// `hashbrown::HashMap::get`: the role stored for `uuid`.
#[verifier::external_body]
fn admin_map_get(list: &AdminList, uuid: u128) -> (r: Option<AdminRole>)
    ensures
        r == admin_entries(list).get(uuid),
{
    list.map.get(&uuid).copied()
}

/// `hashbrown::HashSet::new`: an empty set.
#[verifier::external_body]
fn whitelist_set_new() -> (r: Whitelist)
    ensures
        whitelist_entries(&r) == Set::<u128>::empty(),
{
    Whitelist { set: hashbrown::HashSet::new() }
}

/// `hashbrown::HashSet::insert`: adds `uuid`.
#[verifier::external_body]
fn whitelist_set_insert(list: &mut Whitelist, uuid: u128)
    ensures
        whitelist_entries(final(list)) == whitelist_entries(old(list)).insert(uuid),
{
    list.set.insert(uuid);
}

/// `hashbrown::HashSet::is_empty`: whether the set holds no element.
#[verifier::external_body]
fn whitelist_set_is_empty(list: &Whitelist) -> (r: bool)
    ensures
        r == (whitelist_entries(list) == Set::<u128>::empty()),
{
    list.set.is_empty()
}

/// `hashbrown::HashSet::contains`: whether `uuid` is in the set.
#[verifier::external_body]
fn whitelist_set_contains(list: &Whitelist, uuid: u128) -> (r: bool)
    ensures
        r == whitelist_entries(list).contains(uuid),
{
    list.set.contains(&uuid)
}

/// `hashbrown::HashMap::new`: an empty table.
#[verifier::external_body]
fn ban_map_new() -> (r: BanTable)
    ensures
        ban_entries(&r).dom() == Set::<u128>::empty(),
{
    BanTable { map: hashbrown::HashMap::new() }
}

/// `hashbrown::HashMap::insert`: records `action` for `key`, replacing an old
/// entry.
#[verifier::external_body]
fn ban_map_insert(table: &mut BanTable, key: u128, action: BanAction)
    ensures
        ban_entries(final(table)) == ban_entries(old(table)).insert(key, action),
{
    table.map.insert(key, action);
}

/// `hashbrown::HashMap::get`: the entry stored for `key`.
#[verifier::external_body]
fn ban_map_get(table: &BanTable, key: u128) -> (r: Option<&BanAction>)
    ensures
        match r {
            Some(a) => ban_entries(table).dom().contains(key) && *a == ban_entries(table)[key],
            None => !ban_entries(table).dom().contains(key),
        },
{
    table.map.get(&key)
}

impl AdminList {
    /// A list without admins.
    pub fn new() -> (r: Self)
        ensures
            admin_entries(&r).dom() == Set::<u128>::empty(),
    {
        admin_map_new()
    }

    /// Makes the player `uuid` an admin with `role`.
    pub fn insert(&mut self, uuid: u128, role: AdminRole)
        ensures
            admin_entries(final(self)) == admin_entries(old(self)).insert(uuid, role),
    {
        admin_map_insert(self, uuid, role)
    }

    /// The role of the player `uuid`, if an admin.
    pub fn get(&self, uuid: u128) -> (r: Option<AdminRole>)
        ensures
            r == admin_entries(self).get(uuid),
    {
        admin_map_get(self, uuid)
    }
}

impl Whitelist {
    /// An empty whitelist: everyone may join.
    pub fn new() -> (r: Self)
        ensures
            whitelist_entries(&r) == Set::<u128>::empty(),
    {
        whitelist_set_new()
    }

    /// Adds the player `uuid`.
    pub fn insert(&mut self, uuid: u128)
        ensures
            whitelist_entries(final(self)) == whitelist_entries(old(self)).insert(uuid),
    {
        whitelist_set_insert(self, uuid)
    }

    /// Whether no player is listed.
    pub fn is_empty(&self) -> (r: bool)
        ensures
            r == (whitelist_entries(self) == Set::<u128>::empty()),
    {
        whitelist_set_is_empty(self)
    }

    /// Whether the player `uuid` is listed.
    pub fn contains(&self, uuid: u128) -> (r: bool)
        ensures
            r == whitelist_entries(self).contains(uuid),
    {
        whitelist_set_contains(self, uuid)
    }
}

impl BanTable {
    /// A table without entries.
    pub fn new() -> (r: Self)
        ensures
            ban_entries(&r).dom() == Set::<u128>::empty(),
    {
        ban_map_new()
    }

    /// Records `action` as the current action for `key`.
    pub fn insert(&mut self, key: u128, action: BanAction)
        ensures
            ban_entries(final(self)) == ban_entries(old(self)).insert(key, action),
    {
        ban_map_insert(self, key, action)
    }

    /// The current action for `key`.
    pub fn get(&self, key: u128) -> (r: Option<&BanAction>)
        ensures
            match r {
                Some(a) => ban_entries(self).dom().contains(key) && *a == ban_entries(self)[key],
                None => !ban_entries(self).dom().contains(key),
            },
    {
        ban_map_get(self, key)
    }
}

/// The bans of a server, by player UUID and by address.
pub struct Banlist {
    pub uuid_bans: BanTable,
    pub ip_bans: BanTable,
}

/// The ban in force in `table` for `key`, if any.
pub open spec fn ban_of(table: Map<u128, BanAction>, key: u128) -> Option<Ban> {
    match table.get(key) {
        Some(BanAction::Ban(b)) => Some(b),
        _ => None,
    }
}

/// Why a registration is refused.
#[derive(Debug)]
pub enum RegisterError {
    AuthError(String),
    Banned(BanInfo),
    NotOnWhitelist,
    TooManyPlayers,
}

/// What polling a pending login gave: nothing yet, a dropped sender, or the
/// verified user name and UUID (or the reason verification failed).
#[derive(Debug)]
pub enum PendingPoll {
    Empty,
    Closed,
    Received(Result<(String, u128), RegisterError>),
}

/// The outcome of the checks of a login that depend on the server's lists.
#[derive(Debug)]
pub enum LoginStep {
    /// Verification has not answered yet.
    Waiting,
    /// The login is refused.  When the refusing ban is to be extended to the
    /// player's address, `ip_ban_upgrade` holds the address, UUID and name.
    Refused { error: RegisterError, ip_ban_upgrade: Option<(u128, u128, String)> },
    /// The player passed the ban and whitelist checks; the player limit is
    /// still to be checked (admins are exempt from it).
    CheckPlayerCount { username: String, uuid: u128, is_admin: bool },
}

/// The ban that refuses a player: the UUID ban if it applies, else the address
/// ban if it applies.
pub open spec fn refusing_ban(
    banlist: &Banlist,
    uuid: u128,
    ip: Option<u128>,
    admin: Option<AdminRole>,
    now: Timestamp,
) -> Option<Ban> {
    let by_uuid = ban_of(ban_entries(&banlist.uuid_bans), uuid);
    let by_ip = match ip {
        Some(a) => ban_of(ban_entries(&banlist.ip_bans), a),
        None => None,
    };
    if by_uuid matches Some(b) && spec_ban_applies(&b, admin, now) {
        by_uuid
    } else if by_ip matches Some(b) && spec_ban_applies(&b, admin, now) {
        by_ip
    } else {
        None
    }
}

/// What `LoginProvider::login` decides for a verified user.
pub open spec fn login_checks(
    username: String,
    uuid: u128,
    ip: Option<u128>,
    admins: &AdminList,
    whitelist: &Whitelist,
    banlist: &Banlist,
    now: Timestamp,
    step: LoginStep,
) -> bool {
    let admin = admin_entries(admins).get(uuid);
    match refusing_ban(banlist, uuid, ip, admin, now) {
        Some(ban) => step matches LoginStep::Refused { error, ip_ban_upgrade } && (error matches RegisterError::Banned(info) && info.reason == ban.reason && info.until == ban.spec_until())
            && ip_ban_upgrade == (if ip is Some && ban.upgrade_to_ip {
            Some((ip->0, uuid, username))
        } else {
            None
        }),
        None => if admin is None && whitelist_entries(whitelist) != Set::<u128>::empty()
            && !whitelist_entries(whitelist).contains(uuid) {
            step matches LoginStep::Refused { error, ip_ban_upgrade } && error is NotOnWhitelist
                && ip_ban_upgrade is None
        } else {
            step == (LoginStep::CheckPlayerCount { username, uuid, is_admin: admin is Some })
        },
    }
}

/// The server's offline identity service, or the address of the authentication
/// server that verifies tokens.
pub struct LoginProvider {
    pub auth_server: Option<AuthServerAddr>,
}

/// Address of an authentication server: the scheme and the authority of its URL.
pub struct AuthServerAddr {
    pub scheme: String,
    pub authority: String,
}

/// `"://"` occurs in `s` at position `k`.
pub open spec fn separator_at(s: Seq<char>, k: int) -> bool {
    0 <= k && k + 3 <= s.len() && s[k] == ':' && s[k + 1] == '/' && s[k + 2] == '/'
}

/// Splits an URL at the first `"://"` into scheme and authority.
pub fn split_scheme(addr: &str) -> (r: Option<(String, String)>)
    ensures
        match r {
            Some((scheme, authority)) => {
                &&& addr@.len() >= 3
                &&& exists|k: int|
                    separator_at(addr@, k) && (forall|j: int| 0 <= j < k ==> !#[trigger] separator_at(addr@, j)) && scheme@
                        == addr@.subrange(0, k) && authority@ == addr@.subrange(
                        k + 3,
                        addr@.len() as int,
                    )
            },
            None => forall|k: int| !#[trigger] separator_at(addr@, k),
        },
{
    let s = crate::text::chars_of(addr);
    let mut k: usize = 0;
    while k < s.len() && s.len() - k >= 3
        invariant
            s@ == addr@,
            k <= s.len(),
            forall|j: int| 0 <= j < k ==> !#[trigger] separator_at(s@, j),
        decreases s.len() - k,
    {
        if s[k] == ':' && s[k + 1] == '/' && s[k + 2] == '/' {
            let scheme = crate::text::string_of(&s.as_slice()[0..k]);
            let authority = crate::text::string_of(&s.as_slice()[k + 3..s.len()]);
            assert(separator_at(addr@, k as int));
            assert(scheme@ == addr@.subrange(0, k as int));
            assert(authority@ == addr@.subrange(k + 3, addr@.len() as int));
            return Some((scheme, authority));
        }
        k = k + 1;
    }
    None
}

/// What a lookup decides without the authentication server, or that the
/// authentication server must be asked.
#[derive(Debug)]
pub enum AuthLookup<T> {
    Resolved(T),
    AskAuthServer,
}

impl LoginProvider {
    /// A provider for the authentication server at `auth_addr` (an URL
    /// `scheme://authority`), or one that identifies players by name alone.
    /// The address is split at its first `://`; whether the scheme and the
    /// authority are valid, and whether the scheme is secure, is decided by the
    /// authentication client, which is not part of this library: a caller must
    /// check that before handing the address in, since an address that fails
    /// those checks is to be refused.
    pub fn new(auth_addr: Option<String>) -> (r: Self)
        requires
            auth_addr matches Some(a) ==> exists|k: int| #[trigger] separator_at(a@, k),
        ensures
            r.auth_server is Some == auth_addr is Some,
            auth_addr matches Some(a) ==> (r.auth_server matches Some(srv) && exists|k: int|
                separator_at(a@, k) && (forall|j: int| 0 <= j < k ==> !#[trigger] separator_at(a@, j))
                    && srv.scheme@ == a@.subrange(0, k) && srv.authority@ == a@.subrange(
                    k + 3,
                    a@.len() as int,
                )),
    {
        match auth_addr {
            Some(addr) => {
                match split_scheme(addr.as_str()) {
                    Some((scheme, authority)) => LoginProvider {
                        auth_server: Some(AuthServerAddr { scheme, authority }),
                    },
                    None => {
                        proof {
                            let k = choose|k: int| #[trigger] separator_at(addr@, k);
                            assert(!separator_at(addr@, k));
                        }
                        LoginProvider { auth_server: None }
                    },
                }
            },
            None => LoginProvider { auth_server: None },
        }
    }

    /// Starts verifying a login.  Without an authentication server the text is
    /// the user name and the UUID is derived from it; otherwise the text is a
    /// token that the authentication server must check.
    pub fn verify(&self, username_or_token: &str) -> (r: AuthLookup<(String, u128)>)
        ensures
            match r {
                AuthLookup::Resolved((name, uuid)) => self.auth_server is None && name@
                    == username_or_token@ && uuid == uuid_of_bytes(username_or_token.spec_bytes()),
                AuthLookup::AskAuthServer => self.auth_server is Some,
            },
    {
        match &self.auth_server {
            Some(_) => AuthLookup::AskAuthServer,
            None => AuthLookup::Resolved(
                (String::from_str(username_or_token), derive_uuid(username_or_token)),
            ),
        }
    }

    /// The UUID of `username`: derived from the name without an authentication
    /// server, else to be asked from it.
    pub fn username_to_uuid(&self, username: &str) -> (r: AuthLookup<u128>)
        ensures
            match r {
                AuthLookup::Resolved(uuid) => self.auth_server is None && uuid == uuid_of_bytes(
                    username.spec_bytes(),
                ),
                AuthLookup::AskAuthServer => self.auth_server is Some,
            },
    {
        match &self.auth_server {
            Some(_) => AuthLookup::AskAuthServer,
            None => AuthLookup::Resolved(derive_uuid(username)),
        }
    }

    /// The user name of `uuid`: the fallback alias without an authentication
    /// server, else to be asked from it.
    pub fn uuid_to_username(&self, uuid: u128, fallback_alias: &str) -> (r: AuthLookup<String>)
        ensures
            match r {
                AuthLookup::Resolved(name) => self.auth_server is None && name@ == fallback_alias@,
                AuthLookup::AskAuthServer => self.auth_server is Some,
            },
    {
        match &self.auth_server {
            Some(_) => AuthLookup::AskAuthServer,
            None => AuthLookup::Resolved(String::from_str(fallback_alias)),
        }
    }

    /// Decides a pending login once verification has answered: refused when a
    /// ban applies (the UUID ban first, then the address ban), refused when a
    /// non-admin is not on a non-empty whitelist, otherwise to be checked
    /// against the player limit.
    pub fn login(
        poll: PendingPoll,
        ip: Option<u128>,
        admins: &AdminList,
        whitelist: &Whitelist,
        banlist: &Banlist,
        now: Timestamp,
    ) -> (r: LoginStep)
        ensures
            match poll {
                PendingPoll::Empty => r is Waiting,
                PendingPoll::Closed => r matches LoginStep::Refused { error, ip_ban_upgrade }
                    && (error matches RegisterError::AuthError(m) && m@
                    == "Internal Error verifying"@) && ip_ban_upgrade is None,
                PendingPoll::Received(Err(e)) => r == (LoginStep::Refused {
                    error: e,
                    ip_ban_upgrade: None,
                }),
                PendingPoll::Received(Ok((username, uuid))) => login_checks(
                    username,
                    uuid,
                    ip,
                    admins,
                    whitelist,
                    banlist,
                    now,
                    r,
                ),
            },
    {
        match poll {
            PendingPoll::Empty => LoginStep::Waiting,
            PendingPoll::Closed => LoginStep::Refused {
                error: RegisterError::AuthError(String::from_str("Internal Error verifying")),
                ip_ban_upgrade: None,
            },
            PendingPoll::Received(Err(e)) => LoginStep::Refused { error: e, ip_ban_upgrade: None },
            PendingPoll::Received(Ok((username, uuid))) => {
                let admin = admins.get(uuid);
                let mut found: Option<&Ban> = None;
                match banlist.uuid_bans.get(uuid) {
                    Some(entry) => match entry.ban() {
                        Some(b) => {
                            if ban_applies(b, admin, now) {
                                found = Some(b);
                            }
                        },
                        None => {},
                    },
                    None => {},
                }
                if found.is_none() {
                    match ip {
                        Some(a) => match banlist.ip_bans.get(a) {
                            Some(entry) => match entry.ban() {
                                Some(b) => {
                                    if ban_applies(b, admin, now) {
                                        found = Some(b);
                                    }
                                },
                                None => {},
                            },
                            None => {},
                        },
                        None => {},
                    }
                }
                match found {
                    Some(ban) => {
                        let upgrade = match ip {
                            Some(a) => if ban.upgrade_to_ip {
                                Some((a, uuid, username))
                            } else {
                                None
                            },
                            None => None,
                        };
                        LoginStep::Refused {
                            error: RegisterError::Banned(ban.info()),
                            ip_ban_upgrade: upgrade,
                        }
                    },
                    None => {
                        if admin.is_none() && !whitelist.is_empty() && !whitelist.contains(uuid) {
                            LoginStep::Refused {
                                error: RegisterError::NotOnWhitelist,
                                ip_ban_upgrade: None,
                            }
                        } else {
                            LoginStep::CheckPlayerCount {
                                username,
                                uuid,
                                is_admin: admin.is_some(),
                            }
                        }
                    },
                }
            },
        }
    }

    /// Completes a login that passed `login`: refused when the player limit is
    /// exceeded and the player is not an admin, else accepted with `res`.
    pub fn finish_login<R>(is_admin: bool, player_count_exceeded: bool, res: R) -> (r: Result<
        R,
        RegisterError,
    >)
        ensures
            !is_admin && player_count_exceeded ==> r matches Err(RegisterError::TooManyPlayers),
            !(!is_admin && player_count_exceeded) ==> r == Ok::<R, RegisterError>(res),
    {
        if !is_admin && player_count_exceeded {
            Err(RegisterError::TooManyPlayers)
        } else {
            Ok(res)
        }
    }
}

} // verus!
