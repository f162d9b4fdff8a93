//! Properties of the library that relate several calls or hold of every state.
use vstd::prelude::*;
use crate::chat::{ChatMsg, ChatType, MAX_MESSAGES, appended_capped, spec_is_muted};
use crate::chat_input::{history_after, history_pos_after, completion_index_after, ChatInput, chat_mode_ok, trim, trim_start_end, trim_end_start};
use crate::chat_command::{
    parse_cmd_spec,
    ident_end,
    is_ident_start,
    is_ident_continue,
    skip_ws,
    parse_arg,
    unquoted_end,
};
use crate::tab_completion::{tab_completion, scan_separators, is_separator};
use crate::login::{Ban, AdminRole, Timestamp, spec_ban_applies, AdminList, Whitelist, Banlist, LoginStep, RegisterError, login_checks, refusing_ban, admin_entries, whitelist_entries};
use crate::figure::{Voxel, Rgb, CellData, CellAttr, MatCell, Material, voxel_pos, segment_cell, mat_segment_cell, Dyna, FilledVox, unified_last, covering, in_bounds};
use crate::controls::{BindingMode, GamepadBindingOption, option_index, option_at};
use crate::main_menu::{servers_after, listed};

verus! {

/// A backlog that holds at most `MAX_MESSAGES` messages still does after a
/// message is added, and the added message is its newest.
pub proof fn law_backlog_bounded(q: Seq<ChatMsg>, msg: ChatMsg)
    requires
        q.len() <= MAX_MESSAGES,
    ensures
        appended_capped(q, msg).len() <= MAX_MESSAGES,
        appended_capped(q, msg).last() == msg,
{
}

/// After a line is sent, it is the most recent entry of the history, and a
/// history within the limit stays within it.
pub proof fn law_history_front(history: Seq<String>, line: String, max: int)
    requires
        max >= 1,
    ensures
        history_after(history, line, max).len() >= 1,
        history_after(history, line, max)[0]@ == line@,
        history.len() <= max ==> history_after(history, line, max).len() <= max,
{
}

/// Sending the same line twice in a row records it once.
pub proof fn law_history_no_repeat(history: Seq<String>, line: String, max: int)
    requires
        max >= 1,
    ensures
        history_after(history_after(history, line, max), line, max) == history_after(
            history,
            line,
            max,
        ),
{
}

/// Going one line back in the history and then one line forward returns to
/// where browsing was, unless the oldest line was already shown; and the
/// other way round, unless browsing had not started.
pub proof fn law_history_back_and_forth(pos: int, len: int)
    requires
        0 <= pos <= len,
    ensures
        pos < len ==> history_pos_after(history_pos_after(pos, len, 1), len, -1) == pos,
        pos > 0 ==> history_pos_after(history_pos_after(pos, len, -1), len, 1) == pos,
{
}

/// Stepping to the next completion and then to the previous one shows the
/// same completion again.
pub proof fn law_completion_step_back(i: usize, len: int)
    requires
        0 <= i < len <= usize::MAX,
    ensures
        completion_index_after(Some(completion_index_after(Some(i), 1, len) as usize), -1, len)
            == i,
{
    let j = completion_index_after(Some(i), 1, len);
    vstd::arithmetic::div_mod::lemma_mod_add_multiples_vanish(i + 1, len);
    if i + 1 < len {
        vstd::arithmetic::div_mod::lemma_small_mod((i + 1) as nat, len as nat);
        assert(j == i + 1);
        vstd::arithmetic::div_mod::lemma_mod_add_multiples_vanish(i as int, len);
        vstd::arithmetic::div_mod::lemma_small_mod(i as nat, len as nat);
        assert((j as usize) as int == i + 1);
        assert(completion_index_after(Some(j as usize), -1, len) == (i + len) % len);
    } else {
        vstd::arithmetic::div_mod::lemma_mod_self_0(len);
        assert(j == 0);
        vstd::arithmetic::div_mod::lemma_small_mod((len - 1) as nat, len as nat);
        assert((j as usize) as int == 0);
        assert(completion_index_after(Some(j as usize), -1, len) == (len - 1) % len);
    }
}

/// After tab completion the cursor stands right after the inserted word.
pub proof fn law_completion_cursor_after_word(cursor: int, s: Seq<char>, w: Seq<char>)
    ensures
        ({
            let (t, off) = tab_completion(cursor, s, w);
            &&& w.len() <= off <= t.len()
            &&& t.subrange(off - w.len(), off) == w
        }),
{
    lemma_scan_bounds(s, cursor, 0, false, None);
    let (t, off) = tab_completion(cursor, s, w);
    match scan_separators(s, cursor, 0, false, None) {
        (None, None) => {
            assert(t.subrange(off - w.len(), off) =~= w);
        },
        (None, Some(j)) => {
            assert(t.subrange(off - w.len(), off) =~= w);
        },
        (Some(i), None) => {
            assert(t.subrange(off - w.len(), off) =~= w);
        },
        (Some(i), Some(j)) => {
            assert(t.subrange(off - w.len(), off) =~= w);
        },
    }
}

proof fn lemma_scan_bounds(s: Seq<char>, cursor: int, k: int, in_quote: bool, pre: Option<int>)
    requires
        0 <= k,
        pre matches Some(i) ==> 0 <= i < k && i < s.len(),
    ensures
        ({
            let (p, q) = scan_separators(s, cursor, k, in_quote, pre);
            &&& p matches Some(i) ==> 0 <= i < s.len()
            &&& q matches Some(j) ==> 0 <= j < s.len()
        }),
    decreases s.len() - k,
{
    if 0 <= k < s.len() {
        if s[k] == '"' {
            lemma_scan_bounds(s, cursor, k + 1, !in_quote, pre);
        } else if !in_quote && crate::tab_completion::is_separator(s[k]) {
            if k < cursor {
                lemma_scan_bounds(s, cursor, k + 1, in_quote, Some(k));
            }
        } else {
            lemma_scan_bounds(s, cursor, k + 1, in_quote, pre);
        }
    }
}

/// A ban in force at some time was in force at every earlier time.
pub proof fn law_ban_applies_earlier(ban: &Ban, admin: Option<AdminRole>, earlier: Timestamp, later: Timestamp)
    requires
        earlier.spec_not_after(later),
        spec_ban_applies(ban, admin, later),
    ensures
        spec_ban_applies(ban, admin, earlier),
{
}

/// No ban is in force against an admin of the highest role.
pub proof fn law_top_admin_not_banned(ban: &Ban, now: Timestamp)
    ensures
        !spec_ban_applies(ban, Some(AdminRole::Admin), now),
{
}

/// A command that is only a name reads as that name with no arguments.
pub proof fn law_bare_command(s: Seq<char>)
    requires
        s.len() > 0,
        is_ident_start(s[0]),
        forall|i: int| 1 <= i < s.len() ==> is_ident_continue(#[trigger] s[i]),
    ensures
        parse_cmd_spec(s) == Some((s, Seq::<Seq<char>>::empty())),
{
    lemma_ident_end_all(s, 1);
    assert(s.subrange(0, s.len() as int) =~= s);
    assert(skip_ws(s, s.len() as int) == s.len());
    assert(unquoted_end(s, s.len() as int) == s.len());
    assert(parse_arg(s, s.len() as int) is None);
}

proof fn lemma_ident_end_all(s: Seq<char>, i: int)
    requires
        1 <= i <= s.len(),
        forall|j: int| 1 <= j < s.len() ==> is_ident_continue(#[trigger] s[j]),
    ensures
        ident_end(s, i) == s.len(),
    decreases s.len() - i,
{
    if i < s.len() {
        lemma_ident_end_all(s, i + 1);
    }
}

/// Mirroring a model: the mirrored volume holds at x the cell the plain volume
/// holds at `size.x - 1 - x` (for models narrower than 256, the widest `.vox`
/// models).
pub proof fn law_mirror(
    voxels: Seq<Voxel>,
    palette: Seq<Rgb>,
    size: (u32, u32, u32),
    p: (int, int, int),
    k: int,
)
    requires
        size.0 < 256,
        0 <= p.0 < size.0,
    ensures
        segment_cell(voxels, palette, size, true, (size.0 - 1 - p.0, p.1, p.2), k) == segment_cell(
            voxels,
            palette,
            size,
            false,
            p,
            k,
        ),
        mat_segment_cell(voxels, palette, size, true, (size.0 - 1 - p.0, p.1, p.2), k)
            == mat_segment_cell(voxels, palette, size, false, p, k),
    decreases k,
{
    assert(size.0 % 256 == size.0);
    if 0 < k <= voxels.len() {
        law_mirror(voxels, palette, size, p, k - 1);
    }
}

/// Switching the binding mode twice gives the mode back.
pub proof fn law_toggle_twice(m: BindingMode)
    ensures
        m.spec_toggled().spec_toggled() == m,
{
}

/// Clicking the drop-down entry of the selected gamepad option keeps it.
pub proof fn law_dropdown_roundtrip(o: GamepadBindingOption)
    ensures
        option_at(option_index(o)) == o,
{
}

/// Logging in to the same server twice lists it once.
pub proof fn law_server_listed_once(list: Seq<String>, addr: String)
    ensures
        servers_after(servers_after(list, addr), addr) == servers_after(list, addr),
        addr@.len() > 0 ==> listed(servers_after(list, addr), addr@),
{
    if addr@.len() > 0 && !listed(list, addr@) {
        let l2 = list.push(addr);
        assert(l2[list.len() as int]@ == addr@);
    }
}

/// Admins of the highest role always pass the login checks: no ban is in force
/// against them and the whitelist does not apply to them.
pub proof fn law_top_admin_admitted(
    username: String,
    uuid: u128,
    ip: Option<u128>,
    admins: &AdminList,
    whitelist: &Whitelist,
    banlist: &Banlist,
    now: Timestamp,
    step: LoginStep,
)
    requires
        admin_entries(admins).get(uuid) == Some(AdminRole::Admin),
        login_checks(username, uuid, ip, admins, whitelist, banlist, now, step),
    ensures
        step == (LoginStep::CheckPlayerCount { username, uuid, is_admin: true }),
{
    assert(refusing_ban(banlist, uuid, ip, Some(AdminRole::Admin), now) is None);
}

/// With an empty whitelist, a player against whom no ban is in force passes
/// the login checks.
pub proof fn law_empty_whitelist_admits(
    username: String,
    uuid: u128,
    ip: Option<u128>,
    admins: &AdminList,
    whitelist: &Whitelist,
    banlist: &Banlist,
    now: Timestamp,
    step: LoginStep,
)
    requires
        whitelist_entries(whitelist) == Set::<u128>::empty(),
        refusing_ban(banlist, uuid, ip, admin_entries(admins).get(uuid), now) is None,
        login_checks(username, uuid, ip, admins, whitelist, banlist, now, step),
    ensures
        step is CheckPlayerCount,
{
}

/// Combining a single volume gives it back: each position of the combined
/// volume holds the volume's cell there when it is filled, else the
/// non-filled value.
pub proof fn law_unify_single<V: FilledVox>(
    part: (Dyna<V>, (i32, i32, i32)),
    q: (int, int, int),
)
    ensures
        ({
            let lo = (part.1.0 as int, part.1.1 as int, part.1.2 as int);
            unified_last(seq![part], lo, 1, q) == if in_bounds(part.0.spec_size(), q)
                && part.0.cell(q).spec_is_filled() {
                part.0.cell(q)
            } else {
                V::spec_non_filled()
            }
        }),
{
    let lo = (part.1.0 as int, part.1.1 as int, part.1.2 as int);
    assert(seq![part][0] == part);
    assert((q.0 + lo.0 - part.1.0, q.1 + lo.1 - part.1.1, q.2 + lo.2 - part.1.2) == q);
    assert(unified_last(seq![part], lo, 0, q) == V::spec_non_filled());
    assert(covering(seq![part], lo, 0, q) == if in_bounds(part.0.spec_size(), q)
        && part.0.cell(q).spec_is_filled() {
        Some(part.0.cell(q))
    } else {
        None
    });
}

/// Any admin, moderators included, is exempt from the whitelist: when no ban
/// is in force against an admin, the login goes on to the player-count check,
/// as an admin, whatever the whitelist holds.
pub proof fn law_admins_skip_whitelist(
    username: String,
    uuid: u128,
    ip: Option<u128>,
    admins: &AdminList,
    whitelist: &Whitelist,
    banlist: &Banlist,
    now: Timestamp,
    step: LoginStep,
)
    requires
        admin_entries(admins).contains_key(uuid),
        refusing_ban(banlist, uuid, ip, admin_entries(admins).get(uuid), now) is None,
        login_checks(username, uuid, ip, admins, whitelist, banlist, now, step),
    ensures
        step == (LoginStep::CheckPlayerCount { username, uuid, is_admin: true }),
{
}

/// In a material volume, the voxel placed last at a position decides its cell
/// by its palette index: 0 is skin, 1 hair, 2 dark eye, 3 light eye, 4 dark
/// skin, 5 light skin and 7 eye white; any other index is a plain cell with
/// that index and its palette color (black when the palette has none).
pub proof fn law_material_indices(
    voxels: Seq<Voxel>,
    palette: Seq<Rgb>,
    size: (u32, u32, u32),
    flipped: bool,
    k: int,
)
    requires
        0 < k <= voxels.len(),
    ensures
        ({
            let v = voxels[k - 1];
            let c = mat_segment_cell(voxels, palette, size, flipped, voxel_pos(size, v, flipped), k);
            &&& v.i == 0 ==> c == MatCell::Mat(Material::Skin)
            &&& v.i == 1 ==> c == MatCell::Mat(Material::Hair)
            &&& v.i == 2 ==> c == MatCell::Mat(Material::EyeDark)
            &&& v.i == 3 ==> c == MatCell::Mat(Material::EyeLight)
            &&& v.i == 4 ==> c == MatCell::Mat(Material::SkinDark)
            &&& v.i == 5 ==> c == MatCell::Mat(Material::SkinLight)
            &&& v.i == 7 ==> c == MatCell::Mat(Material::EyeWhite)
            &&& (v.i == 6 || v.i > 7) ==> c == MatCell::Normal(
                CellData {
                    col: if (v.i as int) < palette.len() {
                        palette[v.i as int]
                    } else {
                        Rgb { r: 0, g: 0, b: 0 }
                    },
                    attr: CellAttr { index: Some(v.i) },
                },
            )
        }),
{
}

/// A message sent by a player (a private, local, group, faction, region or
/// world message, or an NPC's speech to the world or to a player) is muted
/// exactly when its sender is online and the sender's account is on the mute
/// list.
pub proof fn law_muted_sender(players: Map<u64, u128>, mutelist: Set<u128>, msg: ChatMsg)
    ensures
        msg.chat_type matches ChatType::Tell(u, _) ==> (spec_is_muted(players, mutelist, &msg) <==> (
        players.dom().contains(u) && mutelist.contains(players[u]))),
        msg.chat_type matches ChatType::Say(u) ==> (spec_is_muted(players, mutelist, &msg) <==> (
        players.dom().contains(u) && mutelist.contains(players[u]))),
        msg.chat_type matches ChatType::Group(u, _) ==> (spec_is_muted(players, mutelist, &msg) <==> (
        players.dom().contains(u) && mutelist.contains(players[u]))),
        msg.chat_type matches ChatType::Faction(u, _) ==> (spec_is_muted(players, mutelist, &msg) <==> (
        players.dom().contains(u) && mutelist.contains(players[u]))),
        msg.chat_type matches ChatType::Region(u) ==> (spec_is_muted(players, mutelist, &msg) <==> (
        players.dom().contains(u) && mutelist.contains(players[u]))),
        msg.chat_type matches ChatType::World(u) ==> (spec_is_muted(players, mutelist, &msg) <==> (
        players.dom().contains(u) && mutelist.contains(players[u]))),
        msg.chat_type matches ChatType::NpcSay(u) ==> (spec_is_muted(players, mutelist, &msg) <==> (
        players.dom().contains(u) && mutelist.contains(players[u]))),
        msg.chat_type matches ChatType::NpcTell(u, _) ==> (spec_is_muted(players, mutelist, &msg) <==> (
        players.dom().contains(u) && mutelist.contains(players[u]))),
{
}

proof fn lemma_chat_mode_text(c: char, n: Seq<char>)
    requires
        n.len() > 0,
        is_ident_start(n[0]),
        forall|i: int| 1 <= i < n.len() ==> is_ident_continue(#[trigger] n[i]),
    ensures
        ({
            let m = seq![c] + n + seq![' '];
            parse_cmd_spec(trim(m.subrange(1, m.len() as int))) == Some((n, Seq::<Seq<char>>::empty()))
        }),
{
    let m = seq![c] + n + seq![' '];
    let body = m.subrange(1, m.len() as int);
    assert(body =~= n + seq![' ']);
    assert(trim_start_end(body, 0) == 0);
    let l = body.len() as int;
    assert(is_ident_continue(n[n.len() - 1]));
    assert(body[l - 2] == n[n.len() - 1]);
    assert(trim_end_start(body, 0, l - 1) == l - 1);
    assert(trim_end_start(body, 0, l) == l - 1);
    assert(trim(body) =~= n);
    law_bare_command(n);
}

/// The chat-mode commands are exactly group, say, faction, region and world,
/// by full name or initial: an input that is the command prefix, a command
/// name and a space switches the chat mode (the command is returned with no
/// arguments and the input is cleared) exactly for those names.
pub proof fn law_chat_mode_names(s: ChatInput, prefix: char, n: Seq<char>, t: ChatInput, r: Option<(String, Vec<String>)>)
    requires
        n.len() > 0,
        is_ident_start(n[0]),
        forall|i: int| 1 <= i < n.len() ==> is_ident_continue(#[trigger] n[i]),
        s.message@ == seq![prefix] + n + seq![' '],
        chat_mode_ok(s, prefix, t, r),
    ensures
        (n == "group"@ || n == "say"@ || n == "faction"@ || n == "region"@ || n == "world"@ || n
            == "g"@ || n == "s"@ || n == "f"@ || n == "r"@ || n == "w"@) ==> (r matches Some(
            (name, args),
        ) && name@ == n && args.len() == 0 && t.message@.len() == 0),
        !(n == "group"@ || n == "say"@ || n == "faction"@ || n == "region"@ || n == "world"@ || n
            == "g"@ || n == "s"@ || n == "f"@ || n == "r"@ || n == "w"@) ==> r is None,
{
    lemma_chat_mode_text(prefix, n);
    let m = s.message@;
    assert(m.len() > 0 && m.last() == ' ' && m[0] == prefix);
}

/// Whether position `j` of `s` lies inside double quotes: an odd number of
/// `"` come before it.
pub open spec fn quoted_at(s: Seq<char>, j: int) -> bool
    decreases j,
{
    if j <= 0 {
        false
    } else {
        quoted_at(s, j - 1) != (s[j - 1] == '"')
    }
}

proof fn lemma_scan_pre_grows(s: Seq<char>, cursor: int, k: int, in_quote: bool, p: int)
    requires
        p < k,
    ensures
        scan_separators(s, cursor, k, in_quote, Some(p)).0 matches Some(i) && p <= i,
    decreases s.len() - k,
{
    if 0 <= k < s.len() {
        if s[k] == '"' {
            lemma_scan_pre_grows(s, cursor, k + 1, !in_quote, p);
        } else if !in_quote && is_separator(s[k]) {
            if k < cursor {
                lemma_scan_pre_grows(s, cursor, k + 1, in_quote, k);
            }
        } else {
            lemma_scan_pre_grows(s, cursor, k + 1, in_quote, p);
        }
    }
}

proof fn lemma_scan_keeps_separator(s: Seq<char>, cursor: int, k: int, j: int, pre: Option<int>)
    requires
        0 <= k <= j < cursor,
        j < s.len(),
        is_separator(s[j]),
        !quoted_at(s, j),
    ensures
        scan_separators(s, cursor, k, quoted_at(s, k), pre).0 matches Some(i) && j <= i,
    decreases j - k,
{
    if k == j {
        assert(s[j] != '"');
        lemma_scan_pre_grows(s, cursor, k + 1, quoted_at(s, k), j);
    } else {
        assert(quoted_at(s, k + 1) == (quoted_at(s, k) != (s[k] == '"')));
        lemma_scan_keeps_separator(s, cursor, k + 1, j, if !quoted_at(s, k) && s[k] != '"' && is_separator(s[k]) {
            Some(k)
        } else {
            pre
        });
    }
}

/// Tab completion keeps every word before the cursor's word: for each
/// separator (white space other than a tab, outside quotes) before the cursor,
/// the completed input starts with the input up to that separator.
pub proof fn law_completion_keeps_earlier_words(cursor: int, s: Seq<char>, w: Seq<char>, j: int)
    requires
        0 <= j < cursor,
        j < s.len(),
        is_separator(s[j]),
        !quoted_at(s, j),
    ensures
        j <= tab_completion(cursor, s, w).0.len(),
        tab_completion(cursor, s, w).0.subrange(0, j) == s.subrange(0, j),
{
    lemma_scan_keeps_separator(s, cursor, 0, j, None);
    lemma_scan_bounds(s, cursor, 0, false, None);
    let t = tab_completion(cursor, s, w).0;
    match scan_separators(s, cursor, 0, false, None) {
        (Some(i), None) => {
            assert(t.subrange(0, j) =~= s.subrange(0, j));
        },
        (Some(i), Some(jj)) => {
            assert(t.subrange(0, j) =~= s.subrange(0, j));
        },
        _ => {},
    }
}

proof fn lemma_scan_finds_next_separator(s: Seq<char>, cursor: int, k: int, j: int, pre: Option<int>)
    requires
        0 <= k <= j,
        cursor <= j < s.len(),
        is_separator(s[j]),
        !quoted_at(s, j),
        forall|m: int|
            k <= m < j && cursor <= m ==> !(is_separator(#[trigger] s[m]) && !quoted_at(s, m)),
    ensures
        scan_separators(s, cursor, k, quoted_at(s, k), pre).1 == Some(j),
    decreases j - k,
{
    if k < j {
        assert(quoted_at(s, k + 1) == (quoted_at(s, k) != (s[k] == '"')));
        lemma_scan_finds_next_separator(s, cursor, k + 1, j, if !quoted_at(s, k) && s[k] != '"' && is_separator(s[k]) {
            Some(k)
        } else {
            pre
        });
    } else {
        assert(s[j] != '"');
    }
}

/// Tab completion keeps the rest of the input after the cursor's word: when a
/// separator (white space other than a tab, outside quotes) follows the cursor,
/// the completed input ends with the input from the first such separator on.
pub proof fn law_completion_keeps_later_words(cursor: int, s: Seq<char>, w: Seq<char>, j: int)
    requires
        0 <= cursor <= j < s.len(),
        is_separator(s[j]),
        !quoted_at(s, j),
        forall|m: int| cursor <= m < j ==> !(is_separator(#[trigger] s[m]) && !quoted_at(s, m)),
    ensures
        s.len() - j <= tab_completion(cursor, s, w).0.len(),
        ({
            let t = tab_completion(cursor, s, w).0;
            t.subrange(t.len() - (s.len() - j), t.len() as int) == s.subrange(j, s.len() as int)
        }),
{
    lemma_scan_finds_next_separator(s, cursor, 0, j, None);
    lemma_scan_bounds(s, cursor, 0, false, None);
    let t = tab_completion(cursor, s, w).0;
    match scan_separators(s, cursor, 0, false, None) {
        (Some(i), Some(jj)) => {
            assert(t.subrange(t.len() - (s.len() - j), t.len() as int) =~= s.subrange(j, s.len() as int));
        },
        (None, Some(jj)) => {
            assert(t.subrange(t.len() - (s.len() - j), t.len() as int) =~= s.subrange(j, s.len() as int));
        },
        _ => {},
    }
}

/// A player who is no admin, against whom no ban is in force, and who is not
/// on a non-empty whitelist is refused as not whitelisted, and no address ban
/// is made.
pub proof fn law_whitelist_refuses_others(
    username: String,
    uuid: u128,
    ip: Option<u128>,
    admins: &AdminList,
    whitelist: &Whitelist,
    banlist: &Banlist,
    now: Timestamp,
    step: LoginStep,
)
    requires
        !admin_entries(admins).contains_key(uuid),
        whitelist_entries(whitelist) != Set::<u128>::empty(),
        !whitelist_entries(whitelist).contains(uuid),
        refusing_ban(banlist, uuid, ip, None, now) is None,
        login_checks(username, uuid, ip, admins, whitelist, banlist, now, step),
    ensures
        step matches LoginStep::Refused { error, ip_ban_upgrade } && error is NotOnWhitelist
            && ip_ban_upgrade is None,
{
}

/// A ban in force refuses the login with the ban's reason and end, whatever
/// the player's role or the whitelist.
pub proof fn law_ban_refuses(
    username: String,
    uuid: u128,
    ip: Option<u128>,
    admins: &AdminList,
    whitelist: &Whitelist,
    banlist: &Banlist,
    now: Timestamp,
    step: LoginStep,
    ban: Ban,
)
    requires
        refusing_ban(banlist, uuid, ip, admin_entries(admins).get(uuid), now) == Some(ban),
        login_checks(username, uuid, ip, admins, whitelist, banlist, now, step),
    ensures
        step matches LoginStep::Refused { error, .. } && (error matches RegisterError::Banned(info)
            && info.reason == ban.reason && info.until == (match ban.end_date {
            Some(end) => Some(end.secs),
            None => None,
        })),
{
}

/// In a colored volume, the voxel placed last at a position whose palette
/// index has a color fills it with that color, keeping the index; a voxel
/// whose index has no color leaves the cell as the earlier voxels made it.
pub proof fn law_segment_colors(
    voxels: Seq<Voxel>,
    palette: Seq<Rgb>,
    size: (u32, u32, u32),
    flipped: bool,
    k: int,
    p: (int, int, int),
)
    requires
        0 < k <= voxels.len(),
    ensures
        ({
            let v = voxels[k - 1];
            &&& (v.i as int) < palette.len() && voxel_pos(size, v, flipped) == p ==> segment_cell(
                voxels,
                palette,
                size,
                flipped,
                p,
                k,
            ) == crate::figure::Cell::Filled(
                CellData { col: palette[v.i as int], attr: CellAttr { index: Some(v.i) } },
            )
            &&& (v.i as int) >= palette.len() ==> segment_cell(voxels, palette, size, flipped, p, k)
                == segment_cell(voxels, palette, size, flipped, p, k - 1)
        }),
{
}

} // verus!
