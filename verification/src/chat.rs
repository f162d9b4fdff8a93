//! Chat messages, the backlog kept before the HUD is shown, muting, and the
//! styles of chat modes and chat lines.
use vstd::prelude::*;
use std::collections::{HashMap, HashSet, VecDeque};

verus! {

broadcast use vstd::std_specs::hash::group_hash_axioms;

/// Kinds of chat messages; players are named by their `u64` uid.
#[derive(Debug)]
pub enum ChatType {
    /// A player came online.
    Online(u64),
    /// A player went offline.
    Offline(u64),
    CommandInfo,
    CommandError,
    /// A player (the victim) was killed.
    Kill(u64),
    /// Group management notice, with the group's name.
    GroupMeta(String),
    /// Faction management notice, with the faction's name.
    FactionMeta(String),
    /// Private message: sender, receiver.
    Tell(u64, u64),
    Say(u64),
    Group(u64, String),
    Faction(u64, String),
    Region(u64),
    World(u64),
    /// Speech of an NPC: shown only as a speech bubble in the world.
    Npc(u64),
    NpcSay(u64),
    NpcTell(u64, u64),
    Meta,
}

/// A chat message: its kind and its text.
#[derive(Debug)]
pub struct ChatMsg {
    pub chat_type: ChatType,
    pub content: String,
}

impl ChatType {
    /// The uid of the entity that sent a message of this kind, if any.
    pub open spec fn spec_uid(&self) -> Option<u64> {
        match self {
            ChatType::Tell(u, _) => Some(*u),
            ChatType::Say(u) => Some(*u),
            ChatType::Group(u, _) => Some(*u),
            ChatType::Faction(u, _) => Some(*u),
            ChatType::Region(u) => Some(*u),
            ChatType::World(u) => Some(*u),
            ChatType::Npc(u) => Some(*u),
            ChatType::NpcSay(u) => Some(*u),
            ChatType::NpcTell(u, _) => Some(*u),
            _ => None,
        }
    }
}

impl ChatMsg {
    /// The uid of the sender, for messages that have one.
    pub fn uid(&self) -> (r: Option<u64>)
        ensures
            r == self.chat_type.spec_uid(),
    {
        match &self.chat_type {
            ChatType::Tell(u, _) => Some(*u),
            ChatType::Say(u) => Some(*u),
            ChatType::Group(u, _) => Some(*u),
            ChatType::Faction(u, _) => Some(*u),
            ChatType::Region(u) => Some(*u),
            ChatType::World(u) => Some(*u),
            ChatType::Npc(u) => Some(*u),
            ChatType::NpcSay(u) => Some(*u),
            ChatType::NpcTell(u, _) => Some(*u),
            _ => None,
        }
    }
}

/// Determines whether a message will be sent to the chat box.
///
/// Some messages like NPC messages are only displayed as in-world chat bubbles.
pub fn show_in_chatbox(msg: &ChatMsg) -> (r: bool)
    ensures
        r == !(msg.chat_type is Npc),
{
    !matches!(msg.chat_type, ChatType::Npc(_))
}

/// A message is muted when its sender is a known player whose account UUID is on
/// the mute list.
pub open spec fn spec_is_muted(
    players: Map<u64, u128>,
    mutelist: Set<u128>,
    msg: &ChatMsg,
) -> bool {
    match msg.chat_type.spec_uid() {
        Some(uid) => players.dom().contains(uid) && mutelist.contains(players[uid]),
        None => false,
    }
}

/// Determines whether a message is from a muted player, given the account
/// UUIDs of the players online (by uid) and the mute list.
///
/// These messages will not be shown anywhere and do not need to be retained in
/// chat queues.
pub fn is_muted(players: &HashMap<u64, u128>, mutelist: &HashSet<u128>, msg: &ChatMsg) -> (r: bool)
    ensures
        r == spec_is_muted(players@, mutelist@, msg),
{
    match msg.uid() {
        Some(uid) => match players.get(&uid) {
            Some(uuid) => mutelist.contains(uuid),
            None => false,
        },
        None => false,
    }
}

/// At most this many messages are kept.
pub const MAX_MESSAGES: usize = 100;

/// Chat messages received before the HUD is displayed; they are handed to it
/// when it is.  Messages that would not show in the chat box are not kept, and
/// neither are more than `MAX_MESSAGES`: the oldest go first.
pub struct MessageBacklog(pub VecDeque<ChatMsg>);

/// The queue after appending `msg` and dropping the oldest message while more
/// than `MAX_MESSAGES` remain.
pub open spec fn appended_capped(q: Seq<ChatMsg>, msg: ChatMsg) -> Seq<ChatMsg> {
    let pushed = q.push(msg);
    if pushed.len() > MAX_MESSAGES {
        pushed.drop_first()
    } else {
        pushed
    }
}

impl MessageBacklog {
    /// An empty backlog.
    pub fn new() -> (r: Self)
        ensures
            r.0@.len() == 0,
    {
        MessageBacklog(VecDeque::new())
    }

    /// Keeps `msg` unless it is muted or not for the chat box, then drops the
    /// oldest message if the backlog grew beyond `MAX_MESSAGES`.
    pub fn new_message(
        &mut self,
        players: &HashMap<u64, u128>,
        mutelist: &HashSet<u128>,
        msg: ChatMsg,
    )
        ensures
            if !spec_is_muted(players@, mutelist@, &msg) && !(msg.chat_type is Npc) {
                final(self).0@ == appended_capped(old(self).0@, msg)
            } else {
                final(self).0@ == old(self).0@
            },
    {
        if !is_muted(players, mutelist, &msg) && show_in_chatbox(&msg) {
            let ghost before = self.0@;
            let ghost m = msg;
            self.0.push_back(msg);
            if self.0.len() > MAX_MESSAGES {
                self.0.pop_front();
                assert(self.0@ =~= before.push(m).drop_first());
            }
        }
    }
}

/// Drops the oldest messages until at most `MAX_MESSAGES` remain.
pub fn trim_messages(messages: &mut VecDeque<ChatMsg>)
    ensures
        old(messages)@.len() <= MAX_MESSAGES ==> final(messages)@ == old(messages)@,
        old(messages)@.len() > MAX_MESSAGES ==> final(messages)@ == old(messages)@.subrange(
            old(messages)@.len() - MAX_MESSAGES,
            old(messages)@.len() as int,
        ),
{
    let ghost start = messages@;
    assert(start.subrange(0, start.len() as int) =~= start);
    while messages.len() > MAX_MESSAGES
        invariant
            messages@.len() <= start.len(),
            start.len() > MAX_MESSAGES ==> messages@.len() >= MAX_MESSAGES,
            start.len() <= MAX_MESSAGES ==> messages@.len() == start.len(),
            messages@ == start.subrange(start.len() - messages@.len(), start.len() as int),
        decreases messages@.len(),
    {
        let ghost before = messages@;
        messages.pop_front();
        assert(messages@ =~= start.subrange(start.len() - messages@.len(), start.len() as int));
    }
}

/// The messages kept from the previous frame: none when the chat is cleared,
/// else the newest `MAX_MESSAGES`.
pub open spec fn kept_messages(messages: Seq<ChatMsg>, clear: bool) -> Seq<ChatMsg> {
    if clear {
        Seq::empty()
    } else if messages.len() > MAX_MESSAGES {
        messages.subrange(messages.len() - MAX_MESSAGES, messages.len() as int)
    } else {
        messages
    }
}

/// The message list of a chat frame: cleared when `clear`, else trimmed to the
/// newest `MAX_MESSAGES`; then the new messages are moved to its end, in order.
pub fn update_messages(
    messages: &mut VecDeque<ChatMsg>,
    clear: bool,
    new_messages: &mut VecDeque<ChatMsg>,
)
    ensures
        final(messages)@ == kept_messages(old(messages)@, clear) + old(new_messages)@,
        final(new_messages)@.len() == 0,
{
    if clear {
        messages.clear();
    }
    trim_messages(messages);
    messages.append(new_messages);
}

/// The channel that chat input is sent to.
#[derive(Debug)]
pub enum ChatMode {
    /// Private messages to the player with this uid.
    Tell(u64),
    Say,
    Region,
    Group,
    /// Messages to this faction.
    Faction(String),
    World,
}

/// The color and icon family a chat line or chat mode is drawn with.
#[derive(Clone, Copy, Debug, PartialEq, Eq, Structural)]
pub enum ChatStyle {
    World,
    Say,
    Region,
    Faction,
    Group,
    Tell,
    Online,
    Offline,
    CommandError,
    CommandInfo,
    Kill,
}

/// The style of the input box for a chat mode.
pub fn render_chat_mode(chat_mode: &ChatMode) -> (r: ChatStyle)
    ensures
        r == match chat_mode {
            ChatMode::World => ChatStyle::World,
            ChatMode::Say => ChatStyle::Say,
            ChatMode::Region => ChatStyle::Region,
            ChatMode::Faction(_) => ChatStyle::Faction,
            ChatMode::Group => ChatStyle::Group,
            ChatMode::Tell(_) => ChatStyle::Tell,
        },
{
    match chat_mode {
        ChatMode::World => ChatStyle::World,
        ChatMode::Say => ChatStyle::Say,
        ChatMode::Region => ChatStyle::Region,
        ChatMode::Faction(_) => ChatStyle::Faction,
        ChatMode::Group => ChatStyle::Group,
        ChatMode::Tell(_) => ChatStyle::Tell,
    }
}

/// The style of a line in the chat box.  NPC speech never reaches the chat box.
pub fn render_chat_line(chat_type: &ChatType) -> (r: ChatStyle)
    requires
        !(chat_type is Npc),
    ensures
        r == match chat_type {
            ChatType::Online(_) => ChatStyle::Online,
            ChatType::Offline(_) => ChatStyle::Offline,
            ChatType::CommandError => ChatStyle::CommandError,
            ChatType::CommandInfo => ChatStyle::CommandInfo,
            ChatType::GroupMeta(_) => ChatStyle::Group,
            ChatType::FactionMeta(_) => ChatStyle::Faction,
            ChatType::Kill(_) => ChatStyle::Kill,
            ChatType::Tell(_, _) => ChatStyle::Tell,
            ChatType::Say(_) => ChatStyle::Say,
            ChatType::Group(_, _) => ChatStyle::Group,
            ChatType::Faction(_, _) => ChatStyle::Faction,
            ChatType::Region(_) => ChatStyle::Region,
            ChatType::World(_) => ChatStyle::World,
            ChatType::Npc(_) => ChatStyle::Say,
            ChatType::NpcSay(_) => ChatStyle::Say,
            ChatType::NpcTell(_, _) => ChatStyle::Tell,
            ChatType::Meta => ChatStyle::CommandInfo,
        },
{
    match chat_type {
        ChatType::Online(_) => ChatStyle::Online,
        ChatType::Offline(_) => ChatStyle::Offline,
        ChatType::CommandError => ChatStyle::CommandError,
        ChatType::CommandInfo => ChatStyle::CommandInfo,
        ChatType::GroupMeta(_) => ChatStyle::Group,
        ChatType::FactionMeta(_) => ChatStyle::Faction,
        ChatType::Kill(_) => ChatStyle::Kill,
        ChatType::Tell(_, _) => ChatStyle::Tell,
        ChatType::Say(_) => ChatStyle::Say,
        ChatType::Group(_, _) => ChatStyle::Group,
        ChatType::Faction(_, _) => ChatStyle::Faction,
        ChatType::Region(_) => ChatStyle::Region,
        ChatType::World(_) => ChatStyle::World,
        ChatType::Npc(_) => ChatStyle::Say,
        ChatType::NpcSay(_) => ChatStyle::Say,
        ChatType::NpcTell(_, _) => ChatStyle::Tell,
        ChatType::Meta => ChatStyle::CommandInfo,
    }
}

} // verus!
