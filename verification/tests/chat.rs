use std::collections::{HashMap, HashSet, VecDeque};
use veloren_logic::chat::{
    is_muted, render_chat_line, render_chat_mode, show_in_chatbox, trim_messages, ChatMode, ChatMsg,
    ChatStyle, ChatType, MessageBacklog, MAX_MESSAGES,
};

fn msg(chat_type: ChatType, text: &str) -> ChatMsg {
    ChatMsg { chat_type, content: text.to_string() }
}

#[test]
fn npc_messages_stay_out_of_chatbox() {
    assert!(!show_in_chatbox(&msg(ChatType::Npc(3), "hi")));
    assert!(show_in_chatbox(&msg(ChatType::NpcSay(3), "hi")));
    assert!(show_in_chatbox(&msg(ChatType::Say(3), "hi")));
    assert!(show_in_chatbox(&msg(ChatType::Meta, "hi")));
}

#[test]
fn uid_of_messages() {
    assert_eq!(msg(ChatType::Tell(4, 5), "").uid(), Some(4));
    assert_eq!(msg(ChatType::Group(6, "g".into()), "").uid(), Some(6));
    assert_eq!(msg(ChatType::Online(7), "").uid(), None);
    assert_eq!(msg(ChatType::CommandError, "").uid(), None);
}

#[test]
fn muted_players() {
    let mut players = HashMap::new();
    players.insert(1u64, 100u128);
    players.insert(2u64, 200u128);
    let mut mutelist = HashSet::new();
    mutelist.insert(200u128);
    assert!(is_muted(&players, &mutelist, &msg(ChatType::Say(2), "x")));
    assert!(!is_muted(&players, &mutelist, &msg(ChatType::Say(1), "x")));
    assert!(!is_muted(&players, &mutelist, &msg(ChatType::Say(9), "x")));
    assert!(!is_muted(&players, &mutelist, &msg(ChatType::Online(2), "x")));
}

#[test]
fn backlog_keeps_newest_hundred_and_skips_hidden() {
    let mut players = HashMap::new();
    players.insert(2u64, 200u128);
    let mut mutelist = HashSet::new();
    mutelist.insert(200u128);
    let mut backlog = MessageBacklog::new();
    for i in 0..150 {
        backlog.new_message(&players, &mutelist, msg(ChatType::World(1), &i.to_string()));
        backlog.new_message(&players, &mutelist, msg(ChatType::Npc(1), "npc"));
        backlog.new_message(&players, &mutelist, msg(ChatType::World(2), "muted"));
    }
    assert_eq!(backlog.0.len(), MAX_MESSAGES);
    assert_eq!(backlog.0.front().unwrap().content, "50");
    assert_eq!(backlog.0.back().unwrap().content, "149");
}

#[test]
fn trimming_keeps_the_newest() {
    let mut q: VecDeque<ChatMsg> = (0..130).map(|i| msg(ChatType::Meta, &i.to_string())).collect();
    trim_messages(&mut q);
    assert_eq!(q.len(), 100);
    assert_eq!(q.front().unwrap().content, "30");
    let mut small: VecDeque<ChatMsg> = (0..3).map(|i| msg(ChatType::Meta, &i.to_string())).collect();
    trim_messages(&mut small);
    assert_eq!(small.len(), 3);
}

#[test]
fn styles() {
    assert_eq!(render_chat_mode(&ChatMode::Faction("x".into())), ChatStyle::Faction);
    assert_eq!(render_chat_mode(&ChatMode::Tell(3)), ChatStyle::Tell);
    assert_eq!(render_chat_line(&ChatType::GroupMeta("g".into())), ChatStyle::Group);
    assert_eq!(render_chat_line(&ChatType::Meta), ChatStyle::CommandInfo);
    assert_eq!(render_chat_line(&ChatType::NpcTell(1, 2)), ChatStyle::Tell);
    assert_eq!(render_chat_line(&ChatType::Kill(1)), ChatStyle::Kill);
}
