use std::collections::VecDeque;
use veloren_logic::chat::{update_messages, ChatMsg, ChatType, MAX_MESSAGES};
use veloren_logic::chat_input::{ChatEvent, ChatInput, ChatKey};
use veloren_logic::controls::{BindingClicks, BindingMode, ControlsEvent, GamepadBindingOption, State};
use veloren_logic::main_menu::{
    menu_step, AliasError, ClientError, ConnectionArgs, InitError, InitPhase, LocalizedText, MenuAction,
    MenuEvent, MsgKey, NetworkingSettings,
};

fn msg(text: &str) -> ChatMsg { ChatMsg { chat_type: ChatType::Meta, content: text.to_string() } }

fn contents(q: &VecDeque<ChatMsg>) -> Vec<String> { q.iter().map(|m| m.content.clone()).collect() }

#[test]
fn frame_messages_trim_then_append() {
    let mut messages: VecDeque<ChatMsg> = (0..MAX_MESSAGES + 3).map(|i| msg(&i.to_string())).collect();
    let mut new: VecDeque<ChatMsg> = vec![msg("new1"), msg("new2")].into();
    update_messages(&mut messages, false, &mut new);
    assert!(new.is_empty());
    let c = contents(&messages);
    assert_eq!(c.len(), MAX_MESSAGES + 2);
    assert_eq!(c[0], "3");
    assert_eq!(&c[MAX_MESSAGES..], &["new1".to_string(), "new2".to_string()]);
}

#[test]
fn frame_messages_cleared() {
    let mut messages: VecDeque<ChatMsg> = vec![msg("old")].into();
    let mut new: VecDeque<ChatMsg> = vec![msg("n")].into();
    update_messages(&mut messages, true, &mut new);
    assert_eq!(contents(&messages), vec!["n".to_string()]);
}

fn no_waiting() -> VecDeque<ChatMsg> { VecDeque::new() }

#[test]
fn enter_sends_message_and_stops_forced_chat() {
    let mut input = ChatInput::new();
    input.message = "hello".into();
    let mut waiting = no_waiting();
    let (events, scroll) = input.finish_frame(false, false, &[false, true, true], true, false, '/', 32, &mut waiting);
    assert_eq!(events.len(), 2);
    assert!(matches!(events[0], ChatEvent::DisableForceChat));
    assert!(matches!(&events[1], ChatEvent::SendMessage(m) if m == "hello"));
    assert!(scroll);
    assert_eq!(input.message, "");
    assert_eq!(input.history.front().map(|s| s.as_str()), Some("hello"));
}

#[test]
fn enter_on_empty_input_only_stops_forced_chat() {
    let mut input = ChatInput::new();
    let mut waiting = no_waiting();
    let (events, scroll) = input.finish_frame(false, false, &[true, true], false, false, '/', 32, &mut waiting);
    assert_eq!(events.len(), 2);
    assert!(events.iter().all(|e| matches!(e, ChatEvent::DisableForceChat)));
    assert!(!scroll);
}

#[test]
fn enter_sends_commands_and_reports_bad_ones() {
    let mut input = ChatInput::new();
    input.message = "/say hi".into();
    let mut waiting = no_waiting();
    let (events, _) = input.finish_frame(false, false, &[true], false, false, '/', 32, &mut waiting);
    assert!(matches!(&events[1], ChatEvent::SendCommand(n, a) if n == "say" && a == &vec!["hi".to_string()]));
    input.message = "/\"".into();
    let (events, _) = input.finish_frame(false, false, &[true], false, false, '/', 32, &mut waiting);
    assert_eq!(events.len(), 1);
    assert_eq!(waiting.len(), 1);
    assert!(matches!(waiting[0].chat_type, ChatType::CommandError));
}

#[test]
fn completion_start_and_focus_come_first() {
    let mut input = ChatInput::new();
    input.message = "/he\t".into();
    let mut waiting = no_waiting();
    let (events, _) = input.finish_frame(true, true, &[true], true, false, '/', 32, &mut waiting);
    assert!(matches!(&events[..], [ChatEvent::TabCompletionStart(s)] if s == "/he\t"));
    let (events, scroll) = input.finish_frame(false, true, &[true], true, false, '/', 32, &mut waiting);
    assert!(matches!(&events[..], [ChatEvent::Focus]));
    assert!(!scroll);
    assert_eq!(input.message, "/he\t");
}

#[test]
fn controls_clicks_give_binding_requests_on_keyboard_page() {
    let mut state = State::new();
    let clicks = [BindingClicks { input: 7u32, left: 2, right: 1 }, BindingClicks { input: 9u32, left: 0, right: 1 }];
    let events = state.update(&clicks, true, None, false);
    let kinds: Vec<String> = events
        .iter()
        .map(|e| match e {
            ControlsEvent::ChangeBinding(i) => format!("change {}", i),
            ControlsEvent::RemoveBinding(i) => format!("remove {}", i),
            ControlsEvent::ResetKeyBindings => "reset".to_string(),
        })
        .collect();
    assert_eq!(kinds, vec!["change 7", "change 7", "remove 7", "remove 9", "reset"]);
}

#[test]
fn controls_gamepad_page_ignores_binding_clicks() {
    let mut state = State::new();
    state.update::<u32>(&[], false, None, true);
    assert_eq!(state.binding_mode, BindingMode::Gamepad);
    let events = state.update(&[BindingClicks { input: 1u32, left: 3, right: 3 }], true, Some(2), false);
    assert!(events.is_empty());
    assert_eq!(state.gamepad_binding_option, GamepadBindingOption::MenuButtons);
}

fn settings() -> NetworkingSettings {
    NetworkingSettings {
        username: String::new(),
        default_server: String::new(),
        servers: vec![],
        trusted_auth_servers: vec!["auth.net".into()],
        use_srv: false,
        use_quic: false,
        validate_tls: true,
    }
}

#[test]
fn menu_close_and_quit_shut_down() {
    let mut s = settings();
    assert!(matches!(menu_step(&mut s, InitPhase::Connecting, MenuEvent::Close, "h"), (InitPhase::Connecting, MenuAction::Shutdown)));
    assert!(matches!(menu_step(&mut s, InitPhase::Idle, MenuEvent::Quit, "h"), (InitPhase::Idle, MenuAction::Shutdown)));
}

#[test]
fn menu_connection_phases() {
    let mut s = settings();
    let login = |name: &str| MenuEvent::LoginAttempt {
        username: name.into(),
        server_address: "srv.net".into(),
        alias_check: Ok(()),
        max_alias_len: 32,
    };
    let (phase, action) = menu_step(&mut s, InitPhase::Idle, login("bob"), "h");
    assert_eq!(phase, InitPhase::Connecting);
    assert!(matches!(action, MenuAction::Connect(ConnectionArgs::Tcp { hostname, .. }) if hostname == "srv.net"));
    assert!(matches!(menu_step(&mut s, phase, login("bob"), "h"), (InitPhase::Connecting, MenuAction::Continue)));
    let (phase, _) = menu_step(&mut s, phase, MenuEvent::ClientReady, "h");
    assert_eq!(phase, InitPhase::Pipeline);
    let (phase, action) = menu_step(&mut s, phase, MenuEvent::PipelinesReady { can_spectate: true, can_enter_character: false }, "h");
    assert_eq!(phase, InitPhase::Idle);
    assert!(matches!(action, MenuAction::Spectate));
    let (_, action) = menu_step(&mut s, InitPhase::Pipeline, MenuEvent::ServerDisconnected, "h");
    assert!(matches!(action, MenuAction::ShowInfo(LocalizedText::Msg(MsgKey::ServerShutDown))));
    let (phase, action) = menu_step(&mut s, InitPhase::Pipeline, MenuEvent::ClientTickFailed(ClientError::ServerTimeout), "h");
    assert_eq!(phase, InitPhase::Idle);
    assert!(matches!(action, MenuAction::ShowInfo(LocalizedText::Msg(MsgKey::Timeout))));
    let (phase, action) = menu_step(&mut s, InitPhase::Connecting, MenuEvent::ClientFailed(InitError::ServerNotFound), "h");
    assert_eq!(phase, InitPhase::Idle);
    assert!(matches!(action, MenuAction::ShowInitFailure(LocalizedText::Msg(MsgKey::ServerNotFound))));
    let (phase, action) = menu_step(&mut s, InitPhase::Idle, MenuEvent::ClientReady, "h");
    assert_eq!(phase, InitPhase::Idle);
    assert!(matches!(action, MenuAction::Continue));
}

#[test]
fn menu_bad_name_and_auth_trust() {
    let mut s = settings();
    let (phase, action) = menu_step(
        &mut s,
        InitPhase::Idle,
        MenuEvent::LoginAttempt {
            username: "x".into(),
            server_address: "".into(),
            alias_check: Err(AliasError::TooLong),
            max_alias_len: 5,
        },
        "h",
    );
    assert_eq!(phase, InitPhase::Idle);
    assert!(matches!(action, MenuAction::ShowInfo(LocalizedText::UsernameTooLong { max_len: 5 })));
    let (_, a) = menu_step(&mut s, InitPhase::Connecting, MenuEvent::IsAuthTrusted("auth.net".into()), "h");
    assert!(matches!(a, MenuAction::AnswerAuthTrust(srv, true) if srv == "auth.net"));
    let (_, a) = menu_step(&mut s, InitPhase::Connecting, MenuEvent::IsAuthTrusted("other.net".into()), "h");
    assert!(matches!(a, MenuAction::PromptAuthTrust(srv) if srv == "other.net"));
    let (_, a) = menu_step(&mut s, InitPhase::Connecting, MenuEvent::AuthServerTrust("other.net".into(), true), "h");
    assert!(matches!(a, MenuAction::AnswerAuthTrust(srv, true) if srv == "other.net"));
    assert_eq!(s.trusted_auth_servers, vec!["auth.net".to_string(), "other.net".to_string()]);
}

#[test]
fn typed_text_loses_line_breaks() {
    let mut input = ChatInput::new();
    input.set_typed("a\nb\n");
    assert_eq!(input.message, "ab");
}

#[test]
fn whole_chat_frame() {

    let mut input = ChatInput::new();
    input.history = vec!["older".to_string()].into();
    let mut messages: VecDeque<ChatMsg> = vec![msg("m")].into();
    let mut waiting: VecDeque<ChatMsg> = vec![msg("w")].into();
    // Up shows the last line; Enter sends it.
    let (events, cursor, scroll) = input.frame(
        &mut messages, &mut waiting, false, None, &[ChatKey::Up], None, None, false, &[true], true, false, '/', 32,
    );
    assert_eq!(contents(&messages), vec!["m".to_string(), "w".to_string()]);
    assert!(waiting.is_empty());
    assert_eq!(cursor, Some(5));
    assert!(scroll);
    assert!(matches!(&events[..], [ChatEvent::DisableForceChat, ChatEvent::SendMessage(m)] if m == "older"));
    // A completed chat-mode command is sent first; typed text replaces the input.
    input.message = "/w ".into();
    let (events, _, _) = input.frame(
        &mut messages, &mut waiting, true, None, &[], None, Some("hi\n".into()), false, &[], false, false, '/', 32,
    );
    assert!(messages.is_empty());
    assert!(matches!(&events[..], [ChatEvent::SendCommand(n, a)] if n == "w" && a.is_empty()));
    assert_eq!(input.message, "hi");
}
