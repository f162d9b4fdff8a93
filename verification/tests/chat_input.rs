use std::collections::VecDeque;
use veloren_logic::chat::ChatType;
use veloren_logic::chat_input::{is_chat_mode_command, key_directions, ChatInput, ChatKey, SentLine};

#[test]
fn key_directions_fold() {
    assert_eq!(key_directions(&[]), (0, 0, false));
    assert_eq!(key_directions(&[ChatKey::Up, ChatKey::Up, ChatKey::Tab]), (2, -1, false));
    assert_eq!(key_directions(&[ChatKey::Down, ChatKey::Other]), (-1, 1, true));
}

fn input_with_history(lines: &[&str]) -> ChatInput {
    let mut input = ChatInput::new();
    input.history = lines.iter().map(|s| s.to_string()).collect::<VecDeque<_>>();
    input
}

#[test]
fn browsing_history() {
    let mut input = input_with_history(&["newest", "older", "oldest"]);
    assert_eq!(input.browse_history(1), Some(6));
    assert_eq!(input.message, "newest");
    assert_eq!(input.browse_history(1), Some(5));
    assert_eq!(input.message, "older");
    input.browse_history(1);
    assert_eq!(input.browse_history(1), Some(6));
    assert_eq!(input.message, "oldest");
    assert_eq!(input.history_pos, 3);
    input.browse_history(-1);
    input.browse_history(-1);
    assert_eq!(input.browse_history(-1), None);
    assert_eq!(input.message, "");
    assert_eq!(input.history_pos, 0);
    assert_eq!(input.browse_history(0), None);
}

#[test]
fn history_length_is_in_bytes() {
    let mut input = input_with_history(&["héé"]);
    assert_eq!(input.browse_history(1), Some(5));
}

#[test]
fn no_browsing_while_completing() {
    let mut input = input_with_history(&["a"]);
    input.completion_cursor = Some(0);
    input.message = "x".into();
    assert_eq!(input.browse_history(1), None);
    assert_eq!(input.message, "x");
}

#[test]
fn tab_completion_flow() {
    let mut input = ChatInput::new();
    input.message = "/say he\t".into();
    let step = input.update_tab_completion(false, 1);
    assert!(step.request_completions);
    assert_eq!(input.completion_cursor, Some(7));
    input.completions = vec!["hello".into(), "help".into()];
    let step = input.update_tab_completion(false, 0);
    assert_eq!(input.message, "/say hello");
    assert_eq!(input.completions_index, Some(0));
    assert_eq!(step.cursor_offset, Some(10));
    input.update_tab_completion(false, 1);
    assert_eq!(input.message, "/say help");
    assert_eq!(input.completions_index, Some(1));
    input.update_tab_completion(false, 1);
    assert_eq!(input.message, "/say hello");
    input.update_tab_completion(false, -1);
    assert_eq!(input.message, "/say help");
    input.update_tab_completion(true, 0);
    assert_eq!(input.completion_cursor, None);
    assert_eq!(input.completions_index, None);
    assert_eq!(input.message, "/say help");
}

#[test]
fn tab_position_is_a_byte_offset() {
    let mut input = ChatInput::new();
    input.message = "ää\t".into();
    input.update_tab_completion(false, 1);
    assert_eq!(input.completion_cursor, Some(4));
}

#[test]
fn completion_without_candidates_drops_tabs() {
    let mut input = ChatInput::new();
    input.message = "a\tb\t".into();
    input.completion_cursor = Some(1);
    let step = input.update_tab_completion(false, 1);
    assert_eq!(input.message, "ab");
    assert_eq!(step.cursor_offset, None);
}

#[test]
fn chat_mode_commands() {
    assert!(is_chat_mode_command("group"));
    assert!(is_chat_mode_command("w"));
    assert!(!is_chat_mode_command("tell"));
    let mut input = ChatInput::new();
    input.message = "/region ".into();
    let r = input.chat_mode_command('/');
    assert_eq!(r, Some(("region".to_string(), vec![])));
    assert_eq!(input.message, "");
    input.message = "/say hi ".into();
    assert_eq!(input.chat_mode_command('/'), None);
    assert_eq!(input.message, "/say hi ");
    input.message = "/say".into();
    assert_eq!(input.chat_mode_command('/'), None);
    input.message = "say ".into();
    assert_eq!(input.chat_mode_command('/'), None);
}

#[test]
fn submitting_lines() {
    let mut input = ChatInput::new();
    assert!(input.submit('/', 32).is_none());
    input.message = "hello".into();
    match input.submit('/', 32) {
        Some(SentLine::Message(m)) => assert_eq!(m, "hello"),
        other => panic!("{:?}", other),
    }
    assert_eq!(input.message, "");
    input.message = "hello".into();
    input.submit('/', 32);
    assert_eq!(input.history.len(), 1);
    input.message = "/tp \"a b\" c".into();
    match input.submit('/', 32) {
        Some(SentLine::Command(name, args)) => {
            assert_eq!(name, "tp");
            assert_eq!(args, vec!["a b".to_string(), "c".to_string()]);
        },
        other => panic!("{:?}", other),
    }
    input.message = "/9".into();
    match input.submit('/', 32) {
        Some(SentLine::CommandError(m)) => {
            assert!(matches!(m.chat_type, ChatType::CommandError));
            assert_eq!(m.content, "found \"9\"");
        },
        other => panic!("{:?}", other),
    }
    assert_eq!(input.history, VecDeque::from(vec!["/9".to_string(), "/tp \"a b\" c".to_string(), "hello".to_string()]));
    input.message = "x".into();
    input.submit('/', 2);
    assert_eq!(input.history, VecDeque::from(vec!["x".to_string(), "/9".to_string()]));
    assert_eq!(input.history_pos, 0);
}

#[test]
fn stepping_back_past_all_candidates_wraps_the_word() {
    let mut input = ChatInput::new();
    input.message = "x\t".into();
    input.completion_cursor = Some(1);
    input.completions = vec!["a".into(), "b".into(), "c".into()];
    // the step -5 + 3 taken as a usize is usize::MAX - 1
    let expected = (usize::MAX - 1) % 3;
    input.update_tab_completion(false, -5);
    assert_eq!(input.completions_index, Some(expected));
}
