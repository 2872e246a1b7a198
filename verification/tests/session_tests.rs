use cunzhi::classify::{DomainEvent, Update, UpdateKind};
use cunzhi::registry::ChannelEndpoint;
use cunzhi::session::{InteractionSession, SessionPhase, StepAction};

fn endpoint() -> ChannelEndpoint {
    ChannelEndpoint {
        name: "alpha".to_string(),
        bot_token: "token".to_string(),
        chat_id: "7".to_string(),
        api_base_url: "https://api.telegram.org".to_string(),
    }
}

fn session(options: &[&str]) -> InteractionSession {
    let mut s = InteractionSession::new(
        "req-1".to_string(),
        endpoint(),
        7,
        options.iter().map(|o| o.to_string()).collect(),
        true,
    );
    s.mark_posted(Some(2));
    s
}

fn toggle_update(id: u32, label: &str) -> Update {
    Update {
        update_id: id,
        kind: UpdateKind::ButtonPress {
            payload: format!("toggle:{}", label),
            message_id: 1,
            conversation: 7,
        },
    }
}

fn text_update(id: u32, text: &str) -> Update {
    Update {
        update_id: id,
        kind: UpdateKind::Message {
            text: text.to_string(),
            message_id: 30,
            conversation: 7,
            has_toggle_markup: false,
        },
    }
}

#[test]
fn new_session_starts_in_posting_phase() {
    let s = InteractionSession::new("req-1".to_string(), endpoint(), 7, Vec::new(), false);
    assert_eq!(s.phase, SessionPhase::Posting);
    assert_eq!(s.cursor, 0);
    assert!(s.get_selected_options().is_empty());
    assert_eq!(s.get_user_input(), "");
}

#[test]
fn mark_posted_starts_polling_with_the_cutoff() {
    let s = session(&["A"]);
    assert_eq!(s.phase, SessionPhase::Polling);
    assert_eq!(s.operation_message_id, Some(2));
}

#[test]
fn toggling_selects_and_toggling_again_restores() {
    let mut s = session(&["A", "B"]);
    let (ev, _) = s.process_update(&toggle_update(1, "A"));
    assert!(matches!(ev, DomainEvent::OptionToggled { .. }));
    assert_eq!(s.get_selected_options(), vec!["A".to_string()]);

    let (_, _) = s.process_update(&toggle_update(2, "A"));
    assert!(s.get_selected_options().is_empty());
}

#[test]
fn toggle_pair_keeps_other_selections() {
    let mut s = session(&["A", "B"]);
    s.process_update(&toggle_update(1, "B"));
    s.process_update(&toggle_update(2, "A"));
    s.process_update(&toggle_update(3, "A"));
    assert_eq!(s.get_selected_options(), vec!["B".to_string()]);
}

#[test]
fn unknown_toggle_label_changes_nothing() {
    let mut s = session(&["A", "B"]);
    s.process_update(&toggle_update(1, "A"));
    let before = s.get_selected_options();
    let (ev, action) = s.process_update(&toggle_update(2, "Z"));
    assert!(matches!(ev, DomainEvent::Ignored));
    assert_eq!(action, StepAction::Idle);
    assert_eq!(s.get_selected_options(), before);
}

#[test]
fn foreign_conversation_update_changes_nothing() {
    let mut s = session(&["A"]);
    let foreign = Update {
        update_id: 1,
        kind: UpdateKind::ButtonPress {
            payload: "toggle:A".to_string(),
            message_id: 1,
            conversation: 999,
        },
    };
    let (ev, _) = s.process_update(&foreign);
    assert!(matches!(ev, DomainEvent::Ignored));
    assert!(s.get_selected_options().is_empty());
    // but the cursor still advances past the update
    assert_eq!(s.cursor, 2);
}

#[test]
fn text_updates_replace_the_buffer() {
    let mut s = session(&[]);
    s.process_update(&text_update(1, "first"));
    assert_eq!(s.get_user_input(), "first");
    s.process_update(&text_update(2, "second"));
    assert_eq!(s.get_user_input(), "second");
}

#[test]
fn send_completes_the_session() {
    let mut s = session(&["A"]);
    let (ev, action) = s.process_update(&text_update(1, "Send"));
    assert!(matches!(ev, DomainEvent::SendPressed));
    assert_eq!(action, StepAction::Commit { continued: false });
    assert_eq!(s.phase, SessionPhase::Completed);
}

#[test]
fn continue_completes_the_session() {
    let mut s = session(&["A"]);
    let (ev, action) = s.process_update(&text_update(1, "Continue"));
    assert!(matches!(ev, DomainEvent::ContinuePressed));
    assert_eq!(action, StepAction::Commit { continued: true });
    assert_eq!(s.phase, SessionPhase::Completed);
}

#[test]
fn cursor_never_rewinds() {
    let mut s = session(&["A"]);
    s.process_update(&toggle_update(5, "A"));
    assert_eq!(s.cursor, 6);
    // an update with a smaller id must not pull the cursor back
    s.process_update(&toggle_update(3, "A"));
    assert_eq!(s.cursor, 6);
    s.process_update(&toggle_update(9, "A"));
    assert_eq!(s.cursor, 10);
}

#[test]
fn advance_cursor_is_monotone_on_its_own() {
    let mut s = session(&[]);
    s.advance_cursor(10);
    assert_eq!(s.cursor, 11);
    s.advance_cursor(4);
    assert_eq!(s.cursor, 11);
}

#[test]
fn cursor_survives_the_largest_update_id() {
    let mut s = session(&[]);
    s.advance_cursor(u32::MAX);
    assert_eq!(s.cursor, u32::MAX as u64 + 1);
    s.advance_cursor(0);
    assert_eq!(s.cursor, u32::MAX as u64 + 1);
}

#[test]
fn toggle_after_anchor_discovery_requests_markup_refresh() {
    let mut s = session(&["A"]);
    // the button press itself reveals the interactive message's id
    let (_, action) = s.process_update(&toggle_update(1, "A"));
    assert_eq!(s.options_message_id, Some(1));
    assert_eq!(action, StepAction::RefreshMarkup { message_id: 1 });
}

#[test]
fn markup_message_reanchors_the_interactive_message() {
    let mut s = session(&["A"]);
    let markup = Update {
        update_id: 1,
        kind: UpdateKind::Message {
            text: "choose".to_string(),
            message_id: 17,
            conversation: 7,
            has_toggle_markup: true,
        },
    };
    let (ev, _) = s.process_update(&markup);
    assert!(matches!(ev, DomainEvent::Ignored));
    assert_eq!(s.options_message_id, Some(17));
}

#[test]
fn messages_before_the_operation_message_are_noise() {
    let mut s = session(&[]);
    // the session's cutoff is message id 2; a message from before it
    let stale = Update {
        update_id: 1,
        kind: UpdateKind::Message {
            text: "stale".to_string(),
            message_id: 1,
            conversation: 7,
            has_toggle_markup: false,
        },
    };
    let (ev, _) = s.process_update(&stale);
    assert!(matches!(ev, DomainEvent::Ignored));
    assert_eq!(s.get_user_input(), "");
}
