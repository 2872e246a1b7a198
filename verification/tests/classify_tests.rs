use cunzhi::classify::{
    classify_update, first_message_conversation, keyboard_buttons, toggle_payload, DomainEvent,
    Update, UpdateKind,
};

fn options(labels: &[&str]) -> Vec<String> {
    labels.iter().map(|s| s.to_string()).collect()
}

fn button(payload: &str, conversation: i64) -> UpdateKind {
    UpdateKind::ButtonPress {
        payload: payload.to_string(),
        message_id: 10,
        conversation,
    }
}

fn message(text: &str, conversation: i64) -> UpdateKind {
    UpdateKind::Message {
        text: text.to_string(),
        message_id: 20,
        conversation,
        has_toggle_markup: false,
    }
}

#[test]
fn known_toggle_payload_yields_toggle_event() {
    let opts = options(&["A", "B"]);
    let ev = classify_update(&opts, &Vec::new(), 7, None, &button("toggle:A", 7));
    match ev {
        DomainEvent::OptionToggled { option, now_selected } => {
            assert_eq!(option, "A");
            assert!(now_selected);
        }
        other => panic!("expected a toggle, got {:?}", kind_name(&other)),
    }
}

#[test]
fn toggling_an_already_selected_option_deselects() {
    let opts = options(&["A", "B"]);
    let selected = options(&["A"]);
    let ev = classify_update(&opts, &selected, 7, None, &button("toggle:A", 7));
    match ev {
        DomainEvent::OptionToggled { option, now_selected } => {
            assert_eq!(option, "A");
            assert!(!now_selected);
        }
        other => panic!("expected a toggle, got {:?}", kind_name(&other)),
    }
}

#[test]
fn unknown_toggle_label_is_ignored() {
    let opts = options(&["A", "B"]);
    let ev = classify_update(&opts, &Vec::new(), 7, None, &button("toggle:Z", 7));
    assert!(matches!(ev, DomainEvent::Ignored));
}

#[test]
fn payload_without_toggle_prefix_is_ignored() {
    let opts = options(&["A"]);
    let ev = classify_update(&opts, &Vec::new(), 7, None, &button("other:A", 7));
    assert!(matches!(ev, DomainEvent::Ignored));
}

#[test]
fn button_press_without_predefined_options_is_ignored() {
    let no_options: Vec<String> = Vec::new();
    let ev = classify_update(&no_options, &Vec::new(), 7, None, &button("toggle:A", 7));
    assert!(matches!(ev, DomainEvent::Ignored));
}

#[test]
fn foreign_conversation_is_always_ignored() {
    let opts = options(&["A"]);
    let ev = classify_update(&opts, &Vec::new(), 7, None, &button("toggle:A", 8));
    assert!(matches!(ev, DomainEvent::Ignored));
    let ev2 = classify_update(&opts, &Vec::new(), 7, None, &message("Send", 8));
    assert!(matches!(ev2, DomainEvent::Ignored));
    let ev3 = classify_update(&opts, &Vec::new(), 7, None, &message("some note", 8));
    assert!(matches!(ev3, DomainEvent::Ignored));
}

#[test]
fn send_token_yields_send_pressed() {
    let ev = classify_update(&Vec::new(), &Vec::new(), 7, None, &message("Send", 7));
    assert!(matches!(ev, DomainEvent::SendPressed));
}

#[test]
fn continue_token_yields_continue_pressed() {
    let ev = classify_update(&Vec::new(), &Vec::new(), 7, None, &message("Continue", 7));
    assert!(matches!(ev, DomainEvent::ContinuePressed));
}

#[test]
fn token_match_is_case_sensitive() {
    let ev = classify_update(&Vec::new(), &Vec::new(), 7, None, &message("send", 7));
    match ev {
        DomainEvent::TextUpdated { text } => assert_eq!(text, "send"),
        other => panic!("expected text, got {:?}", kind_name(&other)),
    }
}

#[test]
fn other_text_replaces_the_buffer() {
    let ev = classify_update(&Vec::new(), &Vec::new(), 7, None, &message("a note", 7));
    match ev {
        DomainEvent::TextUpdated { text } => assert_eq!(text, "a note"),
        other => panic!("expected text, got {:?}", kind_name(&other)),
    }
}

#[test]
fn empty_text_is_ignored() {
    let ev = classify_update(&Vec::new(), &Vec::new(), 7, None, &message("", 7));
    assert!(matches!(ev, DomainEvent::Ignored));
}

#[test]
fn message_with_toggle_markup_is_not_a_text_event() {
    let opts = options(&["A"]);
    let markup_message = UpdateKind::Message {
        text: "choose".to_string(),
        message_id: 5,
        conversation: 7,
        has_toggle_markup: true,
    };
    let ev = classify_update(&opts, &Vec::new(), 7, None, &markup_message);
    assert!(matches!(ev, DomainEvent::Ignored));
}

#[test]
fn messages_before_the_cutoff_are_ignored() {
    let early = UpdateKind::Message {
        text: "old note".to_string(),
        message_id: 3,
        conversation: 7,
        has_toggle_markup: false,
    };
    let ev = classify_update(&Vec::new(), &Vec::new(), 7, Some(5), &early);
    assert!(matches!(ev, DomainEvent::Ignored));
    // at or after the cutoff the message counts
    let ev2 = classify_update(&Vec::new(), &Vec::new(), 7, Some(5), &message("new note", 7));
    assert!(matches!(ev2, DomainEvent::TextUpdated { .. }));
}

#[test]
fn built_payload_round_trips_through_classification() {
    let opts = options(&["first choice", "second choice"]);
    let payload = toggle_payload("second choice");
    assert_eq!(payload, "toggle:second choice");
    let ev = classify_update(&opts, &Vec::new(), 7, None, &button(&payload, 7));
    match ev {
        DomainEvent::OptionToggled { option, .. } => assert_eq!(option, "second choice"),
        other => panic!("expected a toggle, got {:?}", kind_name(&other)),
    }
}

#[test]
fn keyboard_marks_selected_options() {
    let opts = options(&["A", "B"]);
    let selected = options(&["B"]);
    let buttons = keyboard_buttons(&opts, &selected);
    assert_eq!(buttons.len(), 2);
    assert_eq!(buttons[0].label, "A");
    assert_eq!(buttons[0].payload, "toggle:A");
    assert_eq!(buttons[1].label, "[x] B");
    assert_eq!(buttons[1].payload, "toggle:B");
}

#[test]
fn first_message_conversation_finds_the_first_message() {
    let updates = vec![
        Update { update_id: 1, kind: button("toggle:A", 5) },
        Update { update_id: 2, kind: message("hi", 42) },
        Update { update_id: 3, kind: message("later", 43) },
    ];
    assert_eq!(first_message_conversation(&updates), Some(42));
    let none = vec![Update { update_id: 1, kind: UpdateKind::Other }];
    assert_eq!(first_message_conversation(&none), None);
}

fn kind_name(ev: &DomainEvent) -> &'static str {
    match ev {
        DomainEvent::OptionToggled { .. } => "OptionToggled",
        DomainEvent::TextUpdated { .. } => "TextUpdated",
        DomainEvent::SendPressed => "SendPressed",
        DomainEvent::ContinuePressed => "ContinuePressed",
        DomainEvent::Ignored => "Ignored",
    }
}
