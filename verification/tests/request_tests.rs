use cunzhi::tools::{dispatch_tool, enabled_tool_names, tool_enabled, ToolDispatch, ToolToggle,
    ToolToggles};
use cunzhi::types::{default_category, make_popup_request, resolve_session_id};
use cunzhi::default_is_markdown;

fn toggles(entries: &[(&str, bool)]) -> ToolToggles {
    ToolToggles {
        entries: entries
            .iter()
            .map(|(n, e)| ToolToggle { name: n.to_string(), enabled: *e })
            .collect(),
    }
}

#[test]
fn defaults_are_fixed() {
    assert!(default_is_markdown());
    assert_eq!(default_category(), "context");
}

#[test]
fn session_id_prefers_the_request_parameter() {
    let r = resolve_session_id(
        &Some("/work/project".to_string()),
        &Some("env-session".to_string()),
        &Some("/somewhere".to_string()),
        &Some("/elsewhere".to_string()),
        "generated",
    );
    assert_eq!(r, "/work/project");
}

#[test]
fn session_id_falls_back_in_order() {
    let r = resolve_session_id(
        &None,
        &None,
        &Some("/from-env".to_string()),
        &Some("/cwd".to_string()),
        "generated",
    );
    assert_eq!(r, "/from-env");
    let r2 = resolve_session_id(&None, &None, &None, &None, "generated");
    assert_eq!(r2, "generated");
}

#[test]
fn session_id_trailing_slashes_are_trimmed() {
    let r = resolve_session_id(
        &Some("/work/project///".to_string()),
        &None,
        &None,
        &None,
        "generated",
    );
    assert_eq!(r, "/work/project");
}

#[test]
fn popup_request_turns_empty_options_into_absence() {
    let r = make_popup_request(
        "id-1".to_string(),
        "hello".to_string(),
        Vec::new(),
        true,
        Some("s1".to_string()),
    );
    assert!(r.predefined_options.is_none());
    assert!(r.bot_name.is_none());
    assert_eq!(r.session_id.as_deref(), Some("s1"));
    assert_eq!(r.id, "id-1");
    assert_eq!(r.message, "hello");
    assert!(r.is_markdown);
}

#[test]
fn popup_request_keeps_nonempty_options() {
    let r = make_popup_request(
        "id-1".to_string(),
        "hello".to_string(),
        vec!["A".to_string()],
        false,
        None,
    );
    assert_eq!(r.predefined_options, Some(vec!["A".to_string()]));
    assert!(!r.is_markdown);
}

#[test]
fn tools_default_to_enabled() {
    let empty = toggles(&[]);
    assert!(tool_enabled(&empty, "ji"));
    assert!(tool_enabled(&empty, "sou"));
}

#[test]
fn a_switch_turns_a_tool_off() {
    let t = toggles(&[("ji", false), ("sou", true)]);
    assert!(!tool_enabled(&t, "ji"));
    assert!(tool_enabled(&t, "sou"));
}

#[test]
fn interaction_tool_is_always_dispatched() {
    let t = toggles(&[("zhi", false)]);
    // even a switch cannot turn the required tool off
    assert_eq!(dispatch_tool("zhi", &t), ToolDispatch::RunInteraction);
}

#[test]
fn disabled_tools_report_disabled() {
    let t = toggles(&[("ji", false)]);
    assert_eq!(dispatch_tool("ji", &t), ToolDispatch::ToolDisabled);
    assert_eq!(dispatch_tool("sou", &t), ToolDispatch::RunSearch);
}

#[test]
fn unknown_tool_names_are_rejected() {
    let t = toggles(&[]);
    assert_eq!(dispatch_tool("nothing", &t), ToolDispatch::UnknownTool);
}

#[test]
fn listed_tools_follow_the_switches() {
    let all = toggles(&[]);
    assert_eq!(enabled_tool_names(&all), vec!["zhi", "ji", "sou"]);
    let no_memory = toggles(&[("ji", false)]);
    assert_eq!(enabled_tool_names(&no_memory), vec!["zhi", "sou"]);
    let only_interaction = toggles(&[("ji", false), ("sou", false)]);
    assert_eq!(enabled_tool_names(&only_interaction), vec!["zhi"]);
}
