use cunzhi::registry::{ChannelEndpoint, ChannelRegistry, RegistryError};

fn endpoint(name: &str) -> ChannelEndpoint {
    ChannelEndpoint {
        name: name.to_string(),
        bot_token: format!("{}-token", name),
        chat_id: "100".to_string(),
        api_base_url: "https://api.telegram.org".to_string(),
    }
}

#[test]
fn add_then_get() {
    let mut reg = ChannelRegistry::new();
    assert!(reg.add(endpoint("alpha")).is_ok());
    let got = reg.get("alpha").expect("alpha must resolve");
    assert_eq!(got.name, "alpha");
    assert_eq!(got.bot_token, "alpha-token");
    assert!(reg.get("beta").is_none());
}

#[test]
fn add_duplicate_name_is_refused() {
    let mut reg = ChannelRegistry::new();
    assert!(reg.add(endpoint("alpha")).is_ok());
    assert_eq!(reg.add(endpoint("alpha")), Err(RegistryError::DuplicateName));
    assert_eq!(reg.endpoints.len(), 1);
}

#[test]
fn remove_missing_is_refused() {
    let mut reg = ChannelRegistry::new();
    assert_eq!(reg.remove("ghost"), Err(RegistryError::NotFound));
}

#[test]
fn remove_deletes_bindings_to_that_endpoint() {
    let mut reg = ChannelRegistry::new();
    reg.add(endpoint("alpha")).unwrap();
    reg.add(endpoint("beta")).unwrap();
    reg.bind_session("s1", "alpha").unwrap();
    reg.bind_session("s2", "beta").unwrap();

    reg.remove("alpha").unwrap();

    assert!(reg.get("alpha").is_none());
    assert!(reg.resolve_for_session("s1").is_none());
    let kept = reg.resolve_for_session("s2").expect("s2 stays bound");
    assert_eq!(kept.name, "beta");
    // no binding value names a missing endpoint
    for b in &reg.bindings {
        assert!(reg.get(&b.channel_name).is_some());
    }
}

#[test]
fn rename_or_update_replaces_endpoint() {
    let mut reg = ChannelRegistry::new();
    reg.add(endpoint("alpha")).unwrap();
    let renamed = endpoint("gamma");
    reg.rename_or_update("alpha", renamed).unwrap();
    assert!(reg.get("alpha").is_none());
    assert!(reg.get("gamma").is_some());
}

#[test]
fn rename_missing_is_refused() {
    let mut reg = ChannelRegistry::new();
    assert_eq!(
        reg.rename_or_update("ghost", endpoint("gamma")),
        Err(RegistryError::NotFound)
    );
}

#[test]
fn rename_into_existing_name_is_refused_atomically() {
    let mut reg = ChannelRegistry::new();
    reg.add(endpoint("alpha")).unwrap();
    reg.add(endpoint("beta")).unwrap();
    assert_eq!(
        reg.rename_or_update("alpha", endpoint("beta")),
        Err(RegistryError::DuplicateName)
    );
    // nothing was applied
    assert!(reg.get("alpha").is_some());
    assert!(reg.get("beta").is_some());
    assert_eq!(reg.endpoints.len(), 2);
}

#[test]
fn rename_drops_bindings_to_old_name() {
    let mut reg = ChannelRegistry::new();
    reg.add(endpoint("alpha")).unwrap();
    reg.bind_session("s1", "alpha").unwrap();
    reg.rename_or_update("alpha", endpoint("gamma")).unwrap();
    assert!(reg.resolve_for_session("s1").is_none());
}

#[test]
fn set_default_unknown_is_refused() {
    let mut reg = ChannelRegistry::new();
    assert_eq!(reg.set_default("ghost"), Err(RegistryError::NotFound));
}

#[test]
fn get_default_without_endpoints_fails() {
    let reg = ChannelRegistry::new();
    assert_eq!(
        reg.get_default().err(),
        Some(RegistryError::NoChannelConfigured)
    );
}

#[test]
fn get_default_falls_back_to_first_endpoint() {
    let mut reg = ChannelRegistry::new();
    reg.add(endpoint("alpha")).unwrap();
    reg.add(endpoint("beta")).unwrap();
    // no default named: the first registered endpoint serves
    assert_eq!(reg.get_default().unwrap().name, "alpha");
    reg.set_default("beta").unwrap();
    assert_eq!(reg.get_default().unwrap().name, "beta");
}

#[test]
fn bind_session_unknown_channel_is_refused() {
    let mut reg = ChannelRegistry::new();
    assert_eq!(reg.bind_session("s1", "ghost"), Err(RegistryError::NotFound));
}

#[test]
fn bind_session_overwrites_previous_binding() {
    let mut reg = ChannelRegistry::new();
    reg.add(endpoint("alpha")).unwrap();
    reg.add(endpoint("beta")).unwrap();
    reg.bind_session("s1", "alpha").unwrap();
    reg.bind_session("s1", "beta").unwrap();
    assert_eq!(reg.resolve_for_session("s1").unwrap().name, "beta");
    assert_eq!(reg.bindings.len(), 1);
}

#[test]
fn unbind_session_removes_binding() {
    let mut reg = ChannelRegistry::new();
    reg.add(endpoint("alpha")).unwrap();
    reg.bind_session("s1", "alpha").unwrap();
    reg.unbind_session("s1").unwrap();
    assert!(reg.resolve_for_session("s1").is_none());
    assert_eq!(reg.unbind_session("s1"), Err(RegistryError::NotFound));
}

#[test]
fn record_pending_twice_leaves_one_entry() {
    let mut reg = ChannelRegistry::new();
    reg.record_pending("s1");
    reg.record_pending("s1");
    assert_eq!(reg.pending.len(), 1);
    assert_eq!(reg.pending[0], "s1");
}

#[test]
fn bind_session_removes_pending_entry() {
    let mut reg = ChannelRegistry::new();
    reg.add(endpoint("alpha")).unwrap();
    reg.record_pending("s1");
    assert_eq!(reg.pending.len(), 1);
    reg.bind_session("s1", "alpha").unwrap();
    assert_eq!(reg.pending.len(), 0);
}

#[test]
fn record_pending_of_bound_session_is_a_no_op() {
    let mut reg = ChannelRegistry::new();
    reg.add(endpoint("alpha")).unwrap();
    reg.bind_session("s1", "alpha").unwrap();
    reg.record_pending("s1");
    assert_eq!(reg.pending.len(), 0);
}

#[test]
fn dequeue_pending_removes_entry() {
    let mut reg = ChannelRegistry::new();
    reg.record_pending("s1");
    assert!(reg.dequeue_pending("s1"));
    assert_eq!(reg.pending.len(), 0);
    assert!(!reg.dequeue_pending("s1"));
}
