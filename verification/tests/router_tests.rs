use cunzhi::registry::{ChannelEndpoint, ChannelRegistry};
use cunzhi::router::{route, RouteError};

fn endpoint(name: &str, chat: &str) -> ChannelEndpoint {
    ChannelEndpoint {
        name: name.to_string(),
        bot_token: format!("{}-token", name),
        chat_id: chat.to_string(),
        api_base_url: "https://api.telegram.org".to_string(),
    }
}

#[test]
fn explicit_name_wins_over_binding_and_default() {
    let mut reg = ChannelRegistry::new();
    reg.add(endpoint("alpha", "1")).unwrap();
    reg.add(endpoint("beta", "2")).unwrap();
    reg.add(endpoint("gamma", "3")).unwrap();
    reg.set_default("gamma").unwrap();
    // the session is bound to beta, but the explicit name must win
    reg.bind_session("s1", "beta").unwrap();

    let explicit = "alpha".to_string();
    let sid = "s1".to_string();
    let got = route(&mut reg, Some(&explicit), Some(&sid)).unwrap();
    assert_eq!(got.name, "alpha");
    // and nothing was queued
    assert_eq!(reg.pending.len(), 0);
}

#[test]
fn explicit_unknown_name_is_a_hard_error() {
    let mut reg = ChannelRegistry::new();
    reg.add(endpoint("alpha", "1")).unwrap();
    let explicit = "ghost".to_string();
    let sid = "s1".to_string();
    // it must not fall through to the default
    assert_eq!(
        route(&mut reg, Some(&explicit), Some(&sid)).err(),
        Some(RouteError::UnknownChannel)
    );
}

#[test]
fn bound_session_routes_to_its_channel() {
    let mut reg = ChannelRegistry::new();
    reg.add(endpoint("alpha", "1")).unwrap();
    reg.add(endpoint("beta", "2")).unwrap();
    reg.bind_session("s1", "beta").unwrap();
    let sid = "s1".to_string();
    let got = route(&mut reg, None, Some(&sid)).unwrap();
    assert_eq!(got.name, "beta");
    assert_eq!(reg.pending.len(), 0);
}

#[test]
fn unbound_session_degrades_to_default_and_is_queued() {
    let mut reg = ChannelRegistry::new();
    reg.add(endpoint("alpha", "1")).unwrap();
    reg.set_default("alpha").unwrap();
    let sid = "fresh-session".to_string();
    let got = route(&mut reg, None, Some(&sid)).unwrap();
    assert_eq!(got.name, "alpha");
    assert_eq!(reg.pending, vec!["fresh-session".to_string()]);

    // routing the same session again queues nothing more
    let got2 = route(&mut reg, None, Some(&sid)).unwrap();
    assert_eq!(got2.name, "alpha");
    assert_eq!(reg.pending.len(), 1);
}

#[test]
fn no_channel_at_all_is_an_error() {
    let mut reg = ChannelRegistry::new();
    assert_eq!(
        route(&mut reg, None, None).err(),
        Some(RouteError::NoChannelConfigured)
    );
    let sid = "s1".to_string();
    assert_eq!(
        route(&mut reg, None, Some(&sid)).err(),
        Some(RouteError::NoChannelConfigured)
    );
}

#[test]
fn bare_request_uses_the_default() {
    let mut reg = ChannelRegistry::new();
    reg.add(endpoint("alpha", "1")).unwrap();
    reg.add(endpoint("beta", "2")).unwrap();
    reg.set_default("beta").unwrap();
    let got = route(&mut reg, None, None).unwrap();
    assert_eq!(got.name, "beta");
}
