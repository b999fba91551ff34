use plugin_bridge::plugin::{
    state_bytes, state_text, PluginParams, State, Transport, UiNotification,
};

#[test]
fn empty_state_loads_nothing() {
    assert!(matches!(state_bytes(""), Ok(None)));
}

#[test]
fn state_text_round_trips() {
    let text = state_text(&b"hello".to_vec());
    assert_eq!(text, "aGVsbG8=");
    assert_eq!(state_bytes(&text).unwrap().unwrap(), b"hello".to_vec());
}

#[test]
fn invalid_state_is_an_error() {
    assert!(state_bytes("not base64!").is_err());
}

#[test]
fn playing_state_notified_once_per_transition() {
    let mut t = Transport::new();
    let u = t.observe(false, 0);
    assert!(!u.position_changed);
    assert_eq!(u.notification, None);
    let u = t.observe(true, 128);
    assert!(u.position_changed);
    assert_eq!(u.notification, Some(UiNotification::UpdatePlayingState(true)));
    let u = t.observe(true, 256);
    assert_eq!(u.notification, None);
    let u = t.observe(false, 256);
    assert!(!u.position_changed);
    assert_eq!(u.notification, Some(UiNotification::UpdatePlayingState(false)));
}

#[test]
fn defaults() {
    assert_eq!(PluginParams::default().dummy, "");
    let _ = State::new();
}
