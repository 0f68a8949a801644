use herdr_plugin_renamer::keys::{marker_key_for_pane, marker_key_for_session};

#[test]
fn marker_keys_are_stable_and_distinct() {
    assert_eq!(marker_key_for_pane("w5V:p1"), "claim-pane-w5V_p1");
    assert_eq!(
        marker_key_for_session("pi", "/tmp/first"),
        marker_key_for_session("pi", "/tmp/first")
    );
    assert_ne!(
        marker_key_for_session("pi", "/tmp/first"),
        marker_key_for_session("pi", "/tmp/second")
    );
}

#[test]
fn session_key_is_agent_and_fnv1a_hex() {
    assert_eq!(marker_key_for_session("pi", "/tmp/first"), "session-pi-09db91bcb9f5ccb9");
    assert_eq!(marker_key_for_session("pi", "/tmp/second"), "session-pi-abdaaf0f156a5d55");
    assert_eq!(marker_key_for_session("codex", "abc"), "session-codex-0984e9f0329192a4");
}

#[test]
fn unsafe_characters_become_underscores() {
    assert_eq!(marker_key_for_pane("a b/c-d\u{e9}"), "claim-pane-a_b_c-d_");
    assert_eq!(marker_key_for_pane(""), "claim-pane-");
    assert!(marker_key_for_session("amp cli", "x").starts_with("session-amp_cli-"));
}
