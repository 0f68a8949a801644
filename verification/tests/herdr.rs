use herdr_plugin_renamer::herdr::{
    active_sessions_from_snapshot, entry_from_fields, pane_agent_session, report_task_args,
    session_at, session_from_fields, trim_start_matches, JsonAt,
};

fn text(s: &str) -> JsonAt {
    JsonAt::Text(s.to_string())
}

#[test]
fn pane_session_from_result_pane() {
    let doc = br#"{"result":{"pane":{"agent_session":{"agent":"codex","value":"abc"}}}}"#;
    assert_eq!(
        pane_agent_session(doc),
        Some(("codex".to_string(), "abc".to_string()))
    );
}

#[test]
fn pane_session_falls_back_to_other_places_and_source() {
    let doc = br#"{"pane":{"agent_session":{"source":"herdr:herdr:amp","value":"/tmp/s"}}}"#;
    assert_eq!(
        pane_agent_session(doc),
        Some(("amp".to_string(), "/tmp/s".to_string()))
    );
    let doc = br#"{"agent_session":{"agent":"pi","value":"x"}}"#;
    assert_eq!(pane_agent_session(doc), Some(("pi".to_string(), "x".to_string())));
}

#[test]
fn first_present_session_place_wins_even_when_incomplete() {
    let doc = br#"{"result":{"pane":{"agent_session":null}},"agent_session":{"agent":"pi","value":"x"}}"#;
    assert_eq!(pane_agent_session(doc), None);
}

#[test]
fn pane_session_needs_valid_json_and_a_value() {
    assert_eq!(pane_agent_session(b"not json"), None);
    assert_eq!(pane_agent_session(br#"{"agent_session":{"agent":"pi"}}"#), None);
    assert_eq!(pane_agent_session(br#"{"agent_session":{"value":"x"}}"#), None);
    assert_eq!(pane_agent_session(br#"{}"#), None);
}

#[test]
fn session_at_reads_the_given_object() {
    let doc = br#"{"a":{"b":{"agent":"codex","value":"v"}}}"#;
    assert_eq!(session_at(doc, "/a/b"), Some(("codex".to_string(), "v".to_string())));
    assert_eq!(session_at(doc, "/a"), None);
}

#[test]
fn session_fields_prefer_agent_over_source() {
    assert_eq!(
        session_from_fields(text("codex"), text("herdr:pi"), text("id")),
        Some(("codex".to_string(), "id".to_string()))
    );
    assert_eq!(
        session_from_fields(JsonAt::Other, text("herdr:pi"), text("id")),
        Some(("pi".to_string(), "id".to_string()))
    );
    assert_eq!(session_from_fields(text("codex"), JsonAt::Missing, JsonAt::List(2)), None);
    assert_eq!(session_from_fields(JsonAt::Missing, JsonAt::Missing, text("id")), None);
}

#[test]
fn active_sessions_lists_complete_entries_in_order() {
    let doc = br#"{"result":{"snapshot":{"agents":[
        {"pane_id":"p1","agent_session":{"agent":"codex","value":"s1"}},
        {"pane_id":"p2"},
        {"pane_id":"p3","agent_session":{"source":"herdr:pi","value":"s3"}},
        {"agent_session":{"agent":"codex","value":"s4"}}
    ]}}}"#;
    let sessions = active_sessions_from_snapshot(doc);
    let got: Vec<(String, String, String)> = sessions
        .into_iter()
        .map(|s| (s.pane_id, s.agent, s.id))
        .collect();
    assert_eq!(
        got,
        vec![
            ("p1".to_string(), "codex".to_string(), "s1".to_string()),
            ("p3".to_string(), "pi".to_string(), "s3".to_string()),
        ]
    );
}

#[test]
fn active_sessions_of_bad_answers_are_empty() {
    assert!(active_sessions_from_snapshot(b"garbage").is_empty());
    assert!(active_sessions_from_snapshot(br#"{"result":{"snapshot":{"agents":{}}}}"#).is_empty());
    assert!(active_sessions_from_snapshot(br#"{"result":{"snapshot":{"agents":[]}}}"#).is_empty());
}

#[test]
fn entry_needs_pane_id_text() {
    assert!(entry_from_fields(JsonAt::Other, text("a"), JsonAt::Missing, text("v")).is_none());
    let e = entry_from_fields(text("p"), JsonAt::Missing, text("herdr:x"), text("v")).unwrap();
    assert_eq!((e.pane_id.as_str(), e.agent.as_str(), e.id.as_str()), ("p", "x", "v"));
}

#[test]
fn trim_start_matches_removes_every_leading_copy() {
    assert_eq!(trim_start_matches("herdr:herdr:pi", "herdr:"), "pi");
    assert_eq!(trim_start_matches("pi:herdr:", "herdr:"), "pi:herdr:");
    assert_eq!(trim_start_matches("herdr", "herdr:"), "herdr");
    assert_eq!(trim_start_matches("abc", ""), "abc");
}

#[test]
fn report_task_publishes_only_the_task_token() {
    assert_eq!(
        report_task_args("w1:p2", "Fix Login Flow"),
        vec![
            "pane",
            "report-metadata",
            "w1:p2",
            "--source",
            "plugin:herdr-plugin-renamer",
            "--token",
            "task=Fix Login Flow",
        ]
    );
}
