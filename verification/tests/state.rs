use herdr_plugin_renamer::state::{
    cache_contents, claim_is_fresh, debug_log_line, debug_log_needs_reset, debug_logging_enabled,
    is_legacy_marker_name, poll_step, restore_cached_title, PollStep, state_file_name, StateFile,
};
use herdr_plugin_renamer::text::decimal_string;

#[test]
fn cached_legacy_title_is_migrated() {
    let restored = restore_cached_title("Review Hermes Routing\n", true);
    assert_eq!(restored.title.as_deref(), Some("Review Hermes Routing"));
    assert_eq!(restored.rewrite.as_deref(), Some("Review Hermes Routing\n"));
}

#[test]
fn title_cache_is_not_rewritten() {
    let restored = restore_cached_title("Review Hermes Routing\n", false);
    assert_eq!(restored.title.as_deref(), Some("Review Hermes Routing"));
    assert_eq!(restored.rewrite, None);
}

#[test]
fn empty_cache_gives_nothing() {
    let restored = restore_cached_title("  \n!!\n", true);
    assert_eq!(restored.title, None);
    assert_eq!(restored.rewrite, None);
}

#[test]
fn cache_contents_end_with_a_line_feed() {
    assert_eq!(cache_contents("Agent task"), "Agent task\n");
    let restored = restore_cached_title(&cache_contents("Agent task"), false);
    assert_eq!(restored.title.as_deref(), Some("Agent task"));
}

#[test]
fn state_file_names() {
    assert_eq!(state_file_name("claim-pane-w1", StateFile::Claim), "claim-pane-w1.claim");
    assert_eq!(state_file_name("session-pi-00", StateFile::Done), "session-pi-00.done");
    assert_eq!(state_file_name("k", StateFile::Title), "k.title");
    assert_eq!(state_file_name("k", StateFile::LegacyTitle), "k.slug");
    assert_eq!(state_file_name("k", StateFile::Candidate), "k.candidate");
}

#[test]
fn legacy_marker_names() {
    assert!(is_legacy_marker_name("pane-w1.claim"));
    assert!(is_legacy_marker_name("pane-w1.done"));
    assert!(is_legacy_marker_name("pane-.slug"));
    assert!(!is_legacy_marker_name("pane-w1.title"));
    assert!(!is_legacy_marker_name("claim-pane-w1.claim"));
    assert!(!is_legacy_marker_name("pane"));
    assert!(!is_legacy_marker_name("state-v2.migrated"));
}

#[test]
fn claims_hold_for_two_minutes() {
    assert!(claim_is_fresh(Some(0)));
    assert!(claim_is_fresh(Some(119)));
    assert!(!claim_is_fresh(Some(120)));
    assert!(!claim_is_fresh(None));
}

#[test]
fn debug_log_settings() {
    assert!(debug_logging_enabled(Some("true")));
    assert!(!debug_logging_enabled(Some("TRUE")));
    assert!(!debug_logging_enabled(Some("1")));
    assert!(!debug_logging_enabled(None));
    let line = "0 [pid 1] x"; // 11 bytes, 12 with the line feed
    assert!(!debug_log_needs_reset(None, line));
    assert!(!debug_log_needs_reset(Some(0), line));
    assert!(!debug_log_needs_reset(Some(262_144 - 12), line));
    assert!(debug_log_needs_reset(Some(262_144 - 11), line));
    assert!(debug_log_needs_reset(Some(262_143), line));
    assert!(debug_log_needs_reset(Some(u64::MAX), line));
    assert!(debug_log_needs_reset(Some(262_144 - 4), "\u{e9}\u{e9}"));
    assert!(!debug_log_needs_reset(Some(262_144 - 5), "\u{e9}\u{e9}"));
}

#[test]
fn debug_log_line_format() {
    assert_eq!(
        debug_log_line(1700000000, 42, "no first prompt after polling"),
        "1700000000 [pid 42] no first prompt after polling"
    );
    assert_eq!(debug_log_line(0, 0, ""), "0 [pid 0] ");
}

#[test]
fn decimal_strings() {
    assert_eq!(decimal_string(0), "0");
    assert_eq!(decimal_string(7), "7");
    assert_eq!(decimal_string(1234567890), "1234567890");
    assert_eq!(decimal_string(u64::MAX), u64::MAX.to_string());
}

#[test]
fn polls_wait_between_attempts_only() {
    assert_eq!(poll_step(0, 12, true), PollStep::Stop);
    assert_eq!(poll_step(11, 12, true), PollStep::Stop);
    assert_eq!(poll_step(0, 12, false), PollStep::Wait);
    assert_eq!(poll_step(10, 12, false), PollStep::Wait);
    assert_eq!(poll_step(11, 12, false), PollStep::GiveUp);
    assert_eq!(poll_step(0, 1, false), PollStep::GiveUp);
    assert_eq!(poll_step(u32::MAX, u32::MAX, false), PollStep::GiveUp);
}
