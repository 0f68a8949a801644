use herdr_plugin_renamer::cold::{cold_start, cold_step, ColdAction, ColdEvent, ColdPhase, Stage};

fn start() -> ColdPhase {
    let (phase, actions) = cold_start("claim-pane-w1_p1");
    assert_eq!(actions.len(), 1);
    assert!(matches!(actions[0], ColdAction::PollSession));
    assert_eq!(phase.claim, "claim-pane-w1_p1.claim");
    assert_eq!(phase.stage, Stage::AwaitingSession);
    phase
}

fn with_session() -> ColdPhase {
    let (phase, actions) = cold_step(
        start(),
        ColdEvent::SessionPolled(Some(("pi".to_string(), "/tmp/first".to_string()))),
    );
    assert_eq!(phase.stage, Stage::AwaitingDoneCheck);
    assert_eq!(phase.key, "session-pi-09db91bcb9f5ccb9");
    assert!(
        matches!(&actions[..], [ColdAction::CheckExists(n)] if n == "session-pi-09db91bcb9f5ccb9.done")
    );
    phase
}

fn awaiting_title() -> ColdPhase {
    let (phase, _) = cold_step(with_session(), ColdEvent::DoneChecked(false));
    let (phase, actions) =
        cold_step(phase, ColdEvent::PromptPolled(Some("Please fix the login flow.".to_string())));
    assert_eq!(phase.stage, Stage::AwaitingTitle);
    assert!(matches!(&actions[..], [ColdAction::Generate { prompt, candidate }]
        if prompt == "Please fix the login flow." && candidate == "session-pi-09db91bcb9f5ccb9.candidate"));
    phase
}

#[test]
fn no_session_releases_the_claim() {
    let (phase, actions) = cold_step(start(), ColdEvent::SessionPolled(None));
    assert_eq!(phase.stage, Stage::Finished);
    assert!(matches!(&actions[..], [ColdAction::DebugLog(m), ColdAction::RemoveFile(c)]
        if m == "no agent session after polling" && c == "claim-pane-w1_p1.claim"));
}

#[test]
fn done_session_republishes_its_cached_title() {
    let (phase, actions) = cold_step(with_session(), ColdEvent::DoneChecked(true));
    assert_eq!(phase.stage, Stage::AwaitingCache);
    assert!(matches!(&actions[..], [ColdAction::ReadCache { title, legacy }]
        if title == "session-pi-09db91bcb9f5ccb9.title" && legacy == "session-pi-09db91bcb9f5ccb9.slug"));
    let (phase, actions) = cold_step(phase, ColdEvent::CacheRead(Some("Fix Login".to_string())));
    assert_eq!(phase.stage, Stage::Finished);
    assert!(matches!(&actions[..], [ColdAction::Report(t), ColdAction::RemoveFile(c)]
        if t == "Fix Login" && c == "claim-pane-w1_p1.claim"));
}

#[test]
fn done_marker_without_cache_is_removed_and_naming_goes_on() {
    let (phase, _) = cold_step(with_session(), ColdEvent::DoneChecked(true));
    let (phase, actions) = cold_step(phase, ColdEvent::CacheRead(None));
    assert_eq!(phase.stage, Stage::AwaitingPrompt);
    assert!(matches!(&actions[..], [ColdAction::RemoveFile(d), ColdAction::PollPrompt { agent, session_id }]
        if d == "session-pi-09db91bcb9f5ccb9.done" && agent == "pi" && session_id == "/tmp/first"));
}

#[test]
fn no_prompt_releases_the_claim() {
    let (phase, _) = cold_step(with_session(), ColdEvent::DoneChecked(false));
    let (phase, actions) = cold_step(phase, ColdEvent::PromptPolled(None));
    assert_eq!(phase.stage, Stage::Finished);
    assert!(matches!(&actions[..], [ColdAction::DebugLog(m), ColdAction::RemoveFile(_)]
        if m == "no first prompt after polling"));
}

#[test]
fn generated_title_is_cached_published_and_marked_done() {
    let (phase, actions) =
        cold_step(awaiting_title(), ColdEvent::TitleGenerated(Some("Fix Login Flow".to_string())));
    assert_eq!(phase.stage, Stage::Finished);
    assert!(matches!(&actions[..], [
        ColdAction::RemoveFile(k),
        ColdAction::WriteFile { name, contents },
        ColdAction::Report(t),
        ColdAction::MarkDone(d),
        ColdAction::RemoveFile(c),
    ] if k == "session-pi-09db91bcb9f5ccb9.candidate" && name == "session-pi-09db91bcb9f5ccb9.title" && contents == "Fix Login Flow\n"
        && t == "Fix Login Flow" && d == "session-pi-09db91bcb9f5ccb9.done"
        && c == "claim-pane-w1_p1.claim"));
}

#[test]
fn failed_generation_publishes_fallback_without_done_marker() {
    let (phase, actions) = cold_step(awaiting_title(), ColdEvent::TitleGenerated(None));
    assert_eq!(phase.stage, Stage::Finished);
    assert!(matches!(&actions[..], [
        ColdAction::RemoveFile(k),
        ColdAction::DebugLog(m),
        ColdAction::WriteFile { contents, .. },
        ColdAction::Report(t),
        ColdAction::RemoveFile(_),
    ] if k == "session-pi-09db91bcb9f5ccb9.candidate" && m == "Codex naming failed; publishing retryable fallback"
        && contents == "Please fix the login flow\n" && t == "Please fix the login flow"));
}

#[test]
fn unexpected_events_change_nothing() {
    let (phase, actions) = cold_step(start(), ColdEvent::DoneChecked(true));
    assert_eq!(phase.stage, Stage::AwaitingSession);
    assert!(actions.is_empty());
    let (phase, _) = cold_step(start(), ColdEvent::SessionPolled(None));
    let (phase, actions) = cold_step(phase, ColdEvent::TitleGenerated(None));
    assert_eq!(phase.stage, Stage::Finished);
    assert!(actions.is_empty());
}
