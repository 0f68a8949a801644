use herdr_plugin_renamer::codex::{
    codex_exec_options, codex_prompt, title_from_codex_output, wait_step, ChildPoll, WaitStep,
};

const INSTRUCTION: &str = "Output only a concise 3-6 word human-readable chat title in title case (spaces, not kebab-case), with no quotes, ending punctuation, or prose, summarizing this coding task:\n\n";

#[test]
fn prompt_is_instruction_then_task() {
    assert_eq!(codex_prompt("fix the bug"), format!("{INSTRUCTION}fix the bug"));
}

#[test]
fn prompt_keeps_at_most_two_thousand_characters() {
    let long = "\u{e9}".repeat(2500);
    let p = codex_prompt(&long);
    assert_eq!(p, format!("{INSTRUCTION}{}", "\u{e9}".repeat(2000)));
    let exact = "x".repeat(2000);
    assert_eq!(codex_prompt(&exact), format!("{INSTRUCTION}{exact}"));
}

#[test]
fn exec_options_are_sandboxed_and_ephemeral() {
    assert_eq!(
        codex_exec_options(),
        vec![
            "exec",
            "--skip-git-repo-check",
            "--ignore-user-config",
            "--ephemeral",
            "-s",
            "read-only",
            "-m",
            "gpt-5.6-luna",
            "-c",
            "model_reasoning_effort=low",
            "-o",
        ]
    );
}

#[test]
fn codex_answer_is_sanitized() {
    assert_eq!(
        title_from_codex_output("\"Fix Login Redirect Loop.\"\n"),
        Some("Fix Login Redirect Loop".to_string())
    );
    assert_eq!(title_from_codex_output("  \n ... \n"), None);
    assert_eq!(title_from_codex_output(""), None);
}

#[test]
fn waiting_decisions() {
    assert!(matches!(wait_step(ChildPoll::Exited(true), 5), WaitStep::Finish(true)));
    assert!(matches!(wait_step(ChildPoll::Exited(false), 5), WaitStep::Finish(false)));
    assert!(matches!(wait_step(ChildPoll::Running, 29_999), WaitStep::Sleep));
    assert!(matches!(wait_step(ChildPoll::Running, 30_000), WaitStep::Finish(false)));
    assert!(matches!(wait_step(ChildPoll::Unknown, 0), WaitStep::Finish(false)));
}
