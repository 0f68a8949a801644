//! What the plugin asks the Codex CLI for, and what it makes of the answer.
//!
//! Codex runs headless, without user config, hooks, writes or session persistence, on a
//! prompt built from at most the first 2000 characters of the agent's first prompt. Its
//! answer becomes a title only when sanitizing leaves something.

use vstd::prelude::*;
use crate::slug::sanitize_title;
use crate::state::spec_restored_title;
use crate::text::{chars_of, push_char};

verus! {

/// How many characters of the first prompt go to Codex.
pub const PROMPT_LIMIT: usize = 2000;

/// How long Codex may run, in milliseconds.
pub const TIMEOUT_MS: u64 = 30000;

/// How long to wait between two looks at the running Codex process, in milliseconds.
pub const POLL_INTERVAL_MS: u64 = 100;

/// The instruction that precedes the prompt.
pub open spec fn codex_instruction() -> Seq<char> {
    "Output only a concise 3-6 word human-readable chat title in title case (spaces, not kebab-case), with no quotes, ending punctuation, or prose, summarizing this coding task:\n\n"@
}

/// The prompt cut to its first `PROMPT_LIMIT` characters.
pub open spec fn truncated_prompt(prompt: Seq<char>) -> Seq<char> {
    if prompt.len() <= PROMPT_LIMIT {
        prompt
    } else {
        prompt.take(PROMPT_LIMIT as int)
    }
}

/// The full prompt handed to Codex.
pub open spec fn spec_codex_prompt(prompt: Seq<char>) -> Seq<char> {
    codex_instruction() + truncated_prompt(prompt)
}

/// The full prompt handed to Codex: the instruction, then the first 2000 characters of
/// the agent's first prompt.
pub fn codex_prompt(prompt: &str) -> (r: String)
    ensures
        r@ == spec_codex_prompt(prompt@),
{
    let mut out = "Output only a concise 3-6 word human-readable chat title in title case (spaces, not kebab-case), with no quotes, ending punctuation, or prose, summarizing this coding task:\n\n".to_owned();
    let cs = chars_of(prompt);
    let n = if cs.len() <= PROMPT_LIMIT {
        cs.len()
    } else {
        PROMPT_LIMIT
    };
    let mut i: usize = 0;
    let ghost start = out@;
    while i < n
        invariant
            i <= n <= cs.len(),
            out@ == start + cs@.take(i as int),
        decreases n - i,
    {
        push_char(&mut out, cs[i]);
        i = i + 1;
        assert(cs@.take(i as int) =~= cs@.take(i - 1).push(cs@[i - 1]));
    }
    assert(cs@.take(n as int) =~= truncated_prompt(prompt@));
    out
}

/// The options of the `codex exec` call, before the output file and the prompt.
pub open spec fn spec_codex_exec_options() -> Seq<Seq<char>> {
    seq![
        "exec"@,
        "--skip-git-repo-check"@,
        "--ignore-user-config"@,
        "--ephemeral"@,
        "-s"@,
        "read-only"@,
        "-m"@,
        "gpt-5.6-luna"@,
        "-c"@,
        "model_reasoning_effort=low"@,
        "-o"@,
    ]
}

/// The options of the `codex exec` call, which the output file and the prompt follow:
/// no git check, no user config, no persisted session, a read-only sandbox, the model and
/// its reasoning effort, and the option that names the output file.
pub fn codex_exec_options() -> (r: Vec<String>)
    ensures
        r.deep_view() == spec_codex_exec_options(),
{
    let mut v: Vec<String> = Vec::new();
    v.push("exec".to_owned());
    v.push("--skip-git-repo-check".to_owned());
    v.push("--ignore-user-config".to_owned());
    v.push("--ephemeral".to_owned());
    v.push("-s".to_owned());
    v.push("read-only".to_owned());
    v.push("-m".to_owned());
    v.push("gpt-5.6-luna".to_owned());
    v.push("-c".to_owned());
    v.push("model_reasoning_effort=low".to_owned());
    v.push("-o".to_owned());
    assert(v.deep_view() =~= spec_codex_exec_options());
    v
}

/// The title that Codex's answer `raw` gives: the sanitized answer, unless that is empty.
pub fn title_from_codex_output(raw: &str) -> (r: Option<String>)
    ensures
        r.deep_view() == spec_restored_title(raw@),
{
    let title = sanitize_title(raw);
    if title.as_str().is_empty() {
        None
    } else {
        Some(title)
    }
}

/// What a look at the Codex process found.
pub enum ChildPoll {
    /// It has exited, successfully or not.
    Exited(bool),
    /// It is still running.
    Running,
    /// Its state could not be read.
    Unknown,
}

/// What to do after a look at the Codex process.
pub enum WaitStep {
    /// Stop waiting; whether Codex succeeded.
    Finish(bool),
    /// Look again after `POLL_INTERVAL_MS`.
    Sleep,
}

/// The decision after a look at the Codex process, `elapsed_ms` after it started: an
/// exited process ends the wait with its success; a running one is waited for until the
/// timeout, after which the wait fails; an unreadable one fails the wait.
pub fn wait_step(poll: ChildPoll, elapsed_ms: u64) -> (r: WaitStep)
    ensures
        r == (match poll {
            ChildPoll::Exited(ok) => WaitStep::Finish(ok),
            ChildPoll::Running => if elapsed_ms >= TIMEOUT_MS {
                WaitStep::Finish(false)
            } else {
                WaitStep::Sleep
            },
            ChildPoll::Unknown => WaitStep::Finish(false),
        }),
{
    match poll {
        ChildPoll::Exited(ok) => WaitStep::Finish(ok),
        ChildPoll::Running => if elapsed_ms >= TIMEOUT_MS {
            WaitStep::Finish(false)
        } else {
            WaitStep::Sleep
        },
        ChildPoll::Unknown => WaitStep::Finish(false),
    }
}

} // verus!

verus! {

/// Law: the prompt handed to Codex is the instruction followed by the beginning of the
/// agent's first prompt: its first 2000 characters, or all of it when it is shorter.
pub proof fn lemma_codex_prompt_keeps_the_beginning(p: Seq<char>)
    ensures
        ({
            let r = spec_codex_prompt(p);
            let n = codex_instruction().len();
            let kept: int = if p.len() <= PROMPT_LIMIT { p.len() as int } else { PROMPT_LIMIT as int };
            &&& r.len() == n + kept
            &&& r.take(n as int) == codex_instruction()
            &&& forall|i: int| 0 <= i < kept ==> #[trigger] r[n + i] == p[i]
        }),
{
    let r = spec_codex_prompt(p);
    let n = codex_instruction().len();
    assert(r.take(n as int) =~= codex_instruction());
}

} // verus!
