//! The decisions of the detached naming phase of a pane, as a state machine.
//!
//! The phase finds the pane's native agent session, republishes its cached title when
//! the session is already done, and otherwise asks Codex for a title from the first
//! prompt, falling back to a local title when Codex fails. The caller performs each
//! action in order; an action that asks a question (which session, whether a file exists,
//! what the cache holds, which prompt, which title) is answered by the next event.

use vstd::prelude::*;
use crate::keys::{marker_key_for_session, spec_session_key};
use crate::slug::{fallback_title_from_prompt, spec_fallback_title};
use crate::state::{
    cache_contents, spec_cache_contents, spec_state_file_name, state_file_name, StateFile,
};

verus! {

/// Where the naming phase stands.
#[derive(PartialEq, Eq, Structural, Clone, Copy, Debug)]
pub enum Stage {
    AwaitingSession,
    AwaitingDoneCheck,
    AwaitingCache,
    AwaitingPrompt,
    AwaitingTitle,
    Finished,
}

/// The naming phase of one pane.
pub struct ColdPhase {
    /// The claim file of the pane, removed when the phase ends.
    pub claim: String,
    pub stage: Stage,
    /// The session's agent and id, and its key, once known.
    pub agent: String,
    pub session_id: String,
    pub key: String,
    /// The first prompt, once known.
    pub prompt: String,
}

/// The model of `ColdPhase`.
pub struct ColdPhaseView {
    pub claim: Seq<char>,
    pub stage: Stage,
    pub agent: Seq<char>,
    pub session_id: Seq<char>,
    pub key: Seq<char>,
    pub prompt: Seq<char>,
}

impl View for ColdPhase {
    type V = ColdPhaseView;

    open spec fn view(&self) -> ColdPhaseView {
        ColdPhaseView {
            claim: self.claim@,
            stage: self.stage,
            agent: self.agent@,
            session_id: self.session_id@,
            key: self.key@,
            prompt: self.prompt@,
        }
    }
}

/// The answer to the question that the last action asked.
pub enum ColdEvent {
    /// The agent and id of the pane's native session, if one was found.
    SessionPolled(Option<(String, String)>),
    /// Whether the done marker exists.
    DoneChecked(bool),
    /// The cached title, if the cache gave one.
    CacheRead(Option<String>),
    /// The first prompt of the session, if one was found.
    PromptPolled(Option<String>),
    /// The title Codex generated, if it did.
    TitleGenerated(Option<String>),
}

/// The model of `ColdEvent`.
pub enum ColdEventView {
    SessionPolled(Option<(Seq<char>, Seq<char>)>),
    DoneChecked(bool),
    CacheRead(Option<Seq<char>>),
    PromptPolled(Option<Seq<char>>),
    TitleGenerated(Option<Seq<char>>),
}

impl View for ColdEvent {
    type V = ColdEventView;

    open spec fn view(&self) -> ColdEventView {
        match self {
            ColdEvent::SessionPolled(s) => ColdEventView::SessionPolled(s.deep_view()),
            ColdEvent::DoneChecked(b) => ColdEventView::DoneChecked(*b),
            ColdEvent::CacheRead(t) => ColdEventView::CacheRead(t.deep_view()),
            ColdEvent::PromptPolled(p) => ColdEventView::PromptPolled(p.deep_view()),
            ColdEvent::TitleGenerated(t) => ColdEventView::TitleGenerated(t.deep_view()),
        }
    }
}

/// What the caller does next. File names are relative to the state directory.
pub enum ColdAction {
    /// Find the pane's native agent session; answered by `SessionPolled`.
    PollSession,
    /// Whether the file exists; answered by `DoneChecked`.
    CheckExists(String),
    /// Read the cached title from the title cache, else from the legacy cache; answered
    /// by `CacheRead`.
    ReadCache { title: String, legacy: String },
    /// Find the first prompt of the session; answered by `PromptPolled`.
    PollPrompt { agent: String, session_id: String },
    /// Ask Codex for a title, with the candidate file as its output; answered by
    /// `TitleGenerated`.
    Generate { prompt: String, candidate: String },
    /// Write a line to the debug log.
    DebugLog(String),
    /// Remove the file.
    RemoveFile(String),
    /// Write the contents to the file.
    WriteFile { name: String, contents: String },
    /// Publish the title as the pane's `$task` token.
    Report(String),
    /// Write the current time to the done marker.
    MarkDone(String),
}

/// The model of `ColdAction`.
pub enum ColdActionView {
    PollSession,
    CheckExists(Seq<char>),
    ReadCache { title: Seq<char>, legacy: Seq<char> },
    PollPrompt { agent: Seq<char>, session_id: Seq<char> },
    Generate { prompt: Seq<char>, candidate: Seq<char> },
    DebugLog(Seq<char>),
    RemoveFile(Seq<char>),
    WriteFile { name: Seq<char>, contents: Seq<char> },
    Report(Seq<char>),
    MarkDone(Seq<char>),
}

impl DeepView for ColdAction {
    type V = ColdActionView;

    open spec fn deep_view(&self) -> ColdActionView {
        match self {
            ColdAction::PollSession => ColdActionView::PollSession,
            ColdAction::CheckExists(n) => ColdActionView::CheckExists(n@),
            ColdAction::ReadCache { title, legacy } => ColdActionView::ReadCache {
                title: title@,
                legacy: legacy@,
            },
            ColdAction::PollPrompt { agent, session_id } => ColdActionView::PollPrompt {
                agent: agent@,
                session_id: session_id@,
            },
            ColdAction::Generate { prompt, candidate } => ColdActionView::Generate {
                prompt: prompt@,
                candidate: candidate@,
            },
            ColdAction::DebugLog(m) => ColdActionView::DebugLog(m@),
            ColdAction::RemoveFile(n) => ColdActionView::RemoveFile(n@),
            ColdAction::WriteFile { name, contents } => ColdActionView::WriteFile {
                name: name@,
                contents: contents@,
            },
            ColdAction::Report(t) => ColdActionView::Report(t@),
            ColdAction::MarkDone(n) => ColdActionView::MarkDone(n@),
        }
    }
}

/// The state file of the phase's session of the given kind.
pub open spec fn session_file(p: ColdPhaseView, kind: StateFile) -> Seq<char> {
    spec_state_file_name(p.key, kind)
}

/// The phase at the given stage, everything else unchanged.
pub open spec fn at_stage(p: ColdPhaseView, stage: Stage) -> ColdPhaseView {
    ColdPhaseView { stage, ..p }
}

/// The title that ends the phase: the generated one, else the fallback from the prompt.
pub open spec fn chosen_title(prompt: Seq<char>, generated: Option<Seq<char>>) -> Seq<char> {
    match generated {
        Some(t) => t,
        None => spec_fallback_title(prompt),
    }
}

/// The actions that end the phase once Codex has answered: the candidate file goes, the
/// title is cached and published, a model title marks the session done, and the claim
/// goes.
pub open spec fn publish_actions(p: ColdPhaseView, generated: Option<Seq<char>>) -> Seq<
    ColdActionView,
> {
    let title = chosen_title(p.prompt, generated);
    let log = if generated is None {
        seq![ColdActionView::DebugLog("Codex naming failed; publishing retryable fallback"@)]
    } else {
        Seq::empty()
    };
    let done = if generated is Some {
        seq![ColdActionView::MarkDone(session_file(p, StateFile::Done))]
    } else {
        Seq::empty()
    };
    seq![ColdActionView::RemoveFile(session_file(p, StateFile::Candidate))] + log + seq![
        ColdActionView::WriteFile {
            name: session_file(p, StateFile::Title),
            contents: spec_cache_contents(title),
        },
        ColdActionView::Report(title),
    ] + done + seq![ColdActionView::RemoveFile(p.claim)]
}

/// The next phase and the actions to perform after `e` in phase `p`. An event that does
/// not answer the question of the stage changes nothing.
pub open spec fn spec_cold_step(p: ColdPhaseView, e: ColdEventView) -> (
    ColdPhaseView,
    Seq<ColdActionView>,
) {
    match (p.stage, e) {
        (Stage::AwaitingSession, ColdEventView::SessionPolled(None)) => (
            at_stage(p, Stage::Finished),
            seq![
                ColdActionView::DebugLog("no agent session after polling"@),
                ColdActionView::RemoveFile(p.claim),
            ],
        ),
        (Stage::AwaitingSession, ColdEventView::SessionPolled(Some((agent, id)))) => {
            let q = ColdPhaseView {
                stage: Stage::AwaitingDoneCheck,
                agent,
                session_id: id,
                key: spec_session_key(agent, id),
                ..p
            };
            (q, seq![ColdActionView::CheckExists(session_file(q, StateFile::Done))])
        },
        (Stage::AwaitingDoneCheck, ColdEventView::DoneChecked(true)) => (
            at_stage(p, Stage::AwaitingCache),
            seq![
                ColdActionView::ReadCache {
                    title: session_file(p, StateFile::Title),
                    legacy: session_file(p, StateFile::LegacyTitle),
                },
            ],
        ),
        (Stage::AwaitingDoneCheck, ColdEventView::DoneChecked(false)) => (
            at_stage(p, Stage::AwaitingPrompt),
            seq![ColdActionView::PollPrompt { agent: p.agent, session_id: p.session_id }],
        ),
        (Stage::AwaitingCache, ColdEventView::CacheRead(Some(title))) => (
            at_stage(p, Stage::Finished),
            seq![ColdActionView::Report(title), ColdActionView::RemoveFile(p.claim)],
        ),
        (Stage::AwaitingCache, ColdEventView::CacheRead(None)) => (
            at_stage(p, Stage::AwaitingPrompt),
            seq![
                ColdActionView::RemoveFile(session_file(p, StateFile::Done)),
                ColdActionView::PollPrompt { agent: p.agent, session_id: p.session_id },
            ],
        ),
        (Stage::AwaitingPrompt, ColdEventView::PromptPolled(None)) => (
            at_stage(p, Stage::Finished),
            seq![
                ColdActionView::DebugLog("no first prompt after polling"@),
                ColdActionView::RemoveFile(p.claim),
            ],
        ),
        (Stage::AwaitingPrompt, ColdEventView::PromptPolled(Some(prompt))) => {
            let q = ColdPhaseView { stage: Stage::AwaitingTitle, prompt, ..p };
            (
                q,
                seq![
                    ColdActionView::Generate {
                        prompt,
                        candidate: session_file(p, StateFile::Candidate),
                    },
                ],
            )
        },
        (Stage::AwaitingTitle, ColdEventView::TitleGenerated(generated)) => (
            at_stage(p, Stage::Finished),
            publish_actions(p, generated),
        ),
        _ => (p, Seq::empty()),
    }
}

/// The phase of a pane whose claim key is `marker_key`, and its first action.
pub open spec fn spec_cold_start(marker_key: Seq<char>) -> (ColdPhaseView, Seq<ColdActionView>) {
    (
        ColdPhaseView {
            claim: spec_state_file_name(marker_key, StateFile::Claim),
            stage: Stage::AwaitingSession,
            agent: Seq::empty(),
            session_id: Seq::empty(),
            key: Seq::empty(),
            prompt: Seq::empty(),
        },
        seq![ColdActionView::PollSession],
    )
}

/// Starts the naming phase of the pane whose claim key is `marker_key`.
pub fn cold_start(marker_key: &str) -> (r: (ColdPhase, Vec<ColdAction>))
    ensures
        (r.0@, r.1.deep_view()) == spec_cold_start(marker_key@),
{
    let phase = ColdPhase {
        claim: state_file_name(marker_key, StateFile::Claim),
        stage: Stage::AwaitingSession,
        agent: String::new(),
        session_id: String::new(),
        key: String::new(),
        prompt: String::new(),
    };
    let mut actions: Vec<ColdAction> = Vec::new();
    actions.push(ColdAction::PollSession);
    assert(actions.deep_view() =~= seq![ColdActionView::PollSession]);
    (phase, actions)
}

/// Takes the next decision of the naming phase.
pub fn cold_step(phase: ColdPhase, event: ColdEvent) -> (r: (ColdPhase, Vec<ColdAction>))
    ensures
        (r.0@, r.1.deep_view()) == spec_cold_step(phase@, event@),
{
    let ghost p = phase@;
    let ghost e = event@;
    let mut actions: Vec<ColdAction> = Vec::new();
    let ColdPhase { claim, stage, agent, session_id, key, prompt } = phase;
    match (stage, event) {
        (Stage::AwaitingSession, ColdEvent::SessionPolled(None)) => {
            actions.push(ColdAction::DebugLog("no agent session after polling".to_owned()));
            actions.push(ColdAction::RemoveFile(claim.clone()));
            let next = ColdPhase { claim, stage: Stage::Finished, agent, session_id, key, prompt };
            assert(actions.deep_view() =~= spec_cold_step(p, e).1);
            (next, actions)
        },
        (Stage::AwaitingSession, ColdEvent::SessionPolled(Some((a, id)))) => {
            let k = marker_key_for_session(a.as_str(), id.as_str());
            actions.push(ColdAction::CheckExists(state_file_name(k.as_str(), StateFile::Done)));
            let next = ColdPhase {
                claim,
                stage: Stage::AwaitingDoneCheck,
                agent: a,
                session_id: id,
                key: k,
                prompt,
            };
            assert(actions.deep_view() =~= spec_cold_step(p, e).1);
            (next, actions)
        },
        (Stage::AwaitingDoneCheck, ColdEvent::DoneChecked(done)) => {
            if done {
                actions.push(
                    ColdAction::ReadCache {
                        title: state_file_name(key.as_str(), StateFile::Title),
                        legacy: state_file_name(key.as_str(), StateFile::LegacyTitle),
                    },
                );
                let next = ColdPhase {
                    claim,
                    stage: Stage::AwaitingCache,
                    agent,
                    session_id,
                    key,
                    prompt,
                };
                assert(actions.deep_view() =~= spec_cold_step(p, e).1);
                (next, actions)
            } else {
                actions.push(
                    ColdAction::PollPrompt { agent: agent.clone(), session_id: session_id.clone() },
                );
                let next = ColdPhase {
                    claim,
                    stage: Stage::AwaitingPrompt,
                    agent,
                    session_id,
                    key,
                    prompt,
                };
                assert(actions.deep_view() =~= spec_cold_step(p, e).1);
                (next, actions)
            }
        },
        (Stage::AwaitingCache, ColdEvent::CacheRead(cached)) => {
            match cached {
                Some(title) => {
                    actions.push(ColdAction::Report(title));
                    actions.push(ColdAction::RemoveFile(claim.clone()));
                    let next = ColdPhase {
                        claim,
                        stage: Stage::Finished,
                        agent,
                        session_id,
                        key,
                        prompt,
                    };
                    assert(actions.deep_view() =~= spec_cold_step(p, e).1);
                    (next, actions)
                },
                None => {
                    actions.push(
                        ColdAction::RemoveFile(state_file_name(key.as_str(), StateFile::Done)),
                    );
                    actions.push(
                        ColdAction::PollPrompt {
                            agent: agent.clone(),
                            session_id: session_id.clone(),
                        },
                    );
                    let next = ColdPhase {
                        claim,
                        stage: Stage::AwaitingPrompt,
                        agent,
                        session_id,
                        key,
                        prompt,
                    };
                    assert(actions.deep_view() =~= spec_cold_step(p, e).1);
                    (next, actions)
                },
            }
        },
        (Stage::AwaitingPrompt, ColdEvent::PromptPolled(polled)) => {
            match polled {
                None => {
                    actions.push(
                        ColdAction::DebugLog("no first prompt after polling".to_owned()),
                    );
                    actions.push(ColdAction::RemoveFile(claim.clone()));
                    let next = ColdPhase {
                        claim,
                        stage: Stage::Finished,
                        agent,
                        session_id,
                        key,
                        prompt,
                    };
                    assert(actions.deep_view() =~= spec_cold_step(p, e).1);
                    (next, actions)
                },
                Some(first) => {
                    actions.push(
                        ColdAction::Generate {
                            prompt: first.clone(),
                            candidate: state_file_name(key.as_str(), StateFile::Candidate),
                        },
                    );
                    let next = ColdPhase {
                        claim,
                        stage: Stage::AwaitingTitle,
                        agent,
                        session_id,
                        key,
                        prompt: first,
                    };
                    assert(actions.deep_view() =~= spec_cold_step(p, e).1);
                    (next, actions)
                },
            }
        },
        (Stage::AwaitingTitle, ColdEvent::TitleGenerated(generated)) => {
            actions.push(ColdAction::RemoveFile(state_file_name(key.as_str(), StateFile::Candidate)));
            let by_model = generated.is_some();
            let title = match generated {
                Some(t) => t,
                None => {
                    actions.push(
                        ColdAction::DebugLog(
                            "Codex naming failed; publishing retryable fallback".to_owned(),
                        ),
                    );
                    fallback_title_from_prompt(prompt.as_str())
                },
            };
            actions.push(
                ColdAction::WriteFile {
                    name: state_file_name(key.as_str(), StateFile::Title),
                    contents: cache_contents(title.as_str()),
                },
            );
            actions.push(ColdAction::Report(title));
            if by_model {
                actions.push(ColdAction::MarkDone(state_file_name(key.as_str(), StateFile::Done)));
            }
            actions.push(ColdAction::RemoveFile(claim.clone()));
            let next = ColdPhase { claim, stage: Stage::Finished, agent, session_id, key, prompt };
            assert(actions.deep_view() =~= spec_cold_step(p, e).1);
            (next, actions)
        },
        (stage, event) => {
            let next = ColdPhase { claim, stage, agent, session_id, key, prompt };
            assert(actions.deep_view() =~= spec_cold_step(p, e).1);
            (next, actions)
        },
    }
}

} // verus!

verus! {

/// Whether an action asks a question that the next event answers.
pub open spec fn is_question(a: ColdActionView) -> bool {
    match a {
        ColdActionView::PollSession => true,
        ColdActionView::CheckExists(_) => true,
        ColdActionView::ReadCache { .. } => true,
        ColdActionView::PollPrompt { .. } => true,
        ColdActionView::Generate { .. } => true,
        _ => false,
    }
}

/// How far a stage is from the end of the phase.
pub open spec fn stage_rank(s: Stage) -> nat {
    match s {
        Stage::AwaitingSession => 5,
        Stage::AwaitingDoneCheck => 4,
        Stage::AwaitingCache => 3,
        Stage::AwaitingPrompt => 2,
        Stage::AwaitingTitle => 1,
        Stage::Finished => 0,
    }
}

proof fn lemma_fallback_title_not_empty(prompt: Seq<char>)
    ensures
        spec_fallback_title(prompt).len() > 0,
{
    reveal_strlit("Agent task");
}

/// Law: when Codex fails, the phase removes the candidate file, publishes the readable
/// fallback title of the prompt and caches it, but writes no done marker, so that a later `working` transition asks
/// Codex again; the fallback is never empty.
pub proof fn lemma_failed_generation_publishes_fallback(p: ColdPhaseView)
    requires
        p.stage == Stage::AwaitingTitle,
    ensures
        ({
            let (q, actions) = spec_cold_step(p, ColdEventView::TitleGenerated(None));
            let title = spec_fallback_title(p.prompt);
            &&& q.stage == Stage::Finished
            &&& title.len() > 0
            &&& actions.contains(ColdActionView::Report(title))
            &&& actions.contains(
                ColdActionView::WriteFile {
                    name: session_file(p, StateFile::Title),
                    contents: spec_cache_contents(title),
                },
            )
            &&& actions.contains(ColdActionView::RemoveFile(session_file(p, StateFile::Candidate)))
            &&& forall|i: int| 0 <= i < actions.len() ==> !(#[trigger] actions[i] is MarkDone)
        }),
{
    lemma_fallback_title_not_empty(p.prompt);
    let actions = publish_actions(p, None);
    let title = spec_fallback_title(p.prompt);
    assert(actions[2] == ColdActionView::WriteFile {
        name: session_file(p, StateFile::Title),
        contents: spec_cache_contents(title),
    });
    assert(actions[3] == ColdActionView::Report(title));
    assert(actions[0] == ColdActionView::RemoveFile(session_file(p, StateFile::Candidate)));
}

/// Law: a title that Codex generated is published, cached and marks the session done, so
/// that the session is named only once; the candidate file is removed.
pub proof fn lemma_generated_title_marks_done(p: ColdPhaseView, title: Seq<char>)
    requires
        p.stage == Stage::AwaitingTitle,
    ensures
        ({
            let (q, actions) = spec_cold_step(p, ColdEventView::TitleGenerated(Some(title)));
            &&& q.stage == Stage::Finished
            &&& actions.contains(ColdActionView::Report(title))
            &&& actions.contains(
                ColdActionView::WriteFile {
                    name: session_file(p, StateFile::Title),
                    contents: spec_cache_contents(title),
                },
            )
            &&& actions.contains(ColdActionView::MarkDone(session_file(p, StateFile::Done)))
            &&& actions.contains(ColdActionView::RemoveFile(session_file(p, StateFile::Candidate)))
        }),
{
    let actions = publish_actions(p, Some(title));
    assert(actions[0] == ColdActionView::RemoveFile(session_file(p, StateFile::Candidate)));
    assert(actions[1] == ColdActionView::WriteFile {
        name: session_file(p, StateFile::Title),
        contents: spec_cache_contents(title),
    });
    assert(actions[2] == ColdActionView::Report(title));
    assert(actions[3] == ColdActionView::MarkDone(session_file(p, StateFile::Done)));
}

/// Law: a session that is done and whose cache gives a title gets that title published
/// again, with no call to Codex.
pub proof fn lemma_done_session_republishes_cache(p: ColdPhaseView, title: Seq<char>)
    requires
        p.stage == Stage::AwaitingCache,
    ensures
        spec_cold_step(p, ColdEventView::CacheRead(Some(title))).1 == seq![
            ColdActionView::Report(title),
            ColdActionView::RemoveFile(p.claim),
        ],
{
}

/// Law: whenever the phase ends, its last action removes the pane's claim.
pub proof fn lemma_claim_released_at_end(p: ColdPhaseView, e: ColdEventView)
    requires
        p.stage != Stage::Finished,
        spec_cold_step(p, e).0.stage == Stage::Finished,
    ensures
        spec_cold_step(p, e).1.len() > 0,
        spec_cold_step(p, e).1.last() == ColdActionView::RemoveFile(p.claim),
{
}

/// Law: an event that answers the stage's question moves the phase closer to its end;
/// any other event changes nothing and asks for nothing. The phase thus ends after at
/// most five answers.
pub proof fn lemma_cold_step_progress(p: ColdPhaseView, e: ColdEventView)
    ensures
        ({
            let (q, actions) = spec_cold_step(p, e);
            ||| stage_rank(q.stage) < stage_rank(p.stage)
            ||| (q == p && actions.len() == 0)
        }),
{
}

/// Law: a step asks at most one question, as its last action; a step that acts and
/// leaves the phase unfinished ends with a question, and one that finishes the phase asks
/// none. The claim file keeps its name throughout.
pub proof fn lemma_cold_step_questions(p: ColdPhaseView, e: ColdEventView)
    ensures
        ({
            let (q, actions) = spec_cold_step(p, e);
            &&& q.claim == p.claim
            &&& forall|i: int| 0 <= i < actions.len() - 1 ==> !is_question(#[trigger] actions[i])
            &&& (actions.len() > 0 && q.stage != Stage::Finished) ==> is_question(actions.last())
            &&& q.stage == Stage::Finished ==> forall|i: int|
                0 <= i < actions.len() ==> !is_question(#[trigger] actions[i])
        }),
{
    match (p.stage, e) {
        (Stage::AwaitingTitle, ColdEventView::TitleGenerated(generated)) => {
            let a = publish_actions(p, generated);
            assert forall|i: int| 0 <= i < a.len() implies !is_question(#[trigger] a[i]) by {
                assert(i == 0 || i == 1 || i == 2 || i == 3 || i == 4);
            }
        },
        _ => {},
    }
}

} // verus!

verus! {

/// The messages the naming phase writes to the debug log.
pub open spec fn is_debug_message(m: Seq<char>) -> bool {
    ||| m == "no agent session after polling"@
    ||| m == "no first prompt after polling"@
    ||| m == "Codex naming failed; publishing retryable fallback"@
}

/// Law: the debug log only ever receives one of three fixed messages, so it never holds
/// an excerpt of a prompt.
pub proof fn lemma_debug_log_has_no_prompt_text(p: ColdPhaseView, e: ColdEventView)
    ensures
        forall|i: int|
            0 <= i < spec_cold_step(p, e).1.len() ==> (#[trigger] spec_cold_step(p, e).1[i] matches ColdActionView::DebugLog(
                m,
            ) ==> is_debug_message(m)),
{
    let actions = spec_cold_step(p, e).1;
    match (p.stage, e) {
        (Stage::AwaitingTitle, ColdEventView::TitleGenerated(generated)) => {
            assert forall|i: int| 0 <= i < actions.len() implies (#[trigger] actions[i] matches ColdActionView::DebugLog(
                m,
            ) ==> is_debug_message(m)) by {
                assert(i == 0 || i == 1 || i == 2 || i == 3 || i == 4);
            }
        },
        _ => {},
    }
}

} // verus!

verus! {

/// Law: the first prompt is read from the session that Herdr reported, agent as agent
/// and id as id. After `SessionPolled(Some((agent, id)))`, a fresh session (no done
/// marker) asks for exactly `PollPrompt { agent, session_id: id }`, and so does a done
/// session whose cache gives no title, once it has removed the stale done marker.
pub proof fn lemma_prompt_read_from_reported_session(
    p: ColdPhaseView,
    agent: Seq<char>,
    id: Seq<char>,
)
    requires
        p.stage == Stage::AwaitingSession,
    ensures
        ({
            let (q, first) = spec_cold_step(p, ColdEventView::SessionPolled(Some((agent, id))));
            let (_, fresh) = spec_cold_step(q, ColdEventView::DoneChecked(false));
            let (r, _) = spec_cold_step(q, ColdEventView::DoneChecked(true));
            let (_, stale) = spec_cold_step(r, ColdEventView::CacheRead(None));
            &&& q.stage == Stage::AwaitingDoneCheck
            &&& q.agent == agent
            &&& q.session_id == id
            &&& fresh == seq![ColdActionView::PollPrompt { agent: agent, session_id: id }]
            &&& stale.len() == 2
            &&& stale[1] == ColdActionView::PollPrompt { agent: agent, session_id: id }
            &&& stale[0] == ColdActionView::RemoveFile(
                spec_session_key(agent, id).push('.') + "done"@,
            )
        }),
{
}

/// Law: the prompt handed to Codex is the first prompt that was read, and the title cache
/// and done marker written afterwards are the files of the reported session's key.
pub proof fn lemma_files_of_reported_session(
    p: ColdPhaseView,
    agent: Seq<char>,
    id: Seq<char>,
    prompt: Seq<char>,
    title: Seq<char>,
)
    requires
        p.stage == Stage::AwaitingSession,
    ensures
        ({
            let key = spec_session_key(agent, id);
            let (q, _) = spec_cold_step(p, ColdEventView::SessionPolled(Some((agent, id))));
            let (r, _) = spec_cold_step(q, ColdEventView::DoneChecked(false));
            let (s, ask) = spec_cold_step(r, ColdEventView::PromptPolled(Some(prompt)));
            let (_, done) = spec_cold_step(s, ColdEventView::TitleGenerated(Some(title)));
            &&& ask == seq![
                ColdActionView::Generate { prompt: prompt, candidate: key.push('.') + "candidate"@ },
            ]
            &&& done.contains(
                ColdActionView::WriteFile {
                    name: key.push('.') + "title"@,
                    contents: title.push('\n'),
                },
            )
            &&& done.contains(ColdActionView::MarkDone(key.push('.') + "done"@))
            &&& done.contains(ColdActionView::Report(title))
        }),
{
    let key = spec_session_key(agent, id);
    let (q, _) = spec_cold_step(p, ColdEventView::SessionPolled(Some((agent, id))));
    let (r, _) = spec_cold_step(q, ColdEventView::DoneChecked(false));
    let (s, _) = spec_cold_step(r, ColdEventView::PromptPolled(Some(prompt)));
    lemma_generated_title_marks_done(s, title);
}

} // verus!
