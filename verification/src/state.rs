//! What the plugin keeps on disk, and the decisions it takes from it.
//!
//! Each key owns a few files in the state directory: `<key>.claim` while a pane is being
//! handled, `<key>.title` with the cached title followed by a line feed, `<key>.done`
//! once a model title was published, `<key>.candidate` while the model writes its answer,
//! and the legacy `<key>.slug` cache that older versions wrote.

use vstd::prelude::*;
use vstd::utf8::encode_utf8;
use crate::slug::{
    is_stable_title, lemma_sanitize_ignores_final_line_feed, lemma_stable_title_is_fixed,
    lemma_stable_title_round_trip, sanitize_title, spec_sanitize_title,
};
use crate::text::{
    decimal, decimal_string, ends_with, push_char, push_decimal, push_str,
    same_chars, starts_with,
};

verus! {

/// How long a claim keeps other hooks off a pane, in seconds.
pub const CLAIM_TTL_SECS: u64 = 120;

/// The size at which the debug log starts over, in bytes.
pub const MAX_DEBUG_LOG_BYTES: u64 = 262144;

/// The kinds of file the state directory holds for a key.
pub enum StateFile {
    Claim,
    Done,
    Title,
    LegacyTitle,
    Candidate,
}

/// The extension of a state file of the given kind.
pub open spec fn state_file_extension(kind: StateFile) -> Seq<char> {
    match kind {
        StateFile::Claim => "claim"@,
        StateFile::Done => "done"@,
        StateFile::Title => "title"@,
        StateFile::LegacyTitle => "slug"@,
        StateFile::Candidate => "candidate"@,
    }
}

/// The name of the state file of `key` of the given kind.
pub open spec fn spec_state_file_name(key: Seq<char>, kind: StateFile) -> Seq<char> {
    key.push('.') + state_file_extension(kind)
}

/// The name of the state file of `key` of the given kind: the key, a dot, the extension.
pub fn state_file_name(key: &str, kind: StateFile) -> (r: String)
    ensures
        r@ == spec_state_file_name(key@, kind),
{
    let mut out = key.to_owned();
    push_char(&mut out, '.');
    let ext = match kind {
        StateFile::Claim => "claim",
        StateFile::Done => "done",
        StateFile::Title => "title",
        StateFile::LegacyTitle => "slug",
        StateFile::Candidate => "candidate",
    };
    push_str(&mut out, ext);
    out
}

/// The title that a cache file holding `raw` gives back, if any.
pub open spec fn spec_restored_title(raw: Seq<char>) -> Option<Seq<char>> {
    let title = spec_sanitize_title(raw);
    if title.len() == 0 {
        None
    } else {
        Some(title)
    }
}

/// The contents of the title cache file for `title`: the title and a line feed.
pub open spec fn spec_cache_contents(title: Seq<char>) -> Seq<char> {
    title.push('\n')
}

/// What a cache file gives back: the title, and the contents to write to the title cache
/// when the title came from the legacy cache.
pub struct CachedTitle {
    pub title: Option<String>,
    pub rewrite: Option<String>,
}

/// The contents of the title cache file for `title`.
///
/// Law: a stable, non-empty title reads back unchanged from what this writes.
pub fn cache_contents(title: &str) -> (r: String)
    ensures
        r@ == spec_cache_contents(title@),
        is_stable_title(title@) && title@.len() > 0 ==> spec_restored_title(r@) == Some(title@),
{
    proof {
        if is_stable_title(title@) {
            lemma_stable_title_round_trip(title@);
        }
    }
    let mut out = title.to_owned();
    push_char(&mut out, '\n');
    out
}

/// The title restored from the text `raw` of a cache file; `from_legacy` tells that it
/// came from the legacy cache, which is then migrated to the title cache.
pub fn restore_cached_title(raw: &str, from_legacy: bool) -> (r: CachedTitle)
    ensures
        r.title.deep_view() == spec_restored_title(raw@),
        r.rewrite.deep_view() == (if from_legacy && r.title is Some {
            Some(spec_cache_contents(spec_sanitize_title(raw@)))
        } else {
            None
        }),
{
    let title = sanitize_title(raw);
    if title.as_str().is_empty() {
        return CachedTitle { title: None, rewrite: None };
    }
    let rewrite = if from_legacy {
        let mut contents = title.clone();
        push_char(&mut contents, '\n');
        Some(contents)
    } else {
        None
    };
    CachedTitle { title: Some(title), rewrite }
}

/// Whether a file name is a marker of the pre-session-key layout: it starts with
/// `pane-` and ends with `.claim`, `.done` or `.slug`.
pub open spec fn spec_is_legacy_marker_name(name: Seq<char>) -> bool {
    &&& name.len() >= 5 && name.take(5) == "pane-"@
    &&& {
        ||| is_suffix(".claim"@, name)
        ||| is_suffix(".done"@, name)
        ||| is_suffix(".slug"@, name)
    }
}

/// Whether `p` ends `s`.
pub open spec fn is_suffix(p: Seq<char>, s: Seq<char>) -> bool {
    p.len() <= s.len() && s.skip(s.len() - p.len()) == p
}

pub fn is_legacy_marker_name(name: &str) -> (r: bool)
    ensures
        r == spec_is_legacy_marker_name(name@),
{
    proof {
        reveal_strlit("pane-");
    }
    starts_with(name, "pane-") && (ends_with(name, ".claim") || ends_with(name, ".done")
        || ends_with(name, ".slug"))
}

/// Whether a claim of the given age, in whole seconds, still holds; `None` stands for a
/// claim whose age is unknown or lies in the future, which does not hold.
pub fn claim_is_fresh(age_secs: Option<u64>) -> (r: bool)
    ensures
        r == (age_secs matches Some(a) && a < CLAIM_TTL_SECS),
{
    match age_secs {
        Some(a) => a < CLAIM_TTL_SECS,
        None => false,
    }
}

/// Whether debug logging is on: the setting is exactly `true`.
pub fn debug_logging_enabled(setting: Option<&str>) -> (r: bool)
    ensures
        r == (setting matches Some(s) && s@ == "true"@),
{
    match setting {
        Some(s) => same_chars(s, "true"),
        None => false,
    }
}

/// Whether the debug log, of the given size in bytes if it exists, must start over so
/// that `line` and its line feed fit within `MAX_DEBUG_LOG_BYTES`.
pub open spec fn spec_debug_log_needs_reset(len: Option<u64>, line: Seq<char>) -> bool {
    match len {
        Some(l) => l + encode_utf8(line).len() + 1 > MAX_DEBUG_LOG_BYTES,
        None => false,
    }
}

/// The size of the debug log after `line` and its line feed are written to a log of the
/// given size, emptied first when `reset`.
pub open spec fn debug_log_size_after(len: Option<u64>, line: Seq<char>, reset: bool) -> int {
    let before: int = if reset {
        0
    } else {
        match len {
            Some(l) => l as int,
            None => 0,
        }
    };
    before + encode_utf8(line).len() + 1
}

/// Whether the debug log, of the given size in bytes if it exists, must start over
/// before `line` is appended to it.
///
/// Law: the log never outgrows `MAX_DEBUG_LOG_BYTES` for a line that fits in it.
pub fn debug_log_needs_reset(len: Option<u64>, line: &str) -> (r: bool)
    ensures
        r == spec_debug_log_needs_reset(len, line@),
        encode_utf8(line@).len() + 1 <= MAX_DEBUG_LOG_BYTES ==> debug_log_size_after(
            len,
            line@,
            r,
        ) <= MAX_DEBUG_LOG_BYTES,
{
    let bytes = line.as_bytes().len();
    match len {
        Some(l) => {
            if bytes >= MAX_DEBUG_LOG_BYTES as usize {
                true
            } else {
                l > MAX_DEBUG_LOG_BYTES - 1 - bytes as u64
            }
        },
        None => false,
    }
}

/// One line of the debug log: the time, the process id and the message.
pub open spec fn spec_debug_log_line(now: u64, pid: u32, message: Seq<char>) -> Seq<char> {
    decimal(now as nat) + " [pid "@ + decimal(pid as nat) + "] "@ + message
}

pub fn debug_log_line(now: u64, pid: u32, message: &str) -> (r: String)
    ensures
        r@ == spec_debug_log_line(now, pid, message@),
{
    let mut out = decimal_string(now);
    push_str(&mut out, " [pid ");
    push_decimal(&mut out, pid as u64);
    push_str(&mut out, "] ");
    push_str(&mut out, message);
    out
}

/// What a poll does after one attempt.
#[derive(PartialEq, Eq, Structural, Clone, Copy, Debug)]
pub enum PollStep {
    /// The attempt found what was polled for.
    Stop,
    /// Wait, then try again.
    Wait,
    /// That was the last attempt.
    GiveUp,
}

/// The decision after attempt `attempt` (counted from zero) of `attempts`, which found
/// what was polled for or not: stop when found, else wait and try again while attempts
/// remain, else give up.
pub fn poll_step(attempt: u32, attempts: u32, found: bool) -> (r: PollStep)
    ensures
        r == (if found {
            PollStep::Stop
        } else if attempt + 1 < attempts {
            PollStep::Wait
        } else {
            PollStep::GiveUp
        }),
{
    if found {
        PollStep::Stop
    } else if attempt < attempts && attempt + 1 < attempts {
        PollStep::Wait
    } else {
        PollStep::GiveUp
    }
}

} // verus!

verus! {

/// Law: a cache file, or an answer of Codex, gives a title exactly when sanitizing its
/// text leaves something, and the title is then that sanitized text, whatever the text
/// ends with; a final line feed changes nothing.
pub proof fn lemma_restored_title_is_sanitized_text(raw: Seq<char>)
    ensures
        spec_restored_title(raw) is Some <==> spec_sanitize_title(raw).len() > 0,
        spec_sanitize_title(raw).len() > 0 ==> spec_restored_title(raw) == Some(
            spec_sanitize_title(raw),
        ),
        spec_restored_title(raw.push('\n')) == spec_restored_title(raw),
{
    lemma_sanitize_ignores_final_line_feed(raw);
}

/// Law: a stable, non-empty title is given back by a cache file holding it, with or
/// without the final line feed.
pub proof fn lemma_stable_title_restores(t: Seq<char>)
    requires
        is_stable_title(t),
        t.len() > 0,
    ensures
        spec_restored_title(t) == Some(t),
        spec_restored_title(spec_cache_contents(t)) == Some(t),
{
    lemma_stable_title_is_fixed(t);
}

} // verus!
