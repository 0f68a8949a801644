//! What the plugin reads from Herdr's JSON answers and what it hands to Herdr.
//!
//! A pane's native agent session sits at `/result/pane/agent_session`, else at
//! `/pane/agent_session`, else at `/agent_session` of the answer to `pane get`. A session
//! names its agent in `agent`, or else in `source` with any leading `herdr:` removed, and
//! its id in `value`. The answer to `api snapshot` lists agents at
//! `/result/snapshot/agents`, each with a `pane_id` and an `agent_session`.

use vstd::prelude::*;
use crate::text::{chars_of, decimal, push_char, push_decimal, push_str, string_from_chars};

verus! {

/// What a JSON document holds at a JSON Pointer, as far as the plugin reads it.
pub enum JsonAt {
    /// Nothing there, or the document is not valid JSON.
    Missing,
    /// A string.
    Text(String),
    /// An array of the given length.
    List(usize),
    /// Any other value.
    Other,
}

/// The model of `JsonAt`.
pub enum JsonAtView {
    Missing,
    Text(Seq<char>),
    List(nat),
    Other,
}

impl View for JsonAt {
    type V = JsonAtView;

    open spec fn view(&self) -> JsonAtView {
        match self {
            JsonAt::Missing => JsonAtView::Missing,
            JsonAt::Text(s) => JsonAtView::Text(s@),
            JsonAt::List(n) => JsonAtView::List(*n as nat),
            JsonAt::Other => JsonAtView::Other,
        }
    }
}

impl JsonAt {
    /// Whether nothing stands there.
    pub fn is_missing(&self) -> (r: bool)
        ensures
            r == (self@ is Missing),
    {
        match self {
            JsonAt::Missing => true,
            _ => false,
        }
    }
}

/// What `serde_json` finds at `pointer` in the JSON text `doc`.
pub uninterp spec fn json_value_at(doc: Seq<u8>, pointer: Seq<char>) -> JsonAtView;

/// Parses `doc` with `serde_json::from_slice` into a `serde_json::Value` and looks
/// `pointer` up in it with `Value::pointer`. The result is named `json_value_at`: a
/// document that does not parse, and a pointer that finds nothing, give `Missing`; a
/// string gives its text, an array its length, anything else `Other`. Nothing more about
/// JSON is claimed.
#[verifier::external_body]
pub(crate) fn json_lookup(doc: &[u8], pointer: &str) -> (r: JsonAt)
    ensures
        r@ == json_value_at(doc@, pointer@),
{
    match serde_json::from_slice::<serde_json::Value>(doc) {
        Err(_) => JsonAt::Missing,
        Ok(value) => match value.pointer(pointer) {
            None => JsonAt::Missing,
            Some(serde_json::Value::String(s)) => JsonAt::Text(s.clone()),
            Some(serde_json::Value::Array(items)) => JsonAt::List(items.len()),
            Some(_) => JsonAt::Other,
        },
    }
}

/// The text at `pointer`, if a string stands there.
pub open spec fn text_at(doc: Seq<u8>, pointer: Seq<char>) -> Option<Seq<char>> {
    match json_value_at(doc, pointer) {
        JsonAtView::Text(s) => Some(s),
        _ => None,
    }
}

/// Whether some value stands at `pointer`.
pub open spec fn present_at(doc: Seq<u8>, pointer: Seq<char>) -> bool {
    !(json_value_at(doc, pointer) is Missing)
}

/// `s` with every leading copy of `p` removed, as `str::trim_start_matches` does with a
/// string pattern.
pub open spec fn strip_leading(s: Seq<char>, p: Seq<char>) -> Seq<char>
    decreases s.len(),
{
    if p.len() > 0 && p.len() <= s.len() && s.take(p.len() as int) == p {
        strip_leading(s.skip(p.len() as int), p)
    } else {
        s
    }
}

/// The agent and id of a session whose `agent`, `source` and `value` fields hold what
/// is given.
pub open spec fn spec_session_fields(
    agent: JsonAtView,
    source: JsonAtView,
    value: JsonAtView,
) -> Option<(Seq<char>, Seq<char>)> {
    let name = match agent {
        JsonAtView::Text(a) => Some(a),
        _ => match source {
            JsonAtView::Text(s) => Some(strip_leading(s, "herdr:"@)),
            _ => None,
        },
    };
    match (name, value) {
        (Some(a), JsonAtView::Text(id)) => Some((a, id)),
        _ => None,
    }
}

/// The agent and id of the session object at `base`.
pub open spec fn spec_session_at(doc: Seq<u8>, base: Seq<char>) -> Option<(Seq<char>, Seq<char>)> {
    spec_session_fields(
        json_value_at(doc, base + "/agent"@),
        json_value_at(doc, base + "/source"@),
        json_value_at(doc, base + "/value"@),
    )
}

/// Where the answer to `pane get` holds the pane's agent session, if anywhere.
pub open spec fn spec_pane_session_base(doc: Seq<u8>) -> Option<Seq<char>> {
    if present_at(doc, "/result/pane/agent_session"@) {
        Some("/result/pane/agent_session"@)
    } else if present_at(doc, "/pane/agent_session"@) {
        Some("/pane/agent_session"@)
    } else if present_at(doc, "/agent_session"@) {
        Some("/agent_session"@)
    } else {
        None
    }
}

/// The agent and session id that the answer to `pane get` gives.
pub open spec fn spec_pane_agent_session(doc: Seq<u8>) -> Option<(Seq<char>, Seq<char>)> {
    match spec_pane_session_base(doc) {
        Some(base) => spec_session_at(doc, base),
        None => None,
    }
}

/// `s` with every leading copy of `p` removed.
pub fn trim_start_matches(s: &str, p: &str) -> (r: String)
    ensures
        r@ == strip_leading(s@, p@),
{
    let cs = chars_of(s);
    let ps = chars_of(p);
    let n = cs.len();
    let m = ps.len();
    let mut i: usize = 0;
    assert(cs@.skip(0) =~= cs@);
    loop
        invariant
            cs@ == s@,
            ps@ == p@,
            n == cs.len(),
            m == ps.len(),
            i <= n,
            strip_leading(s@, p@) == strip_leading(cs@.skip(i as int), p@),
        ensures
            i <= n,
            strip_leading(s@, p@) == cs@.skip(i as int),
        decreases n - i,
    {
        if m == 0 || m > n - i {
            break;
        }
        let mut j: usize = 0;
        while j < m && cs[i + j] == ps[j]
            invariant
                0 < m <= n - i,
                n == cs.len(),
                m == ps.len(),
                j <= m,
                forall|k: int| 0 <= k < j ==> cs@[i + k] == ps@[k],
            decreases m - j,
        {
            j = j + 1;
        }
        let ghost rest = cs@.skip(i as int);
        if j < m {
            assert(rest.take(m as int)[j as int] != ps@[j as int]);
            assert(rest.take(m as int) != ps@);
            break;
        }
        assert(rest.take(m as int) =~= ps@);
        assert(rest.skip(m as int) =~= cs@.skip(i + m));
        i = i + m;
    }
    let mut out: Vec<char> = Vec::new();
    let mut k: usize = i;
    while k < n
        invariant
            i <= k <= n,
            n == cs.len(),
            out@ == cs@.subrange(i as int, k as int),
        decreases n - k,
    {
        out.push(cs[k]);
        k = k + 1;
        assert(cs@.subrange(i as int, k as int) =~= cs@.subrange(i as int, k - 1).push(cs@[k - 1]));
    }
    assert(cs@.subrange(i as int, n as int) =~= cs@.skip(i as int));
    string_from_chars(&out)
}

fn concat(a: &str, b: &str) -> (r: String)
    ensures
        r@ == a@ + b@,
{
    let mut out = a.to_owned();
    push_str(&mut out, b);
    out
}

/// The agent and id of a session whose `agent`, `source` and `value` fields hold what
/// is given: the agent is the `agent` text, else the `source` text without its leading
/// `herdr:` prefixes; both it and the `value` text must be there.
pub fn session_from_fields(agent: JsonAt, source: JsonAt, value: JsonAt) -> (r: Option<
    (String, String),
>)
    ensures
        r.deep_view() == spec_session_fields(agent@, source@, value@),
{
    let name = match agent {
        JsonAt::Text(a) => Some(a),
        _ => match source {
            JsonAt::Text(s) => Some(trim_start_matches(s.as_str(), "herdr:")),
            _ => None,
        },
    };
    match (name, value) {
        (Some(a), JsonAt::Text(id)) => Some((a, id)),
        _ => None,
    }
}

/// The agent and id of the session object at `base` of `doc`.
pub fn session_at(doc: &[u8], base: &str) -> (r: Option<(String, String)>)
    ensures
        r.deep_view() == spec_session_at(doc@, base@),
{
    let agent = json_lookup(doc, concat(base, "/agent").as_str());
    let source = json_lookup(doc, concat(base, "/source").as_str());
    let value = json_lookup(doc, concat(base, "/value").as_str());
    session_from_fields(agent, source, value)
}

/// The agent and native session id that the answer to `pane get` gives.
pub fn pane_agent_session(doc: &[u8]) -> (r: Option<(String, String)>)
    ensures
        r.deep_view() == spec_pane_agent_session(doc@),
{
    let first = "/result/pane/agent_session";
    let second = "/pane/agent_session";
    let third = "/agent_session";
    let base = if !json_lookup(doc, first).is_missing() {
        first
    } else if !json_lookup(doc, second).is_missing() {
        second
    } else if !json_lookup(doc, third).is_missing() {
        third
    } else {
        return None;
    };
    session_at(doc, base)
}

/// A native agent session that Herdr reports as active.
pub struct ActiveSession {
    pub pane_id: String,
    pub agent: String,
    pub id: String,
}

impl DeepView for ActiveSession {
    type V = (Seq<char>, Seq<char>, Seq<char>);

    open spec fn deep_view(&self) -> (Seq<char>, Seq<char>, Seq<char>) {
        (self.pane_id@, self.agent@, self.id@)
    }
}

/// The values of the `Some` entries of `s`, in order.
pub open spec fn somes<T>(s: Seq<Option<T>>) -> Seq<T>
    decreases s.len(),
{
    if s.len() == 0 {
        Seq::empty()
    } else {
        match s.last() {
            Some(x) => somes(s.drop_last()).push(x),
            None => somes(s.drop_last()),
        }
    }
}

/// Where the answer to `api snapshot` lists the agents.
pub open spec fn snapshot_agents_pointer() -> Seq<char> {
    "/result/snapshot/agents"@
}

/// The pointer of the agent entry with index `i`.
pub open spec fn snapshot_entry_pointer(i: nat) -> Seq<char> {
    snapshot_agents_pointer().push('/') + decimal(i)
}

/// The pane id, agent and session id of a snapshot entry whose fields hold what is given.
pub open spec fn spec_entry_fields(
    pane_id: JsonAtView,
    agent: JsonAtView,
    source: JsonAtView,
    value: JsonAtView,
) -> Option<(Seq<char>, Seq<char>, Seq<char>)> {
    match (pane_id, spec_session_fields(agent, source, value)) {
        (JsonAtView::Text(p), Some((a, id))) => Some((p, a, id)),
        _ => None,
    }
}

/// The active session that the snapshot entry with index `i` describes, if any.
pub open spec fn spec_snapshot_entry(doc: Seq<u8>, i: nat) -> Option<
    (Seq<char>, Seq<char>, Seq<char>),
> {
    let base = snapshot_entry_pointer(i);
    let session = base + "/agent_session"@;
    spec_entry_fields(
        json_value_at(doc, base + "/pane_id"@),
        json_value_at(doc, session + "/agent"@),
        json_value_at(doc, session + "/source"@),
        json_value_at(doc, session + "/value"@),
    )
}

/// What each of the first `n` snapshot entries describes.
pub open spec fn snapshot_entries(doc: Seq<u8>, n: nat) -> Seq<
    Option<(Seq<char>, Seq<char>, Seq<char>)>,
> {
    Seq::new(n, |i: int| spec_snapshot_entry(doc, i as nat))
}

/// The active sessions that the answer to `api snapshot` lists: the entries of the
/// agents array with a pane id and a session, in order; none when there is no such array.
pub open spec fn spec_active_sessions(doc: Seq<u8>) -> Seq<(Seq<char>, Seq<char>, Seq<char>)> {
    match json_value_at(doc, snapshot_agents_pointer()) {
        JsonAtView::List(n) => somes(snapshot_entries(doc, n)),
        _ => Seq::empty(),
    }
}

/// The active session of a snapshot entry whose `pane_id` field and whose session's
/// `agent`, `source` and `value` fields hold what is given.
pub fn entry_from_fields(pane_id: JsonAt, agent: JsonAt, source: JsonAt, value: JsonAt) -> (r:
    Option<ActiveSession>)
    ensures
        r.deep_view() == spec_entry_fields(pane_id@, agent@, source@, value@),
{
    match (pane_id, session_from_fields(agent, source, value)) {
        (JsonAt::Text(p), Some((a, id))) => Some(ActiveSession { pane_id: p, agent: a, id }),
        _ => None,
    }
}

fn snapshot_entry(doc: &[u8], i: usize) -> (r: Option<ActiveSession>)
    ensures
        r.deep_view() == spec_snapshot_entry(doc@, i as nat),
{
    let mut base = "/result/snapshot/agents".to_owned();
    push_char(&mut base, '/');
    push_decimal(&mut base, i as u64);
    let session = concat(base.as_str(), "/agent_session");
    let pane_id = json_lookup(doc, concat(base.as_str(), "/pane_id").as_str());
    let agent = json_lookup(doc, concat(session.as_str(), "/agent").as_str());
    let source = json_lookup(doc, concat(session.as_str(), "/source").as_str());
    let value = json_lookup(doc, concat(session.as_str(), "/value").as_str());
    entry_from_fields(pane_id, agent, source, value)
}

/// The active sessions that the answer `doc` to `api snapshot` lists.
pub fn active_sessions_from_snapshot(doc: &[u8]) -> (r: Vec<ActiveSession>)
    ensures
        r.deep_view() == spec_active_sessions(doc@),
{
    let mut out: Vec<ActiveSession> = Vec::new();
    let n = match json_lookup(doc, "/result/snapshot/agents") {
        JsonAt::List(n) => n,
        _ => {
            assert(out.deep_view() =~= Seq::empty());
            return out;
        },
    };
    let ghost entries = snapshot_entries(doc@, n as nat);
    let mut i: usize = 0;
    while i < n
        invariant
            i <= n,
            entries == snapshot_entries(doc@, n as nat),
            out.deep_view() == somes(entries.take(i as int)),
        decreases n - i,
    {
        let entry = snapshot_entry(doc, i);
        proof {
            assert(entries.take(i + 1).drop_last() =~= entries.take(i as int));
            assert(entries.take(i + 1).last() == spec_snapshot_entry(doc@, i as nat));
        }
        match entry {
            Some(s) => {
                let ghost before = out.deep_view();
                let ghost sv = s.deep_view();
                out.push(s);
                assert(out.deep_view() =~= before.push(sv));
            },
            None => {},
        }
        i = i + 1;
    }
    assert(entries.take(n as int) =~= entries);
    out
}

/// The source under which the plugin reports metadata to Herdr.
pub open spec fn metadata_source() -> Seq<char> {
    "plugin:herdr-plugin-renamer"@
}

/// The arguments of the `herdr` call that publishes `task` as the `$task` token of a pane.
pub open spec fn spec_report_task_args(pane_id: Seq<char>, task: Seq<char>) -> Seq<Seq<char>> {
    seq![
        "pane"@,
        "report-metadata"@,
        pane_id,
        "--source"@,
        metadata_source(),
        "--token"@,
        "task="@ + task,
    ]
}

/// The arguments of the `herdr` call that publishes only the custom `$task` token of a
/// pane; pane titles and agent labels stay untouched.
pub fn report_task_args(pane_id: &str, task: &str) -> (r: Vec<String>)
    ensures
        r.deep_view() == spec_report_task_args(pane_id@, task@),
{
    let mut args: Vec<String> = Vec::new();
    args.push("pane".to_owned());
    args.push("report-metadata".to_owned());
    args.push(pane_id.to_owned());
    args.push("--source".to_owned());
    args.push("plugin:herdr-plugin-renamer".to_owned());
    args.push("--token".to_owned());
    args.push(concat("task=", task));
    assert(args.deep_view() =~= spec_report_task_args(pane_id@, task@));
    args
}

} // verus!

verus! {

/// What stands at `field` of the entry with index `i` of the agents array of a snapshot.
pub open spec fn agent_entry_field(doc: Seq<u8>, i: nat, field: Seq<char>) -> JsonAtView {
    json_value_at(doc, "/result/snapshot/agents/"@ + decimal(i) + field)
}

/// The session that entry `i` of a snapshot reports, read field by field: its pane id,
/// the session's agent (else its source without leading `herdr:`), and the session's id.
pub open spec fn reported_session(doc: Seq<u8>, i: nat) -> Option<(Seq<char>, Seq<char>, Seq<char>)> {
    let pane = agent_entry_field(doc, i, "/pane_id"@);
    let agent = agent_entry_field(doc, i, "/agent_session/agent"@);
    let source = agent_entry_field(doc, i, "/agent_session/source"@);
    let value = agent_entry_field(doc, i, "/agent_session/value"@);
    if let (JsonAtView::Text(p), JsonAtView::Text(v)) = (pane, value) {
        if let JsonAtView::Text(a) = agent {
            Some((p, a, v))
        } else if let JsonAtView::Text(s) = source {
            Some((p, strip_leading(s, "herdr:"@), v))
        } else {
            None
        }
    } else {
        None
    }
}

/// `idx` picks, in increasing order, entries below `n` of which `r` lists the sessions,
/// and it picks every entry below `n` that reports a session.
pub open spec fn lists_reported_sessions(
    doc: Seq<u8>,
    n: nat,
    r: Seq<(Seq<char>, Seq<char>, Seq<char>)>,
    idx: Seq<nat>,
) -> bool {
    &&& idx.len() == r.len()
    &&& forall|k: int| 0 <= k < idx.len() ==> #[trigger] idx[k] < n && reported_session(doc, idx[k]) == Some(r[k])
    &&& forall|k1: int, k2: int| 0 <= k1 < k2 < idx.len() ==> #[trigger] idx[k1] < #[trigger] idx[k2]
    &&& forall|i: nat| i < n && (#[trigger] reported_session(doc, i)) is Some ==> exists|k: int|
        0 <= k < idx.len() && idx[k] == i
}

proof fn lemma_somes_positions<T>(s: Seq<Option<T>>) -> (idx: Seq<nat>)
    ensures
        idx.len() == somes(s).len(),
        forall|k: int| 0 <= k < idx.len() ==> #[trigger] idx[k] < s.len() && s[idx[k] as int] == Some(somes(s)[k]),
        forall|k1: int, k2: int| 0 <= k1 < k2 < idx.len() ==> #[trigger] idx[k1] < #[trigger] idx[k2],
        forall|i: int| 0 <= i < s.len() && (#[trigger] s[i]) is Some ==> exists|k: int|
            0 <= k < idx.len() && idx[k] == i,
    decreases s.len(),
{
    if s.len() == 0 {
        Seq::empty()
    } else {
        let init = s.drop_last();
        let idx0 = lemma_somes_positions(init);
        assert forall|i: int| 0 <= i < init.len() implies #[trigger] init[i] == s[i] by {}
        match s.last() {
            Some(x) => {
                let idx = idx0.push((s.len() - 1) as nat);
                assert forall|i: int| 0 <= i < s.len() && (#[trigger] s[i]) is Some implies exists|k: int|
                    0 <= k < idx.len() && idx[k] == i by {
                    if i == s.len() - 1 {
                        assert(idx[idx.len() - 1] == i);
                    } else {
                        assert(init[i] is Some);
                        let k = choose|k: int| 0 <= k < idx0.len() && idx0[k] == i;
                        assert(idx[k] == i);
                    }
                }
                assert forall|k: int| 0 <= k < idx.len() implies #[trigger] idx[k] < s.len() && s[idx[k] as int] == Some(somes(s)[k]) by {
                    if k < idx0.len() {
                        assert(idx[k] == idx0[k]);
                        assert(somes(s)[k] == somes(init)[k]);
                    }
                }
                assert forall|k1: int, k2: int| 0 <= k1 < k2 < idx.len() implies #[trigger] idx[k1] < #[trigger] idx[k2] by {
                    assert(idx[k1] == idx0[k1]);
                    if k2 < idx0.len() {
                        assert(idx[k2] == idx0[k2]);
                    }
                }
                idx
            },
            None => {
                assert forall|i: int| 0 <= i < s.len() && (#[trigger] s[i]) is Some implies exists|k: int|
                    0 <= k < idx0.len() && idx0[k] == i by {
                    assert(i != s.len() - 1);
                    assert(init[i] is Some);
                }
                idx0
            },
        }
    }
}

proof fn lemma_reported_session_is_entry(doc: Seq<u8>, i: nat)
    ensures
        reported_session(doc, i) == spec_snapshot_entry(doc, i),
{
    reveal_strlit("/result/snapshot/agents/");
    reveal_strlit("/result/snapshot/agents");
    reveal_strlit("/agent_session");
    reveal_strlit("/agent_session/agent");
    reveal_strlit("/agent_session/source");
    reveal_strlit("/agent_session/value");
    reveal_strlit("/agent");
    reveal_strlit("/source");
    reveal_strlit("/value");
    let base = snapshot_entry_pointer(i);
    let head = "/result/snapshot/agents/"@ + decimal(i);
    assert(base =~= head);
    assert(base + "/agent_session"@ + "/agent"@ =~= head + "/agent_session/agent"@);
    assert(base + "/agent_session"@ + "/source"@ =~= head + "/agent_session/source"@);
    assert(base + "/agent_session"@ + "/value"@ =~= head + "/agent_session/value"@);
}

/// Law: the active sessions of a snapshot are the sessions its agents array reports, in
/// the order of the array, every entry that reports one and no other; without an agents
/// array there are none.
pub proof fn lemma_active_sessions_are_reported_sessions(doc: Seq<u8>)
    ensures
        match json_value_at(doc, "/result/snapshot/agents"@) {
            JsonAtView::List(n) => exists|idx: Seq<nat>|
                lists_reported_sessions(doc, n, spec_active_sessions(doc), idx),
            _ => spec_active_sessions(doc).len() == 0,
        },
{
    match json_value_at(doc, "/result/snapshot/agents"@) {
        JsonAtView::List(n) => {
            let s = snapshot_entries(doc, n);
            let idx = lemma_somes_positions(s);
            let r = spec_active_sessions(doc);
            assert forall|i: nat| i < n implies #[trigger] reported_session(doc, i) == s[i as int] by {
                lemma_reported_session_is_entry(doc, i);
            }
            assert forall|k: int| 0 <= k < idx.len() implies #[trigger] idx[k] < n && reported_session(
                doc,
                idx[k],
            ) == Some(r[k]) by {
                assert(reported_session(doc, idx[k]) == s[idx[k] as int]);
            }
            assert forall|i: nat| i < n && (#[trigger] reported_session(doc, i)) is Some implies exists|
                k: int,
            | 0 <= k < idx.len() && idx[k] == i by {
                assert(s[i as int] is Some);
            }
            assert(lists_reported_sessions(doc, n, r, idx));
        },
        _ => {},
    }
}

} // verus!
