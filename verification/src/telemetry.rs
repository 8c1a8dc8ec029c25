//! Telemetry of tool calls: what a session used.

use crate::analyze::lang::strings_view;
use crate::analyze::order::{lemma_sort_map, rank_fn, stable_sort, stable_sort_by, Ranked};
use crate::analyze::rules::join2;
use crate::strmap::{lookup, put, StrMap};
use crate::text::bytes::str_eq;
use vstd::prelude::*;
use vstd::string::StringSliceAdditionalSpecFns;

verus! {

/// How often a tool was called in a session, and what it put out.
#[derive(Debug, Clone)]
pub struct ToolCall {
    pub tool_name: String,
    pub call_count: usize,
    pub total_tokens_out: usize,
}

/// What a session used.
#[derive(Debug, Clone)]
pub struct SessionSummary {
    pub session_id: String,
    pub total_calls: usize,
    pub total_tokens_in: usize,
    pub total_tokens_out: usize,
    pub total_bytes: usize,
    pub tools_used: Vec<ToolCall>,
}

/// One recorded call of a tool, as far as the summaries read it.
pub struct ToolEvent {
    pub session_id: String,
    pub tool_name: String,
    pub tokens_in: usize,
    pub tokens_out: usize,
    pub bytes_out: usize,
}

/// The content of a [`ToolEvent`].
pub struct ToolEventView {
    pub session_id: Seq<char>,
    pub tool_name: Seq<char>,
    pub tokens_in: usize,
    pub tokens_out: usize,
    pub bytes_out: usize,
}

impl View for ToolEvent {
    type V = ToolEventView;

    open spec fn view(&self) -> ToolEventView {
        ToolEventView {
            session_id: self.session_id@,
            tool_name: self.tool_name@,
            tokens_in: self.tokens_in,
            tokens_out: self.tokens_out,
            bytes_out: self.bytes_out,
        }
    }
}

/// The contents of a sequence of events.
pub open spec fn event_views(s: Seq<ToolEvent>) -> Seq<ToolEventView> {
    s.map_values(|e: ToolEvent| e@)
}

/// The content of a [`ToolCall`]: the name, the calls and the tokens.
pub open spec fn call_content() -> spec_fn(ToolCall) -> (Seq<char>, (usize, usize)) {
    |c: ToolCall| (c.tool_name@, (c.call_count, c.total_tokens_out))
}

/// The contents of a sequence of tool calls.
pub open spec fn call_views(s: Seq<ToolCall>) -> Seq<(Seq<char>, (usize, usize))> {
    s.map_values(call_content())
}

/// The sum of two counts, held at the largest `usize`.
pub open spec fn capped_sum(a: usize, b: usize) -> usize {
    if a + b <= usize::MAX {
        (a + b) as usize
    } else {
        usize::MAX
    }
}

/// The totals of a session: calls, tokens in, tokens out and bytes.
pub struct Totals {
    pub calls: usize,
    pub tokens_in: usize,
    pub tokens_out: usize,
    pub bytes: usize,
}

/// The totals of a session over the first `n` events.
pub open spec fn totals_of(events: Seq<ToolEventView>, session: Seq<char>, n: int) -> Totals
    decreases n,
{
    if n <= 0 {
        Totals { calls: 0, tokens_in: 0, tokens_out: 0, bytes: 0 }
    } else {
        let prev = totals_of(events, session, n - 1);
        let e = events[n - 1];
        if e.session_id == session {
            Totals {
                calls: capped_sum(prev.calls, 1),
                tokens_in: capped_sum(prev.tokens_in, e.tokens_in),
                tokens_out: capped_sum(prev.tokens_out, e.tokens_out),
                bytes: capped_sum(prev.bytes, e.bytes_out),
            }
        } else {
            prev
        }
    }
}

/// For each tool of a session, in the order in which the tools were first
/// called, its calls and the tokens it put out, over the first `n` events.
pub open spec fn tools_of(
    events: Seq<ToolEventView>,
    session: Seq<char>,
    n: int,
) -> Seq<(Seq<char>, (usize, usize))>
    decreases n,
{
    if n <= 0 {
        Seq::empty()
    } else {
        let prev = tools_of(events, session, n - 1);
        let e = events[n - 1];
        if e.session_id == session {
            match lookup(prev, e.tool_name) {
                Some(c) => put(
                    prev,
                    e.tool_name,
                    (capped_sum(c.0, 1), capped_sum(c.1, e.tokens_out)),
                ),
                None => put(prev, e.tool_name, (1usize, e.tokens_out)),
            }
        } else {
            prev
        }
    }
}

/// A rank that falls as the number of calls grows.
pub open spec fn by_calls_descending() -> spec_fn((Seq<char>, (usize, usize))) -> int {
    |c: (Seq<char>, (usize, usize))| usize::MAX - c.1.0
}

impl Ranked for ToolCall {
    open spec fn rank(&self) -> int {
        usize::MAX - self.call_count
    }

    fn rank_of(&self) -> (r: usize) {
        usize::MAX - self.call_count
    }
}

/// Whether a summary is that of a session: it has the totals of the session,
/// and its tools, the most called first, tools called equally often in the
/// order in which they were first called.
pub open spec fn is_summary_of(
    s: SessionSummary,
    events: Seq<ToolEventView>,
    session: Seq<char>,
) -> bool {
    &&& s.session_id@ == session
    &&& (Totals {
        calls: s.total_calls,
        tokens_in: s.total_tokens_in,
        tokens_out: s.total_tokens_out,
        bytes: s.total_bytes,
    }) == totals_of(events, session, events.len() as int)
    &&& call_views(s.tools_used@) == stable_sort_by(
        tools_of(events, session, events.len() as int),
        by_calls_descending(),
    )
}

/// What the session `session_id` used: its totals, and its tools, the most
/// called first.
pub fn summarize_session(events: &[ToolEvent], session_id: &str) -> (res: SessionSummary)
    ensures
        is_summary_of(res, event_views(events@), session_id@),
{
    let ghost views = event_views(events@);
    let mut calls: usize = 0;
    let mut tokens_in: usize = 0;
    let mut tokens_out: usize = 0;
    let mut bytes: usize = 0;
    let mut tally: StrMap<(usize, usize)> = StrMap::new();
    let mut i: usize = 0;
    while i < events.len()
        invariant
            i <= events@.len(),
            views == event_views(events@),
            (Totals { calls, tokens_in, tokens_out, bytes }) == totals_of(
                views,
                session_id@,
                i as int,
            ),
            tally.pairs() == tools_of(views, session_id@, i as int),
        decreases events@.len() - i,
    {
        let e = &events[i];
        assert(views[i as int] == e@);
        if str_eq(e.session_id.as_str(), session_id) {
            calls = calls.saturating_add(1);
            tokens_in = tokens_in.saturating_add(e.tokens_in);
            tokens_out = tokens_out.saturating_add(e.tokens_out);
            bytes = bytes.saturating_add(e.bytes_out);
            let next = match tally.get(e.tool_name.as_str()) {
                Some(c) => (c.0.saturating_add(1), c.1.saturating_add(e.tokens_out)),
                None => (1, e.tokens_out),
            };
            tally.insert(e.tool_name.clone(), next);
        }
        i += 1;
    }
    let mut tools: Vec<ToolCall> = Vec::new();
    let n = tally.len();
    let ghost pairs = tally.pairs();
    let mut k: usize = 0;
    while k < n
        invariant
            k <= n,
            n == pairs.len(),
            pairs == tally.pairs(),
            call_views(tools@) == pairs.take(k as int),
        decreases n - k,
    {
        let ghost prev = tools@;
        let c = *tally.value_at(k);
        tools.push(
            ToolCall { tool_name: tally.key_at(k).clone(), call_count: c.0, total_tokens_out: c.1 },
        );
        proof {
            assert(call_views(tools@) =~= call_views(prev).push(pairs[k as int]));
            assert(pairs.take(k + 1) =~= pairs.take(k as int).push(pairs[k as int]));
        }
        k += 1;
    }
    let ghost unsorted = tools@;
    let sorted = stable_sort(tools);
    proof {
        assert(pairs.take(n as int) =~= pairs);
        assert forall|x: ToolCall| #[trigger]
            rank_fn::<ToolCall>()(x) == by_calls_descending()(call_content()(x)) by {}
        lemma_sort_map(unsorted, call_content(), rank_fn::<ToolCall>(), by_calls_descending());
    }
    SessionSummary {
        session_id: session_id.to_owned(),
        total_calls: calls,
        total_tokens_in: tokens_in,
        total_tokens_out: tokens_out,
        total_bytes: bytes,
        tools_used: sorted,
    }
}

/// The sessions of the first `n` events, each once, in the order in which
/// they began.
pub open spec fn sessions_of(events: Seq<ToolEventView>, n: int) -> Seq<Seq<char>>
    decreases n,
{
    if n <= 0 {
        Seq::empty()
    } else {
        crate::analyze::imports::add_unique(sessions_of(events, n - 1), events[n - 1].session_id)
    }
}

/// What each session used, the sessions in the order in which they began.
pub fn summarize_all_sessions(events: &[ToolEvent]) -> (res: Vec<SessionSummary>)
    ensures
        res@.len() == sessions_of(event_views(events@), events@.len() as int).len(),
        forall|i: int|
            0 <= i < res@.len() ==> is_summary_of(
                #[trigger] res@[i],
                event_views(events@),
                sessions_of(event_views(events@), events@.len() as int)[i],
            ),
{
    let ghost views = event_views(events@);
    let mut ids: Vec<String> = Vec::new();
    let mut i: usize = 0;
    proof {
        assert(strings_view(ids@) =~= Seq::<Seq<char>>::empty());
    }
    while i < events.len()
        invariant
            i <= events@.len(),
            views == event_views(events@),
            strings_view(ids@) == sessions_of(views, i as int),
        decreases events@.len() - i,
    {
        assert(views[i as int] == events@[i as int]@);
        crate::analyze::imports::push_unique(&mut ids, events[i].session_id.clone());
        i += 1;
    }
    let mut out: Vec<SessionSummary> = Vec::new();
    let mut k: usize = 0;
    while k < ids.len()
        invariant
            k <= ids@.len(),
            out@.len() == k,
            views == event_views(events@),
            forall|j: int| 0 <= j < k ==> is_summary_of(#[trigger] out@[j], views, ids@[j]@),
        decreases ids@.len() - k,
    {
        out.push(summarize_session(events, ids[k].as_str()));
        k += 1;
    }
    proof {
        assert forall|j: int| 0 <= j < out@.len() implies is_summary_of(
            #[trigger] out@[j],
            views,
            sessions_of(views, events@.len() as int)[j],
        ) by {
            assert(strings_view(ids@)[j] == ids@[j]@);
        }
    }
    out
}

/// Where the events of a project are kept.
pub struct TelemetryStorage {
    dir: String,
    events_file: String,
}

impl TelemetryStorage {
    /// The storage in the directory `dir`: the events lie in `events.jsonl`
    /// in it.
    pub fn new(dir: String) -> (res: Self)
        ensures
            res.spec_dir() == dir@,
            res.spec_events_file() == dir@ + "/events.jsonl"@,
    {
        let events_file = join2(dir.as_str(), "/events.jsonl");
        TelemetryStorage { dir, events_file }
    }

    pub closed spec fn spec_dir(&self) -> Seq<char> {
        self.dir@
    }

    pub closed spec fn spec_events_file(&self) -> Seq<char> {
        self.events_file@
    }

    /// The path of the file of events.
    pub fn events_file_path(&self) -> (res: &String)
        ensures
            res@ == self.spec_events_file(),
    {
        &self.events_file
    }

    /// The directory of the storage.
    pub fn dir(&self) -> (res: &String)
        ensures
            res@ == self.spec_dir(),
    {
        &self.dir
    }
}

/// An estimate of the number of tokens of a text: a quarter of the number of
/// its bytes.
pub fn count_bytes_estimate(text: &str) -> (res: usize)
    ensures
        res == text.spec_bytes().len() / 4,
{
    text.as_bytes().len() / 4
}

} // verus!
