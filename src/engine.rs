//! The scan-cache-act engine. It owns the cache tiers, the duration memory
//! and an outbox of events for the observer. One cycle runs as:
//! `begin_cycle` (discovery, snapshot from memory, Tier-1 and Tier-2 cache
//! checks), then for each target window `scan_window` and `conclude_window`,
//! then `end_cycle` and `sleep_after_cycle`. Acting on a control runs through
//! `action_step`, one platform command at a time.
use vstd::prelude::*;
use crate::action::{action_next, next_action, ActionCommand, ActionEvent};
use crate::events::{
    lemma_rows_unique,
    rows_sorted,
    rows_view,
    sort_rows,
    stat_view,
    DurationMemory,
    Event,
    WindowStat,
};
use crate::order::{lemma_map_multiset, sorted_by_title};
use crate::report::{
    backoff_line,
    backoff_text,
    cached_button_line,
    cached_button_text,
    clicked_line,
    clicked_text,
    found_button_line,
    found_button_text,
    high_load_line,
    high_load_text,
    invoked_line,
    invoked_text,
    no_point_line,
    no_point_text,
    not_found_line,
    not_found_text,
    origin_line,
    origin_text,
    sleeping_line,
    sleeping_text,
};
use crate::scanner::{scan_for_context_and_button, scan_spec, texts_view, ScanResult};
use crate::schedule::{any_slow, next_sleep_ms, sleep_spec, SLOW_SCAN_MS};
use crate::text::{lower_of, lowercase};
use crate::tree::{place_label, UiTree, ANCESTRY_CAP, DESKTOP, SIBLING_REACH};
use crate::windows::{classify, listed, pairs_view, targeted};

verus! {

/// The settings the engine works with.
pub struct EngineConfig {
    /// Sleep between cycles, in milliseconds.
    pub interval_ms: u64,
    /// Text that a target window's title holds (compared case-insensitively).
    pub target_window_title: String,
    /// Phrases that identify the control to activate.
    pub button_patterns: Vec<String>,
    /// Phrases that must appear in the same tree first; none disables the check.
    pub context_patterns: Vec<String>,
}

/// What `begin_cycle` found.
pub struct CycleStart {
    /// The target windows of this cycle, in window order, with their titles.
    pub targets: Vec<(String, usize)>,
    /// The lower-cased title of the focused window (empty when unknown).
    pub focused_lower: String,
    /// A control found through the cache: act on it and end the cycle.
    pub shortcut: Option<usize>,
}

pub open spec fn is_log(e: Event, line: Seq<char>) -> bool {
    match e {
        Event::Log(s) => s@ == line,
        _ => false,
    }
}

pub open spec fn is_status(e: Event, line: Seq<char>) -> bool {
    match e {
        Event::Status(s) => s@ == line,
        _ => false,
    }
}

/// `e` publishes the rows `input` as a snapshot: the same rows, sorted by
/// title, rows with equal titles in `row_le` order.
pub open spec fn publishes(e: Event, input: Seq<WindowStat>) -> bool {
    match e {
        Event::VisibleWindows(v) => rows_sorted(rows_view(v@)) && sorted_by_title(v@)
            && v@.to_multiset() == input.to_multiset(),
        _ => false,
    }
}

/// `e` is a target-window snapshot: sorted by title and holding exactly the
/// rows whose views are `rows`.
pub open spec fn is_snapshot(e: Event, rows: Seq<(Seq<char>, u64, bool, bool)>) -> bool {
    match e {
        Event::VisibleWindows(v) => rows_sorted(rows_view(v@)) && sorted_by_title(v@)
            && rows_view(v@).to_multiset() == rows.to_multiset(),
        _ => false,
    }
}

/// The scan durations of snapshot rows, in order.
pub open spec fn row_durations(rows: Seq<WindowStat>) -> Seq<u64> {
    rows.map_values(|s: WindowStat| s.duration_ms)
}

/// The window titled `title` is the focused one.
pub open spec fn focus_match(title: Seq<char>, focused_lower: Seq<char>) -> bool {
    lowered_focus_match(lower_of(title), focused_lower)
}

/// A window whose lower-cased title is `title_lower` is the focused one: a
/// focused title is known and equals it.
pub open spec fn lowered_focus_match(title_lower: Seq<char>, focused_lower: Seq<char>) -> bool {
    focused_lower.len() > 0 && title_lower == focused_lower
}

/// Whether the window with lower-cased title `title_lower` is the focused
/// one, given the lower-cased focused title (empty when unknown).
pub fn is_focused_title(title_lower: &String, focused_lower: &String) -> (r: bool)
    ensures
        r == lowered_focus_match(title_lower@, focused_lower@),
{
    !focused_lower.as_str().is_empty() && *title_lower == *focused_lower
}

/// Whether the window titled `title` is the focused one.
fn title_has_focus(title: &String, focused_lower: &String) -> (r: bool)
    ensures
        r == focus_match(title@, focused_lower@),
{
    let lower = lowercase(title.as_str());
    is_focused_title(&lower, focused_lower)
}

pub open spec fn recall(m: Map<Seq<char>, u64>, title: Seq<char>) -> u64 {
    if m.contains_key(title) {
        m[title]
    } else {
        0
    }
}

/// The snapshot rows built from memory before any window is scanned.
pub open spec fn memory_rows(
    targets: Seq<(Seq<char>, usize)>,
    m: Map<Seq<char>, u64>,
    focused_lower: Seq<char>,
) -> Seq<(Seq<char>, u64, bool, bool)> {
    targets.map_values(
        |p: (Seq<char>, usize)| (p.0, recall(m, p.0), false, focus_match(p.0, focused_lower)),
    )
}

/// A scan result allows an action: a button was found, and so was a context
/// phrase unless no context phrase is configured.
pub open spec fn accepts(r: (bool, Option<usize>), ctx: Seq<Seq<char>>) -> bool {
    r.1 is Some && (ctx.len() == 0 || r.0)
}

/// Tier-2: the ancestors scanned, in order, and the button found under the
/// first readable ancestor whose scan allows an action.
pub open spec fn tier2_pick(
    t: &UiTree,
    anc: Seq<usize>,
    ctx: Seq<Seq<char>>,
    btn: Seq<Seq<char>>,
) -> (Seq<usize>, Option<usize>)
    decreases anc.len(),
{
    if anc.len() == 0 {
        (Seq::empty(), None)
    } else {
        let a = anc[0];
        let rest = tier2_pick(t, anc.drop_first(), ctx, btn);
        if t.name_of(a) is None {
            rest
        } else if accepts(scan_spec(t, a, ctx, btn), ctx) {
            (seq![a], scan_spec(t, a, ctx, btn).1)
        } else {
            (seq![a] + rest.0, rest.1)
        }
    }
}

/// The name shown for a control: its name, or empty when it does not read.
pub open spec fn name_or_empty(t: &UiTree, h: usize) -> Seq<char> {
    match t.name_of(h) {
        Some(n) => n,
        None => Seq::empty(),
    }
}

/// The log and status lines that follow `ev` for the control named `name`.
pub open spec fn action_lines(ev: ActionEvent, name: Seq<char>) -> Seq<(bool, Seq<char>)> {
    let fail = seq![(true, "ERROR: Failed to click button via Invoke or Click"@), (false, "Action Failed"@)];
    match ev {
        ActionEvent::Start => Seq::empty(),
        ActionEvent::Invoked(ok) => if ok {
            seq![(true, invoked_line(name)), (false, "Success!"@)]
        } else {
            Seq::empty()
        },
        ActionEvent::PointRead(p) => match p {
            Some(q) => if q.x == 0 && q.y == 0 {
                seq![(true, origin_line(name))] + fail
            } else {
                Seq::empty()
            },
            None => seq![(true, no_point_line(name))] + fail,
        },
        ActionEvent::Clicked(ok, q) => if ok {
            seq![(true, clicked_line(name, q.x as int, q.y as int)), (false, "Success!"@)]
        } else {
            fail
        },
    }
}

/// `v` are the lines describing the neighbourhood of `b`.
pub open spec fn describes_neighbourhood(t: &UiTree, b: usize, v: Seq<String>) -> bool {
    v.len() == t.neighbourhood(b).len() && forall|i: int|
        0 <= i < v.len() ==> (#[trigger] v[i])@ == place_label(
            i,
            t.preceding(b, SIBLING_REACH as nat).len(),
        ) + t.repr(t.neighbourhood(b)[i])
}

/// `added` is the run of log (`true`) and status (`false`) lines `lines`.
pub open spec fn lines_match(added: Seq<Event>, lines: Seq<(bool, Seq<char>)>) -> bool {
    added.len() == lines.len() && forall|i: int|
        0 <= i < lines.len() ==> if (#[trigger] lines[i]).0 {
            is_log(added[i], lines[i].1)
        } else {
            is_status(added[i], lines[i].1)
        }
}

/// Tier-2 scans nothing but cached ancestors, nearest first, and stops at
/// the first whose subtree yields a result that allows an action; the button
/// it returns is the one that scan found.
pub proof fn lemma_tier2_scans_only_ancestors(
    t: &UiTree,
    anc: Seq<usize>,
    ctx: Seq<Seq<char>>,
    btn: Seq<Seq<char>>,
)
    ensures
        ({
            let p = tier2_pick(t, anc, ctx, btn);
            &&& forall|i: int| 0 <= i < p.0.len() ==> anc.contains(#[trigger] p.0[i])
            &&& p.1 is Some ==> p.0.len() > 0 && accepts(scan_spec(t, p.0.last(), ctx, btn), ctx)
                && scan_spec(t, p.0.last(), ctx, btn).1 == p.1
        }),
    decreases anc.len(),
{
    if anc.len() > 0 {
        let rest = anc.drop_first();
        lemma_tier2_scans_only_ancestors(t, rest, ctx, btn);
        let p = tier2_pick(t, anc, ctx, btn);
        let q = tier2_pick(t, rest, ctx, btn);
        assert forall|i: int| 0 <= i < q.0.len() implies anc.contains(#[trigger] q.0[i]) by {
            let j = choose|j: int| 0 <= j < rest.len() && rest[j] == q.0[i];
            assert(anc[j + 1] == q.0[i]);
        }
        if t.name_of(anc[0]) is Some && !accepts(scan_spec(t, anc[0], ctx, btn), ctx) {
            assert forall|i: int| 0 <= i < p.0.len() implies anc.contains(#[trigger] p.0[i]) by {
                if i == 0 {
                    assert(anc[0] == p.0[0]);
                } else {
                    assert(p.0[i] == q.0[i - 1]);
                }
            }
            if p.1 is Some {
                assert(p.0.last() == q.0.last());
            }
        } else if t.name_of(anc[0]) is Some {
            assert(anc[0] == p.0[0]);
        }
    }
}

/// Snapshot law: whatever order the windows were discovered in, publishing
/// the same rows gives the same sequence, sorted by title (equal titles
/// included: ties are broken by the remaining fields).
pub proof fn lemma_snapshot_deterministic(
    e1: Event,
    e2: Event,
    in1: Seq<WindowStat>,
    in2: Seq<WindowStat>,
)
    requires
        publishes(e1, in1),
        publishes(e2, in2),
        in1.to_multiset() == in2.to_multiset(),
    ensures
        match (e1, e2) {
            (Event::VisibleWindows(v1), Event::VisibleWindows(v2)) => rows_view(v1@) == rows_view(
                v2@,
            ) && sorted_by_title(v1@),
            _ => false,
        },
{
    match (e1, e2) {
        (Event::VisibleWindows(v1), Event::VisibleWindows(v2)) => {
            lemma_map_multiset(v1@, in1, |s: WindowStat| stat_view(s));
            lemma_map_multiset(in1, in2, |s: WindowStat| stat_view(s));
            lemma_map_multiset(in2, v2@, |s: WindowStat| stat_view(s));
            lemma_rows_unique(rows_view(v1@), rows_view(v2@));
        },
        _ => {},
    }
}

/// The engine's state, owned by the worker that runs the cycles.
pub struct Automation {
    pub config: EngineConfig,
    /// Tier-1: the control acted on last.
    pub cached_button: Option<usize>,
    /// Tier-2: the parents of that control, nearest first.
    pub cached_ancestry: Vec<usize>,
    /// Last scan duration per window title.
    pub durations: DurationMemory,
    /// The roots scanned in the current cycle, in order.
    pub scanned_roots: Vec<usize>,
    /// Events not yet handed to the observer.
    pub outbox: Vec<Event>,
    /// Rows of the current cycle's snapshot, one per scanned window.
    pub cycle_stats: Vec<WindowStat>,
    /// Some window scan of the current cycle was slow.
    pub high_load: bool,
}

impl Automation {
    /// The duration memory is well formed, and `high_load` tells whether a
    /// scan recorded in this cycle's rows was slow.
    pub open spec fn wf(&self) -> bool {
        &&& self.durations.wf()
        &&& self.high_load == any_slow(row_durations(self.cycle_stats@))
    }

    pub open spec fn ctx(&self) -> Seq<Seq<char>> {
        texts_view(self.config.context_patterns@)
    }

    pub open spec fn btn(&self) -> Seq<Seq<char>> {
        texts_view(self.config.button_patterns@)
    }

    pub fn new(config: EngineConfig) -> (r: Automation)
        ensures
            r.wf(),
            r.config == config,
            r.cached_button is None,
            r.cached_ancestry@.len() == 0,
            r.durations@ == Map::<Seq<char>, u64>::empty(),
            r.scanned_roots@.len() == 0,
            r.outbox@.len() == 0,
            r.cycle_stats@.len() == 0,
            !r.high_load,
    {
        Automation {
            config,
            cached_button: None,
            cached_ancestry: Vec::new(),
            durations: DurationMemory::new(),
            scanned_roots: Vec::new(),
            outbox: Vec::new(),
            cycle_stats: Vec::new(),
            high_load: false,
        }
    }

    fn log(&mut self, line: String)
        ensures
            final(self).outbox@ == old(self).outbox@.push(Event::Log(line)),
            final(self).config == old(self).config,
            final(self).cached_button == old(self).cached_button,
            final(self).cached_ancestry == old(self).cached_ancestry,
            final(self).durations == old(self).durations,
            final(self).scanned_roots == old(self).scanned_roots,
            final(self).cycle_stats == old(self).cycle_stats,
            final(self).high_load == old(self).high_load,
    {
        self.outbox.push(Event::Log(line));
    }

    fn status(&mut self, line: String)
        ensures
            final(self).outbox@ == old(self).outbox@.push(Event::Status(line)),
            final(self).config == old(self).config,
            final(self).cached_button == old(self).cached_button,
            final(self).cached_ancestry == old(self).cached_ancestry,
            final(self).durations == old(self).durations,
            final(self).scanned_roots == old(self).scanned_roots,
            final(self).cycle_stats == old(self).cycle_stats,
            final(self).high_load == old(self).high_load,
    {
        self.outbox.push(Event::Status(line));
    }

    /// Announces that the worker loop starts.
    pub fn announce_start(&mut self)
        ensures
            final(self).outbox@.len() == old(self).outbox@.len() + 1,
            final(self).outbox@.take(old(self).outbox@.len() as int) == old(self).outbox@,
            is_log(final(self).outbox@.last(), "Starting Automation Loop..."@),
    {
        self.log(String::from_str("Starting Automation Loop..."));
        assert(self.outbox@.take(old(self).outbox@.len() as int) =~= old(self).outbox@);
    }

    /// Publishes a target-window snapshot, sorted by title (equal titles by
    /// the remaining fields).
    pub fn publish_snapshot(&mut self, stats: Vec<WindowStat>)
        ensures
            final(self).outbox@.len() == old(self).outbox@.len() + 1,
            final(self).outbox@.take(old(self).outbox@.len() as int) == old(self).outbox@,
            is_snapshot(
                final(self).outbox@.last(),
                rows_view(stats@),
            ),
            publishes(final(self).outbox@.last(), stats@),
            final(self).config == old(self).config,
            final(self).cached_button == old(self).cached_button,
            final(self).cached_ancestry == old(self).cached_ancestry,
            final(self).durations == old(self).durations,
            final(self).scanned_roots == old(self).scanned_roots,
            final(self).cycle_stats == old(self).cycle_stats,
            final(self).high_load == old(self).high_load,
    {
        let ghost before = stats@;
        let sorted = sort_rows(stats);
        proof {
            lemma_map_multiset(sorted@, before, |s: WindowStat| stat_view(s));
        }
        self.outbox.push(Event::VisibleWindows(sorted));
        assert(self.outbox@.take(old(self).outbox@.len() as int) =~= old(self).outbox@);
    }

    /// Snapshot rows for the targets from the duration memory, before any
    /// window is scanned.
    fn memory_snapshot(&self, targets: &Vec<(String, usize)>, focused_lower: &String) -> (r: Vec<
        WindowStat,
    >)
        requires
            self.wf(),
        ensures
            rows_view(r@) == memory_rows(
                pairs_view(targets@),
                self.durations@,
                focused_lower@,
            ),
    {
        let ghost rows = memory_rows(pairs_view(targets@), self.durations@, focused_lower@);
        let mut r: Vec<WindowStat> = Vec::new();
        let mut i: usize = 0;
        while i < targets.len()
            invariant
                self.wf(),
                rows == memory_rows(pairs_view(targets@), self.durations@, focused_lower@),
                i <= targets@.len(),
                r@.len() == i,
                forall|k: int| 0 <= k < i ==> stat_view(#[trigger] r@[k]) == rows[k],
            decreases targets@.len() - i,
        {
            let title = &targets[i].0;
            let focused = title_has_focus(title, focused_lower);
            r.push(
                WindowStat {
                    title: title.clone(),
                    duration_ms: self.durations.get(title),
                    is_target: false,
                    is_focused: focused,
                },
            );
            i += 1;
        }
        assert(rows_view(r@) =~= rows);
        r
    }

    /// Tier-1: when the cached control still reads a non-blank name, it is
    /// acted on directly and its parents are cached anew; otherwise the
    /// cached control is dropped.
    fn try_tier1(&mut self, t: &UiTree) -> (r: Option<usize>)
        ensures
            final(self).config == old(self).config,
            final(self).durations == old(self).durations,
            final(self).scanned_roots == old(self).scanned_roots,
            final(self).cycle_stats == old(self).cycle_stats,
            final(self).high_load == old(self).high_load,
            match old(self).cached_button {
                Some(b) => if t.resolves(b) {
                    &&& r == Some(b)
                    &&& final(self).cached_button == Some(b)
                    &&& final(self).cached_ancestry@ == t.ancestry(b, ANCESTRY_CAP as nat)
                    &&& final(self).outbox@.len() == old(self).outbox@.len() + 1
                    &&& final(self).outbox@.take(old(self).outbox@.len() as int)
                        == old(self).outbox@
                    &&& is_log(
                        final(self).outbox@.last(),
                        cached_button_line(t.name_of(b).unwrap()),
                    )
                } else {
                    &&& r is None
                    &&& final(self).cached_button is None
                    &&& final(self).cached_ancestry == old(self).cached_ancestry
                    &&& final(self).outbox == old(self).outbox
                },
                None => {
                    &&& r is None
                    &&& final(self).cached_button is None
                    &&& final(self).cached_ancestry == old(self).cached_ancestry
                    &&& final(self).outbox == old(self).outbox
                },
            },
    {
        match self.cached_button {
            Some(b) => {
                if t.resolves_now(b) {
                    let name = t.name(b).unwrap();
                    self.log(cached_button_text(name.as_str()));
                    self.cached_ancestry = t.get_ancestry(b);
                    assert(self.outbox@.take(old(self).outbox@.len() as int) =~= old(self).outbox@);
                    Some(b)
                } else {
                    self.cached_button = None;
                    None
                }
            },
            None => None,
        }
    }

    /// Tier-2: scans under each readable cached ancestor in order, and takes
    /// the first result that allows an action, caching its button and that
    /// button's parents.
    fn try_tier2(&mut self, t: &UiTree) -> (r: Option<usize>)
        ensures
            final(self).config == old(self).config,
            final(self).durations == old(self).durations,
            final(self).outbox == old(self).outbox,
            final(self).cycle_stats == old(self).cycle_stats,
            final(self).high_load == old(self).high_load,
            ({
                let p = tier2_pick(t, old(self).cached_ancestry@, old(self).ctx(), old(self).btn());
                &&& final(self).scanned_roots@ == old(self).scanned_roots@ + p.0
                &&& r == p.1
                &&& match p.1 {
                    Some(b) => final(self).cached_button == Some(b)
                        && final(self).cached_ancestry@ == t.ancestry(b, ANCESTRY_CAP as nat),
                    None => final(self).cached_button == old(self).cached_button
                        && final(self).cached_ancestry == old(self).cached_ancestry,
                }
            }),
    {
        let ghost anc = self.cached_ancestry@;
        let ghost c = self.ctx();
        let ghost b = self.btn();
        let n = self.cached_ancestry.len();
        let mut i: usize = 0;
        assert(anc.skip(0) =~= anc);
        while i < n
            invariant
                n == anc.len(),
                i <= n,
                anc == self.cached_ancestry@,
                c == self.ctx(),
                b == self.btn(),
                self.config == old(self).config,
                self.durations == old(self).durations,
                self.outbox == old(self).outbox,
                self.cycle_stats == old(self).cycle_stats,
                self.high_load == old(self).high_load,
                self.cached_button == old(self).cached_button,
                self.cached_ancestry == old(self).cached_ancestry,
                self.scanned_roots@ + tier2_pick(t, anc.skip(i as int), c, b).0 == old(
                    self,
                ).scanned_roots@ + tier2_pick(t, anc, c, b).0,
                tier2_pick(t, anc.skip(i as int), c, b).1 == tier2_pick(t, anc, c, b).1,
            decreases n - i,
        {
            let a = self.cached_ancestry[i];
            proof {
                assert(anc.skip(i as int)[0] == a);
                assert(anc.skip(i as int).drop_first() =~= anc.skip(i + 1));
            }
            if t.name(a).is_some() {
                let res = scan_for_context_and_button(
                    t,
                    a,
                    &self.config.context_patterns,
                    &self.config.button_patterns,
                );
                let ghost before = self.scanned_roots@;
                self.scanned_roots.push(a);
                let ok = res.button.is_some() && (self.config.context_patterns.len() == 0
                    || res.context_found);
                if ok {
                    let found = res.button.unwrap();
                    self.cached_button = Some(found);
                    self.cached_ancestry = t.get_ancestry(found);
                    assert(before.push(a) =~= before + seq![a]);
                    assert(self.scanned_roots@ + Seq::<usize>::empty() =~= self.scanned_roots@);
                    return Some(found);
                }
                proof {
                    let rest = tier2_pick(t, anc.skip(i + 1), c, b);
                    assert(before.push(a) + rest.0 =~= before + (seq![a] + rest.0));
                }
            }
            i += 1;
        }
        proof {
            assert(anc.skip(n as int) =~= Seq::<usize>::empty());
            assert(self.scanned_roots@ + Seq::<usize>::empty() =~= self.scanned_roots@);
        }
        None
    }

    /// Whether this cycle can reach Tier-2: the cached control does not
    /// resolve on `t` (or none is cached) and some ancestor is cached.
    pub fn needs_ancestor_scan(&self, t: &UiTree) -> (r: bool)
        ensures
            r == (!(match self.cached_button {
                Some(b) => t.resolves(b),
                None => false,
            }) && self.cached_ancestry@.len() > 0),
    {
        let hit = match self.cached_button {
            Some(b) => t.resolves_now(b),
            None => false,
        };
        !hit && self.cached_ancestry.len() > 0
    }

    /// Starts a cycle on the tree `t`, given the title of the focused window
    /// if it could be read. Publishes the sorted list of all window titles,
    /// then a snapshot of the target windows built from the duration memory,
    /// then tries the cache: Tier-1 (the cached control, when its name still
    /// reads non-blank) and Tier-2 (a scan under each readable cached
    /// ancestor). A hit is returned as `shortcut`, with the hit control
    /// cached and its parents cached anew; otherwise, when no target window
    /// exists, a status line says so.
    pub fn begin_cycle(&mut self, t: &UiTree, focused_title: Option<String>) -> (r: CycleStart)
        requires
            old(self).wf(),
        ensures
            final(self).wf(),
            final(self).config == old(self).config,
            final(self).durations == old(self).durations,
            final(self).cycle_stats@.len() == 0,
            !final(self).high_load,
            r.focused_lower@ == lower_of(
                match focused_title {
                    Some(f) => f@,
                    None => Seq::empty(),
                },
            ),
            pairs_view(r.targets@) == targeted(
                t,
                t.kids(DESKTOP),
                lower_of(old(self).config.target_window_title@),
            ),
            ({
                let n = old(self).outbox@.len() as int;
                let out = final(self).outbox@;
                &&& out.len() >= n + 2
                &&& out.take(n) == old(self).outbox@
                &&& match out[n] {
                    Event::AllWindows(v) => sorted_by_title(v@) && v@.to_multiset() == listed(
                        t,
                        t.kids(DESKTOP),
                    ).to_multiset(),
                    _ => false,
                }
                &&& is_snapshot(
                    out[n + 1],
                    memory_rows(pairs_view(r.targets@), old(self).durations@, r.focused_lower@),
                )
                &&& match old(self).cached_button {
                    Some(b) if t.resolves(b) => {
                        &&& r.shortcut == Some(b)
                        &&& final(self).scanned_roots@.len() == 0
                        &&& final(self).cached_button == old(self).cached_button
                        &&& final(self).cached_ancestry@ == t.ancestry(b, ANCESTRY_CAP as nat)
                        &&& out.len() == n + 3
                        &&& is_log(out[n + 2], cached_button_line(t.name_of(b).unwrap()))
                    },
                    _ => {
                        let p = tier2_pick(
                            t,
                            old(self).cached_ancestry@,
                            old(self).ctx(),
                            old(self).btn(),
                        );
                        &&& final(self).scanned_roots@ == p.0
                        &&& r.shortcut == p.1
                        &&& match p.1 {
                            Some(b) => {
                                &&& final(self).cached_button == Some(b)
                                &&& final(self).cached_ancestry@ == t.ancestry(
                                    b,
                                    ANCESTRY_CAP as nat,
                                )
                                &&& out.len() == n + 2
                            },
                            None => {
                                &&& final(self).cached_button is None
                                &&& final(self).cached_ancestry == old(self).cached_ancestry
                                &&& if r.targets@.len() == 0 {
                                    out.len() == n + 3 && is_status(
                                        out[n + 2],
                                        not_found_line(old(self).config.target_window_title@),
                                    )
                                } else {
                                    out.len() == n + 2
                                }
                            },
                        }
                    },
                }
            }),
    {
        let ghost n = self.outbox@.len() as int;
        let ghost old_out = self.outbox@;
        let target_lower = lowercase(self.config.target_window_title.as_str());
        let focused_src = match focused_title {
            Some(f) => f,
            None => String::new(),
        };
        let focused_lower = lowercase(focused_src.as_str());
        let found = classify(t, &target_lower);
        self.cycle_stats = Vec::new();
        self.high_load = false;
        self.scanned_roots = Vec::new();
        self.outbox.push(Event::AllWindows(found.all_titles));
        let ghost out1 = self.outbox@;
        let rows = self.memory_snapshot(&found.targets, &focused_lower);
        self.publish_snapshot(rows);
        let ghost out2 = self.outbox@;
        assert(out2.take(n) =~= old_out);
        assert(out2[n] == out1[n]);
        let tier1 = self.try_tier1(t);
        if tier1.is_some() {
            assert(self.outbox@.take(n) =~= old_out);
            assert(self.outbox@[n] == out2[n]);
            assert(self.outbox@[n + 1] == out2[n + 1]);
            return CycleStart { targets: found.targets, focused_lower, shortcut: tier1 };
        }
        let ghost sr = self.scanned_roots@;
        let tier2 = self.try_tier2(t);
        assert(sr + tier2_pick(t, old(self).cached_ancestry@, old(self).ctx(), old(self).btn()).0
            =~= tier2_pick(t, old(self).cached_ancestry@, old(self).ctx(), old(self).btn()).0);
        if tier2.is_none() && found.targets.len() == 0 {
            let line = not_found_text(self.config.target_window_title.as_str());
            self.status(line);
            assert(self.outbox@.take(n) =~= old_out);
            assert(self.outbox@[n] == out2[n]);
            assert(self.outbox@[n + 1] == out2[n + 1]);
        }
        CycleStart { targets: found.targets, focused_lower, shortcut: tier2 }
    }

    /// Scans the target window `window` titled `title`, announcing it first.
    pub fn scan_window(&mut self, t: &UiTree, window: usize, title: &String) -> (r: ScanResult)
        ensures
            r@ == scan_spec(t, window, old(self).ctx(), old(self).btn()),
            final(self).scanned_roots@ == old(self).scanned_roots@.push(window),
            final(self).outbox@.len() == old(self).outbox@.len() + 1,
            final(self).outbox@.take(old(self).outbox@.len() as int) == old(self).outbox@,
            match final(self).outbox@.last() {
                Event::ProcessingWindow(w) => w@ == title@,
                _ => false,
            },
            final(self).config == old(self).config,
            final(self).cached_button == old(self).cached_button,
            final(self).cached_ancestry == old(self).cached_ancestry,
            final(self).durations == old(self).durations,
            final(self).cycle_stats == old(self).cycle_stats,
            final(self).high_load == old(self).high_load,
    {
        self.outbox.push(Event::ProcessingWindow(title.clone()));
        assert(self.outbox@.take(old(self).outbox@.len() as int) =~= old(self).outbox@);
        self.scanned_roots.push(window);
        scan_for_context_and_button(t, window, &self.config.context_patterns, &self.config.button_patterns)
    }

    /// Concludes the scan of the window titled `title`, which took `ms`
    /// milliseconds and gave `scan`: remembers the duration, adds the
    /// window's snapshot row, notes a slow scan, and when the result allows
    /// an action caches the button and its parents, logs it, publishes its
    /// neighbourhood and returns it to be acted on.
    pub fn conclude_window(
        &mut self,
        t: &UiTree,
        title: &String,
        scan: &ScanResult,
        ms: u64,
        focused_lower: &String,
    ) -> (r: Option<usize>)
        requires
            old(self).wf(),
        ensures
            final(self).wf(),
            final(self).config == old(self).config,
            final(self).scanned_roots == old(self).scanned_roots,
            final(self).durations@ == old(self).durations@.insert(title@, ms),
            final(self).cycle_stats@.len() == old(self).cycle_stats@.len() + 1,
            final(self).cycle_stats@.take(old(self).cycle_stats@.len() as int) == old(
                self,
            ).cycle_stats@,
            stat_view(final(self).cycle_stats@.last()) == (
                title@,
                ms,
                true,
                focus_match(title@, focused_lower@),
            ),
            final(self).high_load == (old(self).high_load || ms > SLOW_SCAN_MS),
            ({
                let n = old(self).outbox@.len() as int;
                let out = final(self).outbox@;
                let k = if ms > SLOW_SCAN_MS {
                    n + 1
                } else {
                    n
                };
                &&& out.take(n) == old(self).outbox@
                &&& ms > SLOW_SCAN_MS ==> is_log(out[n], high_load_line(title@, ms as nat))
                &&& if accepts(scan@, old(self).ctx()) {
                    let b = scan.button.unwrap();
                    &&& r == Some(b)
                    &&& final(self).cached_button == Some(b)
                    &&& final(self).cached_ancestry@ == t.ancestry(b, ANCESTRY_CAP as nat)
                    &&& out.len() == k + 2
                    &&& is_log(out[k], found_button_line(name_or_empty(t, b), title@))
                    &&& match out[k + 1] {
                        Event::ContextData { button, neighbors } => button@ == name_or_empty(t, b)
                            && describes_neighbourhood(t, b, neighbors@),
                        _ => false,
                    }
                } else {
                    &&& r is None
                    &&& final(self).cached_button == old(self).cached_button
                    &&& final(self).cached_ancestry == old(self).cached_ancestry
                    &&& out.len() == k
                }
            }),
    {
        let ghost n = self.outbox@.len() as int;
        let ghost old_out = self.outbox@;
        self.durations.record(title, ms);
        let focused = title_has_focus(title, focused_lower);
        self.cycle_stats.push(
            WindowStat { title: title.clone(), duration_ms: ms, is_target: true, is_focused: focused },
        );
        assert(self.cycle_stats@.take(old(self).cycle_stats@.len() as int) =~= old(
            self,
        ).cycle_stats@);
        proof {
            let before = row_durations(old(self).cycle_stats@);
            let after = row_durations(self.cycle_stats@);
            assert(after =~= before.push(ms));
            if any_slow(before) {
                let i = choose|i: int| 0 <= i < before.len() && #[trigger] before[i] > SLOW_SCAN_MS;
                assert(after[i] > SLOW_SCAN_MS);
            }
            if ms > SLOW_SCAN_MS {
                assert(after[before.len() as int] > SLOW_SCAN_MS);
            }
            if any_slow(after) {
                let i = choose|i: int| 0 <= i < after.len() && #[trigger] after[i] > SLOW_SCAN_MS;
                if i < before.len() {
                    assert(before[i] > SLOW_SCAN_MS);
                }
            }
        }
        if ms > SLOW_SCAN_MS {
            self.high_load = true;
            self.log(high_load_text(title.as_str(), ms));
        }
        let ghost out1 = self.outbox@;
        assert(out1.take(n) =~= old_out);
        let ok = scan.button.is_some() && (self.config.context_patterns.len() == 0
            || scan.context_found);
        if !ok {
            return None;
        }
        let b = scan.button.unwrap();
        let name = match t.name(b) {
            Some(s) => s,
            None => String::new(),
        };
        self.log(found_button_text(name.as_str(), title.as_str()));
        self.cached_button = Some(b);
        self.cached_ancestry = t.get_ancestry(b);
        let neighbors = t.inspect_siblings(b);
        self.outbox.push(Event::ContextData { button: name, neighbors });
        assert(self.outbox@.take(n) =~= old_out);
        if ms > SLOW_SCAN_MS {
            assert(self.outbox@[n] == out1[n]);
        }
        Some(b)
    }

    /// Ends the cycle: publishes the snapshot of the windows scanned in it,
    /// sorted by title, and tells whether any scan was slow.
    pub fn end_cycle(&mut self) -> (r: bool)
        requires
            old(self).wf(),
        ensures
            final(self).wf(),
            r == any_slow(row_durations(old(self).cycle_stats@)),
            !final(self).high_load,
            final(self).cycle_stats@.len() == 0,
            final(self).outbox@.len() == old(self).outbox@.len() + 1,
            final(self).outbox@.take(old(self).outbox@.len() as int) == old(self).outbox@,
            is_snapshot(
                final(self).outbox@.last(),
                rows_view(old(self).cycle_stats@),
            ),
            publishes(final(self).outbox@.last(), old(self).cycle_stats@),
            final(self).config == old(self).config,
            final(self).cached_button == old(self).cached_button,
            final(self).cached_ancestry == old(self).cached_ancestry,
            final(self).durations == old(self).durations,
            final(self).scanned_roots == old(self).scanned_roots,
    {
        let mut stats: Vec<WindowStat> = Vec::new();
        std::mem::swap(&mut stats, &mut self.cycle_stats);
        self.publish_snapshot(stats);
        let r = self.high_load;
        self.high_load = false;
        assert(row_durations(self.cycle_stats@) =~= Seq::<u64>::empty());
        r
    }

    /// Chooses the sleep after a cycle (in milliseconds) and publishes it as
    /// the status line.
    pub fn sleep_after_cycle(&mut self, high_load: bool) -> (r: u64)
        ensures
            r == (if sleep_spec(old(self).config.interval_ms as nat, high_load) > u64::MAX {
                u64::MAX as nat
            } else {
                sleep_spec(old(self).config.interval_ms as nat, high_load)
            }),
            final(self).outbox@.len() == old(self).outbox@.len() + 1,
            final(self).outbox@.take(old(self).outbox@.len() as int) == old(self).outbox@,
            is_status(
                final(self).outbox@.last(),
                if high_load {
                    backoff_line(r as nat)
                } else {
                    sleeping_line(old(self).config.interval_ms as nat)
                },
            ),
            final(self).config == old(self).config,
            final(self).cached_button == old(self).cached_button,
            final(self).cached_ancestry == old(self).cached_ancestry,
            final(self).durations == old(self).durations,
            final(self).scanned_roots == old(self).scanned_roots,
            final(self).cycle_stats == old(self).cycle_stats,
            final(self).high_load == old(self).high_load,
    {
        let ms = next_sleep_ms(self.config.interval_ms, high_load);
        if high_load {
            self.status(backoff_text(ms));
        } else {
            self.status(sleeping_text(self.config.interval_ms));
        }
        assert(self.outbox@.take(old(self).outbox@.len() as int) =~= old(self).outbox@);
        ms
    }

    /// Publishes how long the last cycle took.
    pub fn report_timing(&mut self, ms: u64)
        ensures
            final(self).outbox@ == old(self).outbox@.push(Event::Timing(ms)),
            final(self).config == old(self).config,
            final(self).cached_button == old(self).cached_button,
            final(self).cached_ancestry == old(self).cached_ancestry,
            final(self).durations == old(self).durations,
            final(self).scanned_roots == old(self).scanned_roots,
            final(self).cycle_stats == old(self).cycle_stats,
            final(self).high_load == old(self).high_load,
    {
        self.outbox.push(Event::Timing(ms));
    }

    /// One step of acting on the control named `name`: given what the
    /// platform answered (`ev`), logs the outcome and returns what to do next.
    /// Invoke is tried first; on failure the clickable point is read, and the
    /// click is made unless that point is unreadable or the origin.
    pub fn action_step(&mut self, name: &String, ev: ActionEvent) -> (r: ActionCommand)
        ensures
            r == action_next(ev),
            final(self).outbox@.len() == old(self).outbox@.len() + action_lines(ev, name@).len(),
            final(self).outbox@.take(old(self).outbox@.len() as int) == old(self).outbox@,
            lines_match(
                final(self).outbox@.skip(old(self).outbox@.len() as int),
                action_lines(ev, name@),
            ),
            final(self).config == old(self).config,
            final(self).cached_button == old(self).cached_button,
            final(self).cached_ancestry == old(self).cached_ancestry,
            final(self).durations == old(self).durations,
            final(self).scanned_roots == old(self).scanned_roots,
            final(self).cycle_stats == old(self).cycle_stats,
            final(self).high_load == old(self).high_load,
    {
        let ghost n = self.outbox@.len() as int;
        let ghost old_out = self.outbox@;
        let next = next_action(ev);
        let s = name.as_str();
        match ev {
            ActionEvent::Start => {},
            ActionEvent::Invoked(ok) => {
                if ok {
                    self.log(invoked_text(s));
                }
            },
            ActionEvent::PointRead(p) => {
                match p {
                    Some(q) => {
                        if q.x == 0 && q.y == 0 {
                            self.log(origin_text(s));
                        }
                    },
                    None => {
                        self.log(no_point_text(s));
                    },
                }
            },
            ActionEvent::Clicked(ok, q) => {
                if ok {
                    self.log(clicked_text(s, q.x, q.y));
                }
            },
        }
        match next {
            ActionCommand::Succeeded => {
                self.status(String::from_str("Success!"));
            },
            ActionCommand::Failed => {
                self.log(String::from_str("ERROR: Failed to click button via Invoke or Click"));
                self.status(String::from_str("Action Failed"));
            },
            _ => {},
        }
        assert(self.outbox@.take(n) =~= old_out);
        assert(lines_match(self.outbox@.skip(n), action_lines(ev, name@)));
        next
    }

    /// Hands the pending events to the observer and empties the outbox.
    pub fn drain_events(&mut self) -> (r: Vec<Event>)
        ensures
            r@ == old(self).outbox@,
            final(self).outbox@.len() == 0,
            final(self).config == old(self).config,
            final(self).cached_button == old(self).cached_button,
            final(self).cached_ancestry == old(self).cached_ancestry,
            final(self).durations == old(self).durations,
            final(self).scanned_roots == old(self).scanned_roots,
            final(self).cycle_stats == old(self).cycle_stats,
            final(self).high_load == old(self).high_load,
    {
        let mut r: Vec<Event> = Vec::new();
        std::mem::swap(&mut r, &mut self.outbox);
        r
    }
}

} // verus!
