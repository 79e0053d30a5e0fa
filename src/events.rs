//! What the engine publishes to its observer, and the per-title memory of
//! scan durations.
use vstd::prelude::*;
use vstd::seq_lib::lemma_multiset_commutative;
use crate::order::{sorted_by_title, Titled};
use crate::text::{
    lemma_text_le_antisymmetric,
    lemma_text_le_reflexive,
    lemma_text_le_total,
    lemma_text_le_transitive,
    text_le,
    text_le_exec,
};

verus! {

/// One row of the published target-window snapshot.
#[derive(Clone, Debug)]
pub struct WindowStat {
    pub title: String,
    pub duration_ms: u64,
    pub is_target: bool,
    pub is_focused: bool,
}

impl Titled for WindowStat {
    open spec fn title_view(&self) -> Seq<char> {
        self.title@
    }

    fn title_str(&self) -> (r: &str) {
        self.title.as_str()
    }
}

/// The plain values of a snapshot row.
pub open spec fn stat_view(s: WindowStat) -> (Seq<char>, u64, bool, bool) {
    (s.title@, s.duration_ms, s.is_target, s.is_focused)
}

/// The order of snapshot rows: by title, then by duration, then non-targets
/// first, then unfocused first. It is total, so a sorted snapshot does not
/// depend on the order its rows came in.
pub open spec fn row_le(a: (Seq<char>, u64, bool, bool), b: (Seq<char>, u64, bool, bool)) -> bool {
    if a.0 != b.0 {
        text_le(a.0, b.0)
    } else if a.1 != b.1 {
        a.1 < b.1
    } else if a.2 != b.2 {
        !a.2
    } else {
        !a.3 || b.3
    }
}

/// Rows never decrease in `row_le` order along `s`.
pub open spec fn rows_sorted(s: Seq<(Seq<char>, u64, bool, bool)>) -> bool {
    forall|i: int, j: int| 0 <= i < j < s.len() ==> row_le(#[trigger] s[i], #[trigger] s[j])
}

pub open spec fn rows_view(v: Seq<WindowStat>) -> Seq<(Seq<char>, u64, bool, bool)> {
    v.map_values(|s: WindowStat| stat_view(s))
}

pub proof fn lemma_row_le_total(a: (Seq<char>, u64, bool, bool), b: (Seq<char>, u64, bool, bool))
    ensures
        row_le(a, b) || row_le(b, a),
{
    lemma_text_le_total(a.0, b.0);
}

pub proof fn lemma_row_le_antisymmetric(
    a: (Seq<char>, u64, bool, bool),
    b: (Seq<char>, u64, bool, bool),
)
    requires
        row_le(a, b),
        row_le(b, a),
    ensures
        a == b,
{
    if a.0 != b.0 {
        lemma_text_le_antisymmetric(a.0, b.0);
    }
}

pub proof fn lemma_row_le_transitive(
    a: (Seq<char>, u64, bool, bool),
    b: (Seq<char>, u64, bool, bool),
    c: (Seq<char>, u64, bool, bool),
)
    requires
        row_le(a, b),
        row_le(b, c),
    ensures
        row_le(a, c),
{
    if a.0 != b.0 && b.0 != c.0 {
        lemma_text_le_transitive(a.0, b.0, c.0);
        if a.0 == c.0 {
            lemma_text_le_antisymmetric(a.0, b.0);
        }
    }
}

/// Compares two rows in `row_le` order.
pub fn row_le_exec(a: &WindowStat, b: &WindowStat) -> (r: bool)
    ensures
        r == row_le(stat_view(*a), stat_view(*b)),
{
    let ab = text_le_exec(a.title.as_str(), b.title.as_str());
    let ba = text_le_exec(b.title.as_str(), a.title.as_str());
    if ab != ba {
        proof {
            lemma_text_le_reflexive(a.title@);
        }
        ab
    } else {
        proof {
            lemma_text_le_total(a.title@, b.title@);
            lemma_text_le_antisymmetric(a.title@, b.title@);
        }
        if a.duration_ms != b.duration_ms {
            a.duration_ms < b.duration_ms
        } else if a.is_target != b.is_target {
            !a.is_target
        } else {
            !a.is_focused || b.is_focused
        }
    }
}

/// Sorts snapshot rows in `row_le` order, which sorts them by title.
pub fn sort_rows(v: Vec<WindowStat>) -> (r: Vec<WindowStat>)
    ensures
        rows_sorted(rows_view(r@)),
        sorted_by_title(r@),
        r@.to_multiset() == v@.to_multiset(),
{
    broadcast use vstd::seq_lib::group_to_multiset_ensures;

    let mut src = v;
    let ghost whole = src@;
    let mut r: Vec<WindowStat> = Vec::new();
    while src.len() > 0
        invariant
            rows_sorted(rows_view(r@)),
            r@.to_multiset().add(src@.to_multiset()) == whole.to_multiset(),
        decreases src@.len(),
    {
        let ghost before = src@;
        let x = src.remove(0);
        proof {
            assert(before =~= seq![x] + src@);
            lemma_multiset_commutative(seq![x], src@);
        }
        let mut p: usize = r.len();
        while p > 0 && !row_le_exec(&r[p - 1], &x)
            invariant
                p <= r@.len(),
                rows_sorted(rows_view(r@)),
                forall|j: int| p <= j < r@.len() ==> !row_le(stat_view(#[trigger] r@[j]), stat_view(x)),
            decreases p,
        {
            p -= 1;
        }
        proof {
            let s = r@;
            let xv = stat_view(x);
            assert forall|j: int| 0 <= j < p implies row_le(stat_view(#[trigger] s[j]), xv) by {
                assert(rows_view(s)[j] == stat_view(s[j]));
                assert(rows_view(s)[p - 1] == stat_view(s[p - 1]));
                if j < p - 1 {
                    lemma_row_le_transitive(stat_view(s[j]), stat_view(s[p - 1]), xv);
                }
            }
            assert forall|j: int| p <= j < s.len() implies row_le(xv, stat_view(#[trigger] s[j])) by {
                lemma_row_le_total(xv, stat_view(s[j]));
            }
            let t = s.insert(p as int, x);
            assert forall|i: int, j: int| 0 <= i < j < t.len() implies row_le(
                #[trigger] rows_view(t)[i],
                #[trigger] rows_view(t)[j],
            ) by {
                assert(rows_view(t)[i] == stat_view(t[i]));
                assert(rows_view(t)[j] == stat_view(t[j]));
                if j < p {
                    assert(rows_view(s)[i] == stat_view(s[i]));
                    assert(rows_view(s)[j] == stat_view(s[j]));
                } else if j == p {
                } else if i < p {
                    lemma_row_le_transitive(stat_view(s[i]), xv, stat_view(s[j - 1]));
                } else if i == p {
                } else {
                    assert(rows_view(s)[i - 1] == stat_view(s[i - 1]));
                    assert(rows_view(s)[j - 1] == stat_view(s[j - 1]));
                }
            }
            assert(t =~= s.subrange(0, p as int) + seq![x] + s.subrange(p as int, s.len() as int));
            assert(s =~= s.subrange(0, p as int) + s.subrange(p as int, s.len() as int));
            lemma_multiset_commutative(s.subrange(0, p as int) + seq![x], s.subrange(p as int, s.len() as int));
            lemma_multiset_commutative(s.subrange(0, p as int), seq![x]);
            lemma_multiset_commutative(s.subrange(0, p as int), s.subrange(p as int, s.len() as int));
        }
        r.insert(p, x);
    }
    proof {
        assert(src@.to_multiset() =~= vstd::multiset::Multiset::empty());
        assert(r@.to_multiset().add(vstd::multiset::Multiset::empty()) =~= r@.to_multiset());
        assert forall|i: int, j: int| 0 <= i < j < r@.len() implies text_le(
            #[trigger] r@[i].title_view(),
            #[trigger] r@[j].title_view(),
        ) by {
            assert(rows_view(r@)[i] == stat_view(r@[i]));
            assert(rows_view(r@)[j] == stat_view(r@[j]));
            if r@[i].title@ == r@[j].title@ {
                lemma_text_le_reflexive(r@[i].title@);
            }
        }
    }
    r
}

/// A sorted arrangement of rows is unique: two sorted sequences holding the
/// same rows are equal.
pub proof fn lemma_rows_unique(
    a: Seq<(Seq<char>, u64, bool, bool)>,
    b: Seq<(Seq<char>, u64, bool, bool)>,
)
    requires
        rows_sorted(a),
        rows_sorted(b),
        a.to_multiset() == b.to_multiset(),
    ensures
        a == b,
    decreases a.len(),
{
    a.to_multiset_ensures();
    b.to_multiset_ensures();
    assert(a.len() == b.len());
    if a.len() > 0 {
        assert(a.to_multiset().count(a[0]) > 0);
        assert(b.contains(a[0]));
        let j = choose|j: int| 0 <= j < b.len() && b[j] == a[0];
        assert(b.to_multiset().count(b[0]) > 0);
        assert(a.contains(b[0]));
        let i = choose|i: int| 0 <= i < a.len() && a[i] == b[0];
        if i > 0 {
            assert(row_le(a[0], a[i]));
        }
        if j > 0 {
            assert(row_le(b[0], b[j]));
        }
        lemma_row_le_antisymmetric(a[0], b[0]);
        assert(a.remove(0) =~= a.drop_first());
        assert(b.remove(0) =~= b.drop_first());
        lemma_rows_unique(a.drop_first(), b.drop_first());
        assert(a =~= seq![a[0]] + a.drop_first());
        assert(b =~= seq![b[0]] + b.drop_first());
    }
}

/// A message for the observer.
pub enum Event {
    Log(String),
    Status(String),
    /// The target-window snapshot, sorted by title.
    VisibleWindows(Vec<WindowStat>),
    /// Every non-empty window title, sorted.
    AllWindows(Vec<String>),
    /// The matched button and the lines describing its neighbourhood.
    ContextData { button: String, neighbors: Vec<String> },
    /// The window being scanned now.
    ProcessingWindow(String),
    /// Duration of the last cycle, in milliseconds.
    Timing(u64),
}

/// The last measured scan duration of each window title.
pub struct DurationMemory {
    entries: Vec<(String, u64)>,
    model: Ghost<Map<Seq<char>, u64>>,
}

impl DurationMemory {
    pub closed spec fn view(&self) -> Map<Seq<char>, u64> {
        self.model@
    }

    pub closed spec fn wf(&self) -> bool {
        &&& forall|i: int, j: int|
            0 <= i < j < self.entries@.len() ==> #[trigger] self.entries@[i].0@
                != #[trigger] self.entries@[j].0@
        &&& forall|k: Seq<char>|
            #[trigger] self.model@.contains_key(k) <==> exists|i: int|
                0 <= i < self.entries@.len() && #[trigger] self.entries@[i].0@ == k
        &&& forall|i: int|
            0 <= i < self.entries@.len() ==> self.model@[#[trigger] self.entries@[i].0@]
                == self.entries@[i].1
    }

    pub fn new() -> (r: DurationMemory)
        ensures
            r.wf(),
            r@ == Map::<Seq<char>, u64>::empty(),
    {
        DurationMemory { entries: Vec::new(), model: Ghost(Map::empty()) }
    }

    fn find(&self, title: &String) -> (r: Option<usize>)
        requires
            self.wf(),
        ensures
            match r {
                Some(i) => i < self.entries@.len() && self.entries@[i as int].0@ == title@,
                None => !self@.contains_key(title@),
            },
    {
        let mut i: usize = 0;
        while i < self.entries.len()
            invariant
                i <= self.entries@.len(),
                forall|k: int| 0 <= k < i ==> #[trigger] self.entries@[k].0@ != title@,
            decreases self.entries@.len() - i,
        {
            if self.entries[i].0 == *title {
                return Some(i);
            }
            i += 1;
        }
        None
    }

    /// The last duration recorded for `title`, or 0 when none was.
    pub fn get(&self, title: &String) -> (r: u64)
        requires
            self.wf(),
        ensures
            r == (if self@.contains_key(title@) {
                self@[title@]
            } else {
                0
            }),
    {
        match self.find(title) {
            Some(i) => self.entries[i].1,
            None => 0,
        }
    }

    /// Remembers `ms` as the last duration of `title`.
    pub fn record(&mut self, title: &String, ms: u64)
        requires
            old(self).wf(),
        ensures
            final(self).wf(),
            final(self)@ == old(self)@.insert(title@, ms),
    {
        let ghost old_entries = self.entries@;
        let ghost old_m = self.model@;
        let ghost m = self.model@.insert(title@, ms);
        let found = self.find(title);
        match found {
            Some(i) => {
                self.entries.set(i, (title.clone(), ms));
            },
            None => {
                self.entries.push((title.clone(), ms));
            },
        }
        self.model = Ghost(m);
        proof {
            let e = self.entries@;
            match found {
                Some(i) => {
                    assert(e == old_entries.update(i as int, e[i as int]));
                    assert forall|k: Seq<char>| #[trigger] m.contains_key(k) implies exists|j: int|
                        0 <= j < e.len() && #[trigger] e[j].0@ == k by {
                        if k == title@ {
                            assert(e[i as int].0@ == k);
                        } else {
                            let j = choose|j: int|
                                0 <= j < old_entries.len() && #[trigger] old_entries[j].0@ == k;
                            assert(e[j].0@ == k);
                        }
                    }
                    assert forall|j: int| 0 <= j < e.len() implies m.contains_key(
                        #[trigger] e[j].0@,
                    ) by {
                        if j != i {
                            assert(e[j] == old_entries[j]);
                            assert(old_m.contains_key(old_entries[j].0@));
                        }
                    }
                    assert forall|j: int| 0 <= j < e.len() implies m[#[trigger] e[j].0@] == e[j].1 by {
                        if j != i {
                            assert(e[j] == old_entries[j]);
                            assert(old_entries[j].0@ != old_entries[i as int].0@);
                        }
                    }
                },
                None => {
                    assert forall|k: Seq<char>| #[trigger] m.contains_key(k) implies exists|j: int|
                        0 <= j < e.len() && #[trigger] e[j].0@ == k by {
                        if k == title@ {
                            assert(e[e.len() - 1].0@ == k);
                        } else {
                            let j = choose|j: int|
                                0 <= j < old_entries.len() && #[trigger] old_entries[j].0@ == k;
                            assert(e[j].0@ == k);
                        }
                    }
                    assert forall|j: int| 0 <= j < e.len() implies m.contains_key(
                        #[trigger] e[j].0@,
                    ) by {
                        if j < e.len() - 1 {
                            assert(e[j] == old_entries[j]);
                            assert(old_m.contains_key(old_entries[j].0@));
                        }
                    }
                    assert forall|j: int| 0 <= j < e.len() implies m[#[trigger] e[j].0@] == e[j].1 by {
                        if j < e.len() - 1 {
                            assert(e[j] == old_entries[j]);
                            assert(old_m.contains_key(old_entries[j].0@));
                        }
                    }
                    assert forall|a: int, b: int| 0 <= a < b < e.len() implies #[trigger] e[a].0@
                        != #[trigger] e[b].0@ by {
                        if b == e.len() - 1 {
                            assert(old_m.contains_key(old_entries[a].0@));
                        }
                    }
                },
            }
        }
    }
}

} // verus!
