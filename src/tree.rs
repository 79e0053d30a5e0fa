//! A model of one accessibility tree: nodes addressed by handle, each with a
//! name and a control type that may fail to read, a parent link and an
//! ordered list of children. Every read is fallible: a handle outside the
//! tree reads as a vanished element.
use vstd::prelude::*;
use vstd::string::*;
use crate::text::{is_blank, is_blank_seq};

verus! {

/// Handle of the desktop root, whose children are the top-level windows.
pub const DESKTOP: usize = 0;

/// How far `get_ancestry` walks up, a guard against cyclic parent chains.
pub const ANCESTRY_CAP: usize = 10;

/// How far `focused_window_name` walks up, a guard against cyclic parent chains.
pub const FOCUS_WALK_CAP: usize = 20;

/// How many siblings on each side `inspect_siblings` reports.
pub const SIBLING_REACH: usize = 2;

/// One element of the tree, as the platform reports it.
pub struct UiNode {
    /// Display name; `None` when the read fails.
    pub name: Option<String>,
    /// Control type (such as `Button`, `Hyperlink`, `Pane`); `None` when the query fails.
    pub control_type: Option<String>,
    pub parent: Option<usize>,
    pub children: Vec<usize>,
}

/// An accessibility tree; handle `DESKTOP` is its root.
pub struct UiTree {
    pub nodes: Vec<UiNode>,
}

impl UiTree {
    pub open spec fn live(&self, h: usize) -> bool {
        h < self.nodes@.len()
    }

    pub open spec fn name_of(&self, h: usize) -> Option<Seq<char>> {
        if self.live(h) {
            match self.nodes@[h as int].name {
                Some(n) => Some(n@),
                None => None,
            }
        } else {
            None
        }
    }

    pub open spec fn type_of(&self, h: usize) -> Option<Seq<char>> {
        if self.live(h) {
            match self.nodes@[h as int].control_type {
                Some(n) => Some(n@),
                None => None,
            }
        } else {
            None
        }
    }

    pub open spec fn parent_of(&self, h: usize) -> Option<usize> {
        if self.live(h) {
            self.nodes@[h as int].parent
        } else {
            None
        }
    }

    pub open spec fn kids(&self, h: usize) -> Seq<usize> {
        if self.live(h) {
            self.nodes@[h as int].children@
        } else {
            Seq::empty()
        }
    }

    /// The name reads and is not blank.
    pub open spec fn resolves(&self, h: usize) -> bool {
        match self.name_of(h) {
            Some(n) => !is_blank_seq(n),
            None => false,
        }
    }

    /// Parents of `h`, nearest first, at most `fuel` of them.
    pub open spec fn ancestry(&self, h: usize, fuel: nat) -> Seq<usize>
        decreases fuel,
    {
        if fuel == 0 {
            Seq::empty()
        } else {
            match self.parent_of(h) {
                Some(p) => seq![p] + self.ancestry(p, (fuel - 1) as nat),
                None => Seq::empty(),
            }
        }
    }

    /// Where `h` stands among its parent's children (first occurrence).
    pub open spec fn slot(&self, h: usize) -> Option<int> {
        match self.parent_of(h) {
            Some(p) => position_from(self.kids(p), h, 0),
            None => None,
        }
    }

    pub open spec fn next_sibling(&self, h: usize) -> Option<usize> {
        match (self.parent_of(h), self.slot(h)) {
            (Some(p), Some(i)) => if i + 1 < self.kids(p).len() {
                Some(self.kids(p)[i + 1])
            } else {
                None
            },
            _ => None,
        }
    }

    pub open spec fn previous_sibling(&self, h: usize) -> Option<usize> {
        match (self.parent_of(h), self.slot(h)) {
            (Some(p), Some(i)) => if i > 0 {
                Some(self.kids(p)[i - 1])
            } else {
                None
            },
            _ => None,
        }
    }

    /// Up to `fuel` siblings after `h`, nearest first.
    pub open spec fn following(&self, h: usize, fuel: nat) -> Seq<usize>
        decreases fuel,
    {
        if fuel == 0 {
            Seq::empty()
        } else {
            match self.next_sibling(h) {
                Some(s) => seq![s] + self.following(s, (fuel - 1) as nat),
                None => Seq::empty(),
            }
        }
    }

    /// Up to `fuel` siblings before `h`, nearest first.
    pub open spec fn preceding(&self, h: usize, fuel: nat) -> Seq<usize>
        decreases fuel,
    {
        if fuel == 0 {
            Seq::empty()
        } else {
            match self.previous_sibling(h) {
                Some(s) => seq![s] + self.preceding(s, (fuel - 1) as nat),
                None => Seq::empty(),
            }
        }
    }

    /// The neighbourhood of `h`: up to two siblings before it (farthest
    /// first), `h` itself, then up to two after it.
    pub open spec fn neighbourhood(&self, h: usize) -> Seq<usize> {
        self.preceding(h, SIBLING_REACH as nat).reverse() + seq![h] + self.following(
            h,
            SIBLING_REACH as nat,
        )
    }

    /// How an element is shown to the operator: its quoted name, else its
    /// control type, else a marker.
    pub open spec fn repr(&self, h: usize) -> Seq<char> {
        if self.resolves(h) {
            seq!['"'] + self.name_of(h).unwrap() + seq!['"']
        } else if self.type_of(h) is Some {
            "[Type:"@ + self.type_of(h).unwrap() + "]"@
        } else {
            "<Unknown>"@
        }
    }

    /// Reads the display name; `None` when the element is gone or the read fails.
    pub fn name(&self, h: usize) -> (r: Option<String>)
        ensures
            match r {
                Some(n) => self.name_of(h) == Some(n@),
                None => self.name_of(h) is None,
            },
            self.live(h) ==> r == self.nodes@[h as int].name,
    {
        if h < self.nodes.len() {
            match &self.nodes[h].name {
                Some(n) => Some(n.clone()),
                None => None,
            }
        } else {
            None
        }
    }

    /// Reads the control type; `None` when the element is gone or the query fails.
    pub fn control_type(&self, h: usize) -> (r: Option<String>)
        ensures
            match r {
                Some(n) => self.type_of(h) == Some(n@),
                None => self.type_of(h) is None,
            },
    {
        if h < self.nodes.len() {
            match &self.nodes[h].control_type {
                Some(n) => Some(n.clone()),
                None => None,
            }
        } else {
            None
        }
    }

    pub fn parent(&self, h: usize) -> (r: Option<usize>)
        ensures
            r == self.parent_of(h),
    {
        if h < self.nodes.len() {
            self.nodes[h].parent
        } else {
            None
        }
    }

    /// Whether the element's name still reads and is not blank.
    pub fn resolves_now(&self, h: usize) -> (r: bool)
        ensures
            r == self.resolves(h),
    {
        match self.name(h) {
            Some(n) => !is_blank(n.as_str()),
            None => false,
        }
    }

    /// The children of `h`, in sibling order; none when `h` is gone.
    pub fn children(&self, h: usize) -> (r: &[usize])
        ensures
            r@ == self.kids(h),
    {
        if h < self.nodes.len() {
            self.nodes[h].children.as_slice()
        } else {
            &[]
        }
    }

    fn slot_in_parent(&self, h: usize) -> (r: Option<(usize, usize)>)
        ensures
            match r {
                Some((p, i)) => self.parent_of(h) == Some(p) && self.slot(h) == Some(i as int) && i
                    < self.kids(p).len(),
                None => self.slot(h) is None,
            },
    {
        match self.parent(h) {
            Some(p) => {
                let kids = self.children(p);
                let mut i: usize = 0;
                while i < kids.len()
                    invariant
                        self.parent_of(h) == Some(p),
                        kids@ == self.kids(p),
                        i <= kids@.len(),
                        position_from(kids@, h, 0) == position_from(kids@, h, i as int),
                    decreases kids@.len() - i,
                {
                    if kids[i] == h {
                        assert(position_from(kids@, h, i as int) == Some(i as int));
                        return Some((p, i));
                    }
                    i += 1;
                }
                None
            },
            None => None,
        }
    }

    pub fn next_sibling_of(&self, h: usize) -> (r: Option<usize>)
        ensures
            r == self.next_sibling(h),
    {
        match self.slot_in_parent(h) {
            Some((p, i)) => {
                let kids = self.children(p);
                if i < kids.len() - 1 {
                    Some(kids[i + 1])
                } else {
                    None
                }
            },
            None => None,
        }
    }

    pub fn previous_sibling_of(&self, h: usize) -> (r: Option<usize>)
        ensures
            r == self.previous_sibling(h),
    {
        match self.slot_in_parent(h) {
            Some((p, i)) => {
                if i > 0 {
                    Some(self.children(p)[i - 1])
                } else {
                    None
                }
            },
            None => None,
        }
    }

    /// Up to `SIBLING_REACH` siblings of `h` on one side, nearest first.
    fn siblings_toward(&self, h: usize, forward: bool) -> (r: Vec<usize>)
        ensures
            r@ == (if forward {
                self.following(h, SIBLING_REACH as nat)
            } else {
                self.preceding(h, SIBLING_REACH as nat)
            }),
    {
        let ghost side = |x: usize, f: nat|
            if forward {
                self.following(x, f)
            } else {
                self.preceding(x, f)
            };
        let mut r: Vec<usize> = Vec::new();
        let mut cur = h;
        let mut k: usize = 0;
        while k < SIBLING_REACH
            invariant
                k <= SIBLING_REACH,
                forall|x: usize, f: nat| #[trigger] side(x, f) == (if forward {
                    self.following(x, f)
                } else {
                    self.preceding(x, f)
                }),
                r@ + side(cur, (SIBLING_REACH - k) as nat) == side(h, SIBLING_REACH as nat),
            decreases SIBLING_REACH - k,
        {
            let step = if forward {
                self.next_sibling_of(cur)
            } else {
                self.previous_sibling_of(cur)
            };
            match step {
                Some(s) => {
                    proof {
                        let f = (SIBLING_REACH - k - 1) as nat;
                        assert(side(cur, (SIBLING_REACH - k) as nat) == seq![s] + side(s, f));
                        assert(r@.push(s) + side(s, f) =~= r@ + (seq![s] + side(s, f)));
                    }
                    r.push(s);
                    cur = s;
                },
                None => {
                    assert(side(cur, (SIBLING_REACH - k) as nat) =~= Seq::<usize>::empty());
                    assert(r@ + Seq::<usize>::empty() =~= r@);
                    return r;
                },
            }
            k += 1;
        }
        assert(side(cur, 0) =~= Seq::<usize>::empty());
        assert(r@ + Seq::<usize>::empty() =~= r@);
        r
    }

    /// The handles around `h`: up to two siblings before it (farthest first),
    /// `h`, then up to two after it.
    pub fn neighbours(&self, h: usize) -> (r: Vec<usize>)
        ensures
            r@ == self.neighbourhood(h),
    {
        let before = self.siblings_toward(h, false);
        let after = self.siblings_toward(h, true);
        let mut r: Vec<usize> = Vec::new();
        let mut i: usize = before.len();
        while i > 0
            invariant
                i <= before@.len(),
                r@ == before@.subrange(i as int, before@.len() as int).reverse(),
            decreases i,
        {
            i -= 1;
            proof {
                assert(before@.subrange(i as int, before@.len() as int).reverse() =~= before@.subrange(
                    i + 1,
                    before@.len() as int,
                ).reverse().push(before@[i as int]));
            }
            r.push(before[i]);
        }
        assert(before@.subrange(0, before@.len() as int) =~= before@);
        r.push(h);
        let mut j: usize = 0;
        while j < after.len()
            invariant
                j <= after@.len(),
                r@ == before@.reverse() + seq![h] + after@.subrange(0, j as int),
            decreases after@.len() - j,
        {
            proof {
                assert(after@.subrange(0, j + 1) =~= after@.subrange(0, j as int).push(after@[j as int]));
            }
            r.push(after[j]);
            j += 1;
        }
        assert(after@.subrange(0, after@.len() as int) =~= after@);
        r
    }

    /// How an element is shown: its quoted name, else its control type, else a marker.
    pub fn element_repr(&self, h: usize) -> (r: String)
        ensures
            r@ == self.repr(h),
    {
        if self.resolves_now(h) {
            let n = self.name(h).unwrap();
            let mut r = String::from_str("\"");
            r.append(n.as_str());
            r.append("\"");
            proof {
                reveal_strlit("\"");
                assert(r@ =~= seq!['"'] + n@ + seq!['"']);
            }
            r
        } else {
            match self.control_type(h) {
                Some(t) => {
                    let mut r = String::from_str("[Type:");
                    r.append(t.as_str());
                    r.append("]");
                    r
                },
                None => String::from_str("<Unknown>"),
            }
        }
    }

    /// Describes the neighbourhood of a matched element for the operator, one
    /// line per element: the ones before it as `Prev: ...`, the element
    /// itself as `*MATCH*: ...`, the ones after it as `Next: ...`.
    pub fn inspect_siblings(&self, h: usize) -> (r: Vec<String>)
        ensures
            r@.len() == self.neighbourhood(h).len(),
            forall|i: int|
                0 <= i < r@.len() ==> #[trigger] r@[i]@ == place_label(
                    i,
                    self.preceding(h, SIBLING_REACH as nat).len(),
                ) + self.repr(self.neighbourhood(h)[i]),
    {
        let hs = self.neighbours(h);
        let np = self.siblings_toward(h, false).len();
        let mut r: Vec<String> = Vec::new();
        let mut i: usize = 0;
        while i < hs.len()
            invariant
                hs@ == self.neighbourhood(h),
                np == self.preceding(h, SIBLING_REACH as nat).len(),
                i <= hs@.len(),
                r@.len() == i,
                forall|k: int|
                    0 <= k < i ==> #[trigger] r@[k]@ == place_label(k, np as nat) + self.repr(hs@[k]),
            decreases hs@.len() - i,
        {
            let mut line = if i < np {
                String::from_str("Prev: ")
            } else if i == np {
                String::from_str("*MATCH*: ")
            } else {
                String::from_str("Next: ")
            };
            let rep = self.element_repr(hs[i]);
            line.append(rep.as_str());
            r.push(line);
            i += 1;
        }
        r
    }

    /// The top-level window holding `h`: walking up from `h` at most `fuel`
    /// steps, the last element before the desktop root (or where the walk
    /// ends).
    pub open spec fn top_level(&self, h: usize, fuel: nat) -> usize
        decreases fuel,
    {
        if fuel == 0 {
            h
        } else {
            match self.parent_of(h) {
                Some(p) => if p == DESKTOP {
                    h
                } else {
                    self.top_level(p, (fuel - 1) as nat)
                },
                None => h,
            }
        }
    }

    /// The title of the top-level window that holds the focused element
    /// `focused`, walking at most `FOCUS_WALK_CAP` parents up.
    pub fn focused_window_name(&self, focused: usize) -> (r: Option<String>)
        ensures
            match r {
                Some(n) => self.name_of(self.top_level(focused, FOCUS_WALK_CAP as nat)) == Some(n@),
                None => self.name_of(self.top_level(focused, FOCUS_WALK_CAP as nat)) is None,
            },
    {
        let mut cur = focused;
        let mut k: usize = 0;
        while k < FOCUS_WALK_CAP
            invariant
                k <= FOCUS_WALK_CAP,
                self.top_level(cur, (FOCUS_WALK_CAP - k) as nat) == self.top_level(
                    focused,
                    FOCUS_WALK_CAP as nat,
                ),
            decreases FOCUS_WALK_CAP - k,
        {
            match self.parent(cur) {
                Some(p) => {
                    if p == DESKTOP {
                        return self.name(cur);
                    }
                    cur = p;
                },
                None => {
                    return self.name(cur);
                },
            }
            k += 1;
        }
        self.name(cur)
    }

    /// The chain of parents of `h`, nearest first, at most `ANCESTRY_CAP` long.
    pub fn get_ancestry(&self, h: usize) -> (r: Vec<usize>)
        ensures
            r@ == self.ancestry(h, ANCESTRY_CAP as nat),
    {
        let mut r: Vec<usize> = Vec::new();
        let mut cur = h;
        let mut k: usize = 0;
        while k < ANCESTRY_CAP
            invariant
                k <= ANCESTRY_CAP,
                r@ + self.ancestry(cur, (ANCESTRY_CAP - k) as nat) == self.ancestry(
                    h,
                    ANCESTRY_CAP as nat,
                ),
            decreases ANCESTRY_CAP - k,
        {
            match self.parent(cur) {
                Some(p) => {
                    proof {
                        assert(self.ancestry(cur, (ANCESTRY_CAP - k) as nat) == seq![p]
                            + self.ancestry(p, (ANCESTRY_CAP - k - 1) as nat));
                        assert(r@.push(p) + self.ancestry(p, (ANCESTRY_CAP - k - 1) as nat)
                            =~= r@ + (seq![p] + self.ancestry(p, (ANCESTRY_CAP - k - 1) as nat)));
                    }
                    r.push(p);
                    cur = p;
                },
                None => {
                    assert(r@ + Seq::<usize>::empty() =~= r@);
                    return r;
                },
            }
            k += 1;
        }
        assert(r@ + Seq::<usize>::empty() =~= r@);
        r
    }
}

/// Shape of the sibling report: the element stands after the siblings
/// reported before it; with two siblings on each side the report is exactly
/// [second before, first before, element, first after, second after]; at an
/// edge of its parent's children only the siblings that exist appear.
pub proof fn lemma_neighbourhood_shape(t: &UiTree, h: usize)
    ensures
        ({
            let nb = t.neighbourhood(h);
            let np = t.preceding(h, SIBLING_REACH as nat).len();
            &&& nb.len() == np + 1 + t.following(h, SIBLING_REACH as nat).len()
            &&& np <= 2 && nb.len() <= 5
            &&& nb[np as int] == h
            &&& t.previous_sibling(h) is None ==> nb[0] == h
            &&& t.next_sibling(h) is None ==> nb.last() == h
            &&& match (t.previous_sibling(h), t.next_sibling(h)) {
                (Some(p1), Some(n1)) => match (t.previous_sibling(p1), t.next_sibling(n1)) {
                    (Some(p2), Some(n2)) => nb == seq![p2, p1, h, n1, n2],
                    _ => true,
                },
                _ => true,
            }
        }),
{
    let pre = t.preceding(h, 2);
    let fol = t.following(h, 2);
    match t.previous_sibling(h) {
        Some(p1) => {
            assert(t.preceding(p1, 1) == match t.previous_sibling(p1) {
                Some(p2) => seq![p2] + t.preceding(p2, 0),
                None => Seq::<usize>::empty(),
            });
        },
        None => {},
    }
    match t.next_sibling(h) {
        Some(n1) => {
            assert(t.following(n1, 1) == match t.next_sibling(n1) {
                Some(n2) => seq![n2] + t.following(n2, 0),
                None => Seq::<usize>::empty(),
            });
        },
        None => {},
    }
    let nb = t.neighbourhood(h);
    assert(nb == pre.reverse() + seq![h] + fol);
    match (t.previous_sibling(h), t.next_sibling(h)) {
        (Some(p1), Some(n1)) => match (t.previous_sibling(p1), t.next_sibling(n1)) {
            (Some(p2), Some(n2)) => {
                assert(pre =~= seq![p1, p2]);
                assert(fol =~= seq![n1, n2]);
                assert(nb =~= seq![p2, p1, h, n1, n2]);
            },
            _ => {},
        },
        _ => {},
    }
}

/// The prefix that marks the line at index `i` of a sibling report whose
/// matched element stands at index `np`.
pub open spec fn place_label(i: int, np: nat) -> Seq<char> {
    if i < np {
        "Prev: "@
    } else if i == np {
        "*MATCH*: "@
    } else {
        "Next: "@
    }
}

/// First index `i` (at or after `from`) with `s[i] == x`.
pub open spec fn position_from(s: Seq<usize>, x: usize, from: int) -> Option<int>
    decreases s.len() - from,
{
    if from < 0 || from >= s.len() {
        None
    } else if s[from] == x {
        Some(from)
    } else {
        position_from(s, x, from + 1)
    }
}

} // verus!
