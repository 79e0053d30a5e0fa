//! Window enumeration and classification: which top-level windows exist, and
//! which of them are targets.
use vstd::prelude::*;
use crate::order::{sort_by_title, sorted_by_title};
use crate::text::{contains_text, has_substring, is_blank, lower_of, lowercase};
use crate::tree::{UiTree, DESKTOP};

verus! {

/// Titles of windows that are never targets: this tool's own window and shells.
pub open spec fn exclusions() -> Seq<Seq<char>> {
    seq!["ag-accept"@, "cmd.exe"@, "powershell"@, "Windows PowerShell"@]
}

/// The raw title holds one of the exclusions (case-sensitive).
pub open spec fn excluded(title: Seq<char>) -> bool {
    exists|i: int| 0 <= i < exclusions().len() && has_substring(title, #[trigger] exclusions()[i])
}

/// A window is a target when its lower-cased title holds the lower-cased
/// target text and its raw title holds no exclusion.
pub open spec fn selects(title: Seq<char>, title_lower: Seq<char>, target_lower: Seq<char>) -> bool {
    has_substring(title_lower, target_lower) && !excluded(title)
}

/// The titles that are listed for the operator: every one that reads and is
/// not blank, in window order.
pub open spec fn listed(t: &UiTree, ws: Seq<usize>) -> Seq<String>
    decreases ws.len(),
{
    if ws.len() == 0 {
        Seq::empty()
    } else {
        let w = ws.last();
        let rest = listed(t, ws.drop_last());
        if t.resolves(w) {
            rest.push(t.nodes@[w as int].name.unwrap())
        } else {
            rest
        }
    }
}

/// The target windows with their titles, in window order.
pub open spec fn targeted(t: &UiTree, ws: Seq<usize>, target_lower: Seq<char>) -> Seq<(Seq<char>, usize)>
    decreases ws.len(),
{
    if ws.len() == 0 {
        Seq::empty()
    } else {
        let w = ws.last();
        let rest = targeted(t, ws.drop_last(), target_lower);
        if t.resolves(w) && selects(t.name_of(w).unwrap(), lower_of(t.name_of(w).unwrap()), target_lower) {
            rest.push((t.name_of(w).unwrap(), w))
        } else {
            rest
        }
    }
}

pub open spec fn pairs_view(v: Seq<(String, usize)>) -> Seq<(Seq<char>, usize)> {
    v.map_values(|p: (String, usize)| (p.0@, p.1))
}

/// The windows found in one cycle.
pub struct Discovery {
    /// Every title that reads and is not blank, sorted.
    pub all_titles: Vec<String>,
    /// The target windows, in window order, with their titles.
    pub targets: Vec<(String, usize)>,
}

/// Whether `title` names an excluded window.
pub fn is_excluded(title: &str) -> (r: bool)
    ensures
        r == excluded(title@),
{
    let a = contains_text(title, "ag-accept");
    let b = contains_text(title, "cmd.exe");
    let c = contains_text(title, "powershell");
    let d = contains_text(title, "Windows PowerShell");
    proof {
        if a {
            assert(has_substring(title@, exclusions()[0]));
        }
        if b {
            assert(has_substring(title@, exclusions()[1]));
        }
        if c {
            assert(has_substring(title@, exclusions()[2]));
        }
        if d {
            assert(has_substring(title@, exclusions()[3]));
        }
    }
    a || b || c || d
}

/// Whether a window titled `title` (lower-cased: `title_lower`) is a target
/// for the lower-cased target text `target_lower`.
pub fn title_selected(title: &str, title_lower: &str, target_lower: &str) -> (r: bool)
    ensures
        r == selects(title@, title_lower@, target_lower@),
{
    contains_text(title_lower, target_lower) && !is_excluded(title)
}

/// Lists the top-level windows of `t` (the children of the desktop root)
/// and picks the targets for `target_lower`, the lower-cased target text.
pub fn classify(t: &UiTree, target_lower: &String) -> (r: Discovery)
    ensures
        sorted_by_title(r.all_titles@),
        r.all_titles@.to_multiset() == listed(t, t.kids(DESKTOP)).to_multiset(),
        pairs_view(r.targets@) == targeted(t, t.kids(DESKTOP), target_lower@),
{
    let ws = t.children(DESKTOP);
    let mut titles: Vec<String> = Vec::new();
    let mut targets: Vec<(String, usize)> = Vec::new();
    let mut i: usize = 0;
    while i < ws.len()
        invariant
            ws@ == t.kids(DESKTOP),
            i <= ws@.len(),
            titles@ == listed(t, ws@.subrange(0, i as int)),
            pairs_view(targets@) == targeted(t, ws@.subrange(0, i as int), target_lower@),
        decreases ws@.len() - i,
    {
        let w = ws[i];
        proof {
            assert(ws@.subrange(0, i + 1).drop_last() =~= ws@.subrange(0, i as int));
            assert(ws@.subrange(0, i + 1).last() == w);
        }
        if let Some(name) = t.name(w) {
            if !is_blank(name.as_str()) {
                let lower = lowercase(name.as_str());
                if title_selected(name.as_str(), lower.as_str(), target_lower.as_str()) {
                    targets.push((name.clone(), w));
                    assert(pairs_view(targets@) =~= targeted(t, ws@.subrange(0, i as int), target_lower@).push((name@, w)));
                }
                titles.push(name);
                assert(titles@ =~= listed(t, ws@.subrange(0, i as int)).push(name));
            }
        }
        i += 1;
    }
    assert(ws@.subrange(0, ws@.len() as int) =~= ws@);
    let sorted = sort_by_title(titles);
    Discovery { all_titles: sorted, targets }
}

} // verus!
