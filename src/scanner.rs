//! The combined tree scanner: one bounded depth-first pass that looks for a
//! context phrase and for a button-like element whose name holds a button
//! phrase, and stops as soon as both are found.
use vstd::prelude::*;
use crate::text::{contains_text, has_substring, is_blank};
use crate::tree::UiTree;

verus! {

/// How many levels below the root a scan descends.
pub const MAX_DEPTH: usize = 25;

/// What one scan found.
pub struct ScanResult {
    pub context_found: bool,
    pub button: Option<usize>,
}

impl ScanResult {
    pub open spec fn view(&self) -> (bool, Option<usize>) {
        (self.context_found, self.button)
    }
}

pub open spec fn texts_view(v: Seq<String>) -> Seq<Seq<char>> {
    v.map_values(|s: String| s@)
}

/// Some pattern occurs in `name`.
pub open spec fn any_in(name: Seq<char>, pats: Seq<Seq<char>>) -> bool {
    exists|i: int| 0 <= i < pats.len() && has_substring(name, #[trigger] pats[i])
}

/// The control type reads and names a button or a hyperlink.
pub open spec fn button_like(ty: Option<Seq<char>>) -> bool {
    match ty {
        Some(t) => has_substring(t, "Button"@) || has_substring(t, "Hyperlink"@),
        None => false,
    }
}

/// `n` carries a context phrase.
pub open spec fn context_hit(t: &UiTree, n: usize, ctx: Seq<Seq<char>>) -> bool {
    t.resolves(n) && any_in(t.name_of(n).unwrap(), ctx)
}

/// `n` qualifies as the button: its name holds a button phrase and its
/// control type reads as button-like (a failed type query rejects it).
pub open spec fn button_hit(t: &UiTree, n: usize, btn: Seq<Seq<char>>) -> bool {
    t.resolves(n) && any_in(t.name_of(n).unwrap(), btn) && button_like(t.type_of(n))
}

pub open spec fn done(st: (bool, Option<usize>)) -> bool {
    st.0 && st.1 is Some
}

/// The scan state after examining node `n`.
pub open spec fn step(
    t: &UiTree,
    n: usize,
    ctx: Seq<Seq<char>>,
    btn: Seq<Seq<char>>,
    st: (bool, Option<usize>),
) -> (bool, Option<usize>) {
    (
        st.0 || context_hit(t, n, ctx),
        if st.1 is None && button_hit(t, n, btn) {
            Some(n)
        } else {
            st.1
        },
    )
}

/// Examines the nodes of `s` in order, stopping once both are found.
pub open spec fn scan_fold(
    t: &UiTree,
    s: Seq<usize>,
    ctx: Seq<Seq<char>>,
    btn: Seq<Seq<char>>,
    st: (bool, Option<usize>),
) -> (bool, Option<usize>)
    decreases s.len(),
{
    if done(st) || s.len() == 0 {
        st
    } else {
        scan_fold(t, s.drop_first(), ctx, btn, step(t, s[0], ctx, btn, st))
    }
}

/// Pre-order of the subtrees under the sibling list `kids`, which stand on a
/// level with `fuel` levels left to descend (nothing when `fuel` is zero).
pub open spec fn walk(t: &UiTree, kids: Seq<usize>, fuel: nat) -> Seq<usize>
    decreases fuel, kids.len(),
{
    if fuel == 0 || kids.len() == 0 {
        Seq::empty()
    } else {
        walk(t, kids.drop_last(), fuel) + seq![kids.last()] + walk(
            t,
            t.kids(kids.last()),
            (fuel - 1) as nat,
        )
    }
}

/// The nodes a scan from `root` visits, in order: the descendants of `root`
/// down to `MAX_DEPTH` levels, depth first, children in sibling order.
pub open spec fn scan_order(t: &UiTree, root: usize) -> Seq<usize> {
    walk(t, t.kids(root), MAX_DEPTH as nat)
}

/// What a scan from `root` returns.
pub open spec fn scan_spec(
    t: &UiTree,
    root: usize,
    ctx: Seq<Seq<char>>,
    btn: Seq<Seq<char>>,
) -> (bool, Option<usize>) {
    scan_fold(t, scan_order(t, root), ctx, btn, (false, None))
}

/// `n` lies on a path of at most `d` parent-to-child links down from `from`.
pub open spec fn reachable_within(t: &UiTree, from: usize, n: usize, d: nat) -> bool
    decreases d,
{
    d > 0 && exists|i: int|
        0 <= i < t.kids(from).len() && (#[trigger] t.kids(from)[i] == n || reachable_within(
            t,
            t.kids(from)[i],
            n,
            (d - 1) as nat,
        ))
}

/// A scan over the concatenation of two runs is the scan of the second run
/// from where the first left off.
pub proof fn lemma_fold_append(
    t: &UiTree,
    a: Seq<usize>,
    b: Seq<usize>,
    ctx: Seq<Seq<char>>,
    btn: Seq<Seq<char>>,
    st: (bool, Option<usize>),
)
    ensures
        scan_fold(t, a + b, ctx, btn, st) == scan_fold(t, b, ctx, btn, scan_fold(t, a, ctx, btn, st)),
    decreases a.len(),
{
    if done(st) {
        lemma_fold_done(t, b, ctx, btn, st);
    } else if a.len() == 0 {
        assert(a + b =~= b);
    } else {
        assert((a + b).drop_first() =~= a.drop_first() + b);
        lemma_fold_append(t, a.drop_first(), b, ctx, btn, step(t, a[0], ctx, btn, st));
    }
}

proof fn lemma_fold_done(
    t: &UiTree,
    s: Seq<usize>,
    ctx: Seq<Seq<char>>,
    btn: Seq<Seq<char>>,
    st: (bool, Option<usize>),
)
    requires
        done(st),
    ensures
        scan_fold(t, s, ctx, btn, st) == st,
{
}

proof fn lemma_walk_within(t: &UiTree, kids: Seq<usize>, fuel: nat)
    ensures
        forall|x: usize|
            #[trigger] walk(t, kids, fuel).contains(x) ==> fuel > 0 && exists|i: int|
                0 <= i < kids.len() && (kids[i] == x || reachable_within(
                    t,
                    kids[i],
                    x,
                    (fuel - 1) as nat,
                )),
    decreases fuel, kids.len(),
{
    if fuel == 0 || kids.len() == 0 {
    } else {
        let front = kids.drop_last();
        let last = kids.last();
        let below = walk(t, t.kids(last), (fuel - 1) as nat);
        lemma_walk_within(t, front, fuel);
        lemma_walk_within(t, t.kids(last), (fuel - 1) as nat);
        assert forall|x: usize| #[trigger] walk(t, kids, fuel).contains(x) implies fuel > 0
            && exists|i: int|
            0 <= i < kids.len() && (kids[i] == x || reachable_within(
                t,
                kids[i],
                x,
                (fuel - 1) as nat,
            )) by {
            let w = walk(t, kids, fuel);
            assert(w == walk(t, front, fuel) + seq![last] + below);
            let j = choose|j: int| 0 <= j < w.len() && w[j] == x;
            let n1 = walk(t, front, fuel).len();
            if j < n1 {
                assert(walk(t, front, fuel)[j] == x);
                assert(walk(t, front, fuel).contains(x));
                let i = choose|i: int|
                    0 <= i < front.len() && (front[i] == x || reachable_within(
                        t,
                        front[i],
                        x,
                        (fuel - 1) as nat,
                    ));
                assert(kids[i] == front[i]);
            } else if j == n1 {
                assert(kids[kids.len() - 1] == x);
            } else {
                assert(below[j - n1 - 1] == x);
                assert(below.contains(x));
                let i = choose|i: int|
                    0 <= i < t.kids(last).len() && (t.kids(last)[i] == x || reachable_within(
                        t,
                        t.kids(last)[i],
                        x,
                        (fuel - 2) as nat,
                    ));
                assert(reachable_within(t, last, x, (fuel - 1) as nat));
                assert(kids[kids.len() - 1] == last);
            }
        }
    }
}

/// The scan never descends past the depth cap: every node it examines lies
/// at most `MAX_DEPTH` parent-to-child links below the root, so on a deeper
/// (or cyclic) tree the result rests on the first `MAX_DEPTH` levels alone.
pub proof fn lemma_scan_within_depth(t: &UiTree, root: usize)
    ensures
        forall|x: usize|
            #[trigger] scan_order(t, root).contains(x) ==> reachable_within(
                t,
                root,
                x,
                MAX_DEPTH as nat,
            ),
{
    lemma_walk_within(t, t.kids(root), MAX_DEPTH as nat);
}

/// `x` is one of `kids`, or lies at most `d - 1` links below one of them
/// (nothing when `d` is zero).
pub open spec fn within_list(t: &UiTree, kids: Seq<usize>, x: usize, d: nat) -> bool {
    d > 0 && exists|i: int|
        0 <= i < kids.len() && (#[trigger] kids[i] == x || reachable_within(
            t,
            kids[i],
            x,
            (d - 1) as nat,
        ))
}

proof fn lemma_walk_agrees(t1: &UiTree, t2: &UiTree, kids: Seq<usize>, fuel: nat)
    requires
        forall|x: usize| #[trigger] within_list(t1, kids, x, (fuel - 1) as nat) ==> t1.kids(x) == t2.kids(x),
    ensures
        walk(t1, kids, fuel) == walk(t2, kids, fuel),
    decreases fuel, kids.len(),
{
    if fuel > 0 && kids.len() > 0 {
        let front = kids.drop_last();
        let last = kids.last();
        assert forall|x: usize| #[trigger] within_list(t1, front, x, (fuel - 1) as nat) implies t1.kids(x)
            == t2.kids(x) by {
            let i = choose|i: int|
                0 <= i < front.len() && (#[trigger] front[i] == x || reachable_within(
                    t1,
                    front[i],
                    x,
                    (fuel - 2) as nat,
                ));
            assert(kids[i] == front[i]);
            assert(within_list(t1, kids, x, (fuel - 1) as nat));
        }
        lemma_walk_agrees(t1, t2, front, fuel);
        if fuel > 1 {
            assert(kids[kids.len() - 1] == last);
            assert(within_list(t1, kids, last, (fuel - 1) as nat));
            let below = t1.kids(last);
            assert forall|x: usize| #[trigger] within_list(t1, below, x, (fuel - 2) as nat) implies t1.kids(
                x,
            ) == t2.kids(x) by {
                let j = choose|j: int|
                    0 <= j < below.len() && (#[trigger] below[j] == x || reachable_within(
                        t1,
                        below[j],
                        x,
                        (fuel - 3) as nat,
                    ));
                assert(reachable_within(t1, last, x, (fuel - 2) as nat));
                assert(kids[kids.len() - 1] == last);
                assert(within_list(t1, kids, x, (fuel - 1) as nat));
            }
            lemma_walk_agrees(t1, t2, below, (fuel - 1) as nat);
        } else {
            assert(walk(t1, t1.kids(last), 0) =~= walk(t2, t2.kids(last), 0));
        }
    }
}

proof fn lemma_fold_agrees(
    t1: &UiTree,
    t2: &UiTree,
    s: Seq<usize>,
    ctx: Seq<Seq<char>>,
    btn: Seq<Seq<char>>,
    st: (bool, Option<usize>),
)
    requires
        forall|i: int|
            0 <= i < s.len() ==> t1.name_of(#[trigger] s[i]) == t2.name_of(s[i]) && t1.type_of(s[i])
                == t2.type_of(s[i]),
    ensures
        scan_fold(t1, s, ctx, btn, st) == scan_fold(t2, s, ctx, btn, st),
    decreases s.len(),
{
    if !done(st) && s.len() > 0 {
        assert(t1.name_of(s[0]) == t2.name_of(s[0]));
        assert(t1.type_of(s[0]) == t2.type_of(s[0]));
        assert(step(t1, s[0], ctx, btn, st) == step(t2, s[0], ctx, btn, st));
        assert forall|i: int| 0 <= i < s.drop_first().len() implies t1.name_of(
            #[trigger] s.drop_first()[i],
        ) == t2.name_of(s.drop_first()[i]) && t1.type_of(s.drop_first()[i]) == t2.type_of(
            s.drop_first()[i],
        ) by {
            assert(s.drop_first()[i] == s[i + 1]);
        }
        lemma_fold_agrees(t1, t2, s.drop_first(), ctx, btn, step(t1, s[0], ctx, btn, st));
    }
}

/// The scan reads nothing below the depth cap: two trees that agree on the
/// children of the root and of every node less than `MAX_DEPTH` levels
/// below it, and on the names and control types of every node within
/// `MAX_DEPTH` levels, give the same result. A tree and the same tree cut
/// after `MAX_DEPTH` levels agree so.
pub proof fn lemma_scan_depends_on_first_levels(
    t1: &UiTree,
    t2: &UiTree,
    root: usize,
    ctx: Seq<Seq<char>>,
    btn: Seq<Seq<char>>,
)
    requires
        t1.kids(root) == t2.kids(root),
        forall|x: usize|
            #[trigger] reachable_within(t1, root, x, (MAX_DEPTH - 1) as nat) ==> t1.kids(x) == t2.kids(x),
        forall|x: usize|
            #[trigger] reachable_within(t1, root, x, MAX_DEPTH as nat) ==> t1.name_of(x) == t2.name_of(x)
                && t1.type_of(x) == t2.type_of(x),
    ensures
        scan_spec(t1, root, ctx, btn) == scan_spec(t2, root, ctx, btn),
{
    let kids = t1.kids(root);
    assert forall|x: usize| #[trigger] within_list(t1, kids, x, (MAX_DEPTH - 1) as nat) implies t1.kids(x)
        == t2.kids(x) by {
        assert(reachable_within(t1, root, x, (MAX_DEPTH - 1) as nat));
    }
    lemma_walk_agrees(t1, t2, kids, MAX_DEPTH as nat);
    let s = scan_order(t1, root);
    assert(s == scan_order(t2, root));
    lemma_scan_within_depth(t1, root);
    assert forall|i: int| 0 <= i < s.len() implies t1.name_of(#[trigger] s[i]) == t2.name_of(s[i])
        && t1.type_of(s[i]) == t2.type_of(s[i]) by {
        assert(s.contains(s[i]));
        assert(reachable_within(t1, root, s[i], MAX_DEPTH as nat));
    }
    lemma_fold_agrees(t1, t2, s, ctx, btn, (false, None));
}

proof fn lemma_fold_facts(
    t: &UiTree,
    s: Seq<usize>,
    ctx: Seq<Seq<char>>,
    btn: Seq<Seq<char>>,
    st: (bool, Option<usize>),
)
    requires
        st.1 is Some ==> done(st) || button_hit(t, st.1.unwrap(), btn),
    ensures
        scan_fold(t, s, ctx, btn, st).0 <==> (st.0 || exists|i: int|
            0 <= i < s.len() && context_hit(t, #[trigger] s[i], ctx)),
        scan_fold(t, s, ctx, btn, st).1 is Some <==> (st.1 is Some || exists|i: int|
            0 <= i < s.len() && button_hit(t, #[trigger] s[i], btn)),
        st.1 is Some ==> scan_fold(t, s, ctx, btn, st).1 == st.1,
        st.1 is None && scan_fold(t, s, ctx, btn, st).1 is Some ==> button_hit(
            t,
            scan_fold(t, s, ctx, btn, st).1.unwrap(),
            btn,
        ),
    decreases s.len(),
{
    if done(st) || s.len() == 0 {
    } else {
        let nx = step(t, s[0], ctx, btn, st);
        let rest = s.drop_first();
        lemma_fold_facts(t, rest, ctx, btn, nx);
        if exists|i: int| 0 <= i < s.len() && context_hit(t, #[trigger] s[i], ctx) {
            let i = choose|i: int| 0 <= i < s.len() && context_hit(t, #[trigger] s[i], ctx);
            if i > 0 {
                assert(rest[i - 1] == s[i]);
            }
        }
        if exists|i: int| 0 <= i < rest.len() && context_hit(t, #[trigger] rest[i], ctx) {
            let i = choose|i: int| 0 <= i < rest.len() && context_hit(t, #[trigger] rest[i], ctx);
            assert(s[i + 1] == rest[i]);
        }
        if exists|i: int| 0 <= i < s.len() && button_hit(t, #[trigger] s[i], btn) {
            let i = choose|i: int| 0 <= i < s.len() && button_hit(t, #[trigger] s[i], btn);
            if i > 0 {
                assert(rest[i - 1] == s[i]);
            }
        }
        if exists|i: int| 0 <= i < rest.len() && button_hit(t, #[trigger] rest[i], btn) {
            let i = choose|i: int| 0 <= i < rest.len() && button_hit(t, #[trigger] rest[i], btn);
            assert(s[i + 1] == rest[i]);
        }
    }
}

/// The scan reports both a context and a button exactly when, along its own
/// traversal order, some node carries a context phrase and some node
/// qualifies as the button; a reported button always qualifies.
pub proof fn lemma_scan_hit_iff(t: &UiTree, root: usize, ctx: Seq<Seq<char>>, btn: Seq<Seq<char>>)
    ensures
        ({
            let r = scan_spec(t, root, ctx, btn);
            let s = scan_order(t, root);
            &&& (r.0 && r.1 is Some) <==> ((exists|i: int|
                0 <= i < s.len() && context_hit(t, #[trigger] s[i], ctx)) && (exists|j: int|
                0 <= j < s.len() && button_hit(t, #[trigger] s[j], btn)))
            &&& r.1 is Some ==> button_hit(t, r.1.unwrap(), btn)
        }),
{
    lemma_fold_facts(t, scan_order(t, root), ctx, btn, (false, None));
}

/// The scan stops as soon as both a context and a button are found: once
/// the first `k` nodes of the traversal have satisfied both, whatever
/// follows them has no bearing on the result.
pub proof fn lemma_scan_short_circuit(
    t: &UiTree,
    root: usize,
    ctx: Seq<Seq<char>>,
    btn: Seq<Seq<char>>,
    k: int,
)
    requires
        0 <= k <= scan_order(t, root).len(),
        done(scan_fold(t, scan_order(t, root).take(k), ctx, btn, (false, None))),
    ensures
        scan_spec(t, root, ctx, btn) == scan_fold(
            t,
            scan_order(t, root).take(k),
            ctx,
            btn,
            (false, None),
        ),
{
    let s = scan_order(t, root);
    assert(s =~= s.take(k) + s.skip(k));
    lemma_fold_append(t, s.take(k), s.skip(k), ctx, btn, (false, None));
    lemma_fold_done(t, s.skip(k), ctx, btn, scan_fold(t, s.take(k), ctx, btn, (false, None)));
}

fn any_text_in(name: &str, pats: &Vec<String>) -> (r: bool)
    ensures
        r == any_in(name@, texts_view(pats@)),
{
    let mut i: usize = 0;
    while i < pats.len()
        invariant
            i <= pats@.len(),
            forall|k: int| 0 <= k < i ==> !has_substring(name@, #[trigger] texts_view(pats@)[k]),
        decreases pats@.len() - i,
    {
        if contains_text(name, pats[i].as_str()) {
            assert(has_substring(name@, texts_view(pats@)[i as int]));
            return true;
        }
        i += 1;
    }
    false
}

fn is_button_like(t: &UiTree, n: usize) -> (r: bool)
    ensures
        r == button_like(t.type_of(n)),
{
    match t.control_type(n) {
        Some(ty) => contains_text(ty.as_str(), "Button") || contains_text(ty.as_str(), "Hyperlink"),
        None => false,
    }
}

/// Examines one node and updates the scan state.
fn visit(t: &UiTree, n: usize, ctx: &Vec<String>, btn: &Vec<String>, st: &mut ScanResult)
    ensures
        final(st)@ == step(t, n, texts_view(ctx@), texts_view(btn@), old(st)@),
{
    let name = match t.name(n) {
        Some(s) => s,
        None => return ,
    };
    if is_blank(name.as_str()) {
        return ;
    }
    if !st.context_found && any_text_in(name.as_str(), ctx) {
        st.context_found = true;
    }
    if st.button.is_none() && any_text_in(name.as_str(), btn) && is_button_like(t, n) {
        st.button = Some(n);
    }
}

/// Scans the subtrees under `kids` with `fuel` levels left, continuing the state `st`.
fn scan_level(
    t: &UiTree,
    kids: &[usize],
    fuel: usize,
    ctx: &Vec<String>,
    btn: &Vec<String>,
    st: &mut ScanResult,
)
    ensures
        final(st)@ == scan_fold(
            t,
            walk(t, kids@, fuel as nat),
            texts_view(ctx@),
            texts_view(btn@),
            old(st)@,
        ),
    decreases fuel,
{
    let ghost c = texts_view(ctx@);
    let ghost b = texts_view(btn@);
    let ghost st0 = st@;
    if fuel == 0 {
        return ;
    }
    let mut i: usize = 0;
    while i < kids.len()
        invariant
            fuel > 0,
            st0 == old(st)@,
            c == texts_view(ctx@),
            b == texts_view(btn@),
            i <= kids@.len(),
            st@ == scan_fold(t, walk(t, kids@.subrange(0, i as int), fuel as nat), c, b, st0),
        decreases kids@.len() - i,
    {
        let ghost pre = kids@.subrange(0, i as int);
        let ghost next = kids@.subrange(0, i + 1);
        let ghost k = kids@[i as int];
        proof {
            assert(next.drop_last() =~= pre);
            assert(walk(t, next, fuel as nat) == walk(t, pre, fuel as nat) + seq![k] + walk(
                t,
                t.kids(k),
                (fuel - 1) as nat,
            ));
            lemma_fold_append(
                t,
                walk(t, pre, fuel as nat) + seq![k],
                walk(t, t.kids(k), (fuel - 1) as nat),
                c,
                b,
                st0,
            );
            lemma_fold_append(t, walk(t, pre, fuel as nat), seq![k], c, b, st0);
        }
        if st.context_found && st.button.is_some() {
            proof {
                lemma_fold_done(t, seq![k], c, b, st@);
                lemma_fold_done(t, walk(t, t.kids(k), (fuel - 1) as nat), c, b, st@);
                lemma_rest_skipped(t, kids@, i as int, fuel as nat, c, b, st0);
            }
            return ;
        }
        proof {
            let s1 = step(t, k, c, b, st@);
            assert(seq![k].drop_first() =~= Seq::<usize>::empty());
            assert(scan_fold(t, seq![k].drop_first(), c, b, s1) == s1);
            assert(scan_fold(t, seq![k], c, b, st@) == s1);
        }
        let kid = kids[i];
        visit(t, kid, ctx, btn, st);
        scan_level(t, t.children(kid), fuel - 1, ctx, btn, st);
        i += 1;
    }
    assert(kids@.subrange(0, kids@.len() as int) =~= kids@);
}

/// Once the state is complete after a prefix of the siblings, the rest of
/// the walk leaves it as it is.
proof fn lemma_rest_skipped(
    t: &UiTree,
    kids: Seq<usize>,
    i: int,
    fuel: nat,
    c: Seq<Seq<char>>,
    b: Seq<Seq<char>>,
    st0: (bool, Option<usize>),
)
    requires
        0 <= i <= kids.len(),
        done(scan_fold(t, walk(t, kids.subrange(0, i), fuel), c, b, st0)),
    ensures
        scan_fold(t, walk(t, kids, fuel), c, b, st0) == scan_fold(
            t,
            walk(t, kids.subrange(0, i), fuel),
            c,
            b,
            st0,
        ),
    decreases kids.len() - i,
{
    if i == kids.len() {
        assert(kids.subrange(0, i) =~= kids);
    } else {
        let pre = kids.subrange(0, i);
        let next = kids.subrange(0, i + 1);
        let k = kids[i];
        let mid = scan_fold(t, walk(t, pre, fuel), c, b, st0);
        if fuel > 0 {
            assert(next.drop_last() =~= pre);
            assert(walk(t, next, fuel) == walk(t, pre, fuel) + seq![k] + walk(t, t.kids(k), (fuel - 1) as nat));
            lemma_fold_append(t, walk(t, pre, fuel) + seq![k], walk(t, t.kids(k), (fuel - 1) as nat), c, b, st0);
            lemma_fold_append(t, walk(t, pre, fuel), seq![k], c, b, st0);
            lemma_fold_done(t, seq![k], c, b, mid);
            lemma_fold_done(t, walk(t, t.kids(k), (fuel - 1) as nat), c, b, mid);
        } else {
            assert(walk(t, next, fuel) =~= walk(t, pre, fuel));
        }
        lemma_rest_skipped(t, kids, i + 1, fuel, c, b, st0);
    }
}

/// One bounded depth-first pass over the descendants of `root` (down to
/// `MAX_DEPTH` levels, children in sibling order) that looks at once for an
/// element carrying a context phrase and for a button-like element carrying
/// a button phrase, and stops as soon as both are found. The button kept is
/// the first one met.
pub fn scan_for_context_and_button(
    t: &UiTree,
    root: usize,
    context: &Vec<String>,
    buttons: &Vec<String>,
) -> (r: ScanResult)
    ensures
        r@ == scan_spec(t, root, texts_view(context@), texts_view(buttons@)),
{
    let mut st = ScanResult { context_found: false, button: None };
    scan_level(t, t.children(root), MAX_DEPTH, context, buttons, &mut st);
    st
}

} // verus!
