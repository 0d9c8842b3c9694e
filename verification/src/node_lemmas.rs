use vstd::prelude::*;
use crate::pane_node::{lemma_extract_absent, NodeView, PaneId, SplitDirection, SplitId, SplitPlacement, TerminalId};

verus! {

broadcast use {vstd::seq_lib::lemma_seq_concat_contains_all_elements, vstd::seq_lib::lemma_seq_contains_after_push};

/// The ids `start, start + 1, ..., start + len - 1`.
pub open spec fn id_range(len: nat, start: int) -> Seq<usize> {
    Seq::new(len, |i: int| (start + i) as usize)
}

/// Two sequences share no element.
pub open spec fn disjoint<A>(a: Seq<A>, b: Seq<A>) -> bool {
    forall|x: A| a.contains(x) ==> !b.contains(x)
}

pub proof fn lemma_nodup_concat<A>(a: Seq<A>, b: Seq<A>)
    ensures
        (a + b).no_duplicates() <==> (a.no_duplicates() && b.no_duplicates() && disjoint(a, b)),
{
    let c = a + b;
    if c.no_duplicates() {
        assert forall|i: int, j: int| 0 <= i < a.len() && 0 <= j < a.len() && i != j implies a[i]
            != a[j] by {
            assert(c[i] == a[i] && c[j] == a[j]);
        }
        assert forall|i: int, j: int| 0 <= i < b.len() && 0 <= j < b.len() && i != j implies b[i]
            != b[j] by {
            assert(c[a.len() + i] == b[i] && c[a.len() + j] == b[j]);
        }
        assert forall|x: A| a.contains(x) implies !b.contains(x) by {
            let i = choose|i: int| 0 <= i < a.len() && a[i] == x;
            if b.contains(x) {
                let j = choose|j: int| 0 <= j < b.len() && b[j] == x;
                assert(c[i] == c[a.len() + j]);
            }
        }
    }
    if a.no_duplicates() && b.no_duplicates() && disjoint(a, b) {
        assert forall|i: int, j: int| 0 <= i < c.len() && 0 <= j < c.len() && i != j implies c[i]
            != c[j] by {
            if i < a.len() && j >= a.len() {
                assert(a.contains(c[i]));
                assert(b[j - a.len()] == c[j]);
                assert(b.contains(c[j]));
            } else if i >= a.len() && j < a.len() {
                assert(a.contains(c[j]));
                assert(b[i - a.len()] == c[i]);
                assert(b.contains(c[i]));
            }
        }
    }
}

pub proof fn lemma_has_leaf_unfold(n: NodeView, x: PaneId)
    ensures
        n matches NodeView::Leaf { id, .. } ==> (n.has_leaf(x) <==> id == x),
        n matches NodeView::Split { first, second, .. } ==> (n.has_leaf(x) <==> (first.has_leaf(x)
            || second.has_leaf(x))),
{
    match n {
        NodeView::Leaf { id, .. } => {
            if seq![id].contains(x) {
                let k = choose|k: int| 0 <= k < 1 && seq![id][k] == x;
            }
            assert(seq![id][0] == id);
        },
        NodeView::Split { .. } => {},
    }
}

/// Splitting leaf `t` adds the new leaf's panes and one split, and keeps
/// every pane, split and id uniqueness that was there.
pub proof fn lemma_split_shape(
    n: NodeView,
    t: PaneId,
    new_leaf: NodeView,
    d: SplitDirection,
    p: SplitPlacement,
    sid: SplitId,
)
    ensures
        !n.has_leaf(t) ==> n.split_spec(t, new_leaf, d, p, sid) == n,
        n.has_leaf(t) ==> n.split_spec(t, new_leaf, d, p, sid).leaf_ids().len() == n.leaf_ids().len()
            + new_leaf.leaf_ids().len(),
        forall|x: PaneId|
            #![trigger n.split_spec(t, new_leaf, d, p, sid).has_leaf(x)]
            n.split_spec(t, new_leaf, d, p, sid).has_leaf(x) <==> (n.has_leaf(x) || (n.has_leaf(t)
                && new_leaf.has_leaf(x))),
        forall|x: SplitId|
            #![trigger n.split_spec(t, new_leaf, d, p, sid).split_ids().contains(x)]
            n.split_spec(t, new_leaf, d, p, sid).split_ids().contains(x) <==> (n.split_ids().contains(
                x,
            ) || (n.has_leaf(t) && (x == sid || new_leaf.split_ids().contains(x)))),
        n.leaf_ids().no_duplicates() && new_leaf.leaf_ids().no_duplicates() && disjoint(
            n.leaf_ids(),
            new_leaf.leaf_ids(),
        ) ==> n.split_spec(t, new_leaf, d, p, sid).leaf_ids().no_duplicates(),
        n.split_ids().no_duplicates() && new_leaf.split_ids().no_duplicates() && disjoint(
            n.split_ids(),
            new_leaf.split_ids(),
        ) && !n.split_ids().contains(sid) && !new_leaf.split_ids().contains(sid)
            ==> n.split_spec(t, new_leaf, d, p, sid).split_ids().no_duplicates(),
    decreases n,
{
    let r = n.split_spec(t, new_leaf, d, p, sid);
    lemma_has_leaf_unfold(n, t);
    match n {
        NodeView::Leaf { id, .. } => {
            if id == t {
                assert forall|x: PaneId| #![trigger r.has_leaf(x)] r.has_leaf(x) <==> (n.has_leaf(x) || (
                n.has_leaf(t) && new_leaf.has_leaf(x))) by {
                    lemma_has_leaf_unfold(n, x);
                }
                lemma_nodup_concat(n.leaf_ids(), new_leaf.leaf_ids());
                lemma_nodup_concat(new_leaf.leaf_ids(), n.leaf_ids());
                assert(n.split_ids() =~= Seq::<SplitId>::empty());
                match p {
                    SplitPlacement::Before => {
                        assert(r.split_ids() =~= seq![sid] + new_leaf.split_ids());
                    },
                    SplitPlacement::After => {
                        assert(r.split_ids() =~= seq![sid] + new_leaf.split_ids());
                    },
                }
                assert forall|x: SplitId| #![trigger r.split_ids().contains(x)] r.split_ids().contains(x)
                    <==> (n.split_ids().contains(x) || (n.has_leaf(t) && (x == sid
                    || new_leaf.split_ids().contains(x)))) by {
                    if seq![sid].contains(x) {
                        let k = choose|k: int| 0 <= k < 1 && seq![sid][k] == x;
                    }
                    assert(seq![sid][0] == sid);
                }
                if new_leaf.split_ids().no_duplicates() && !new_leaf.split_ids().contains(sid) {
                    lemma_nodup_concat(seq![sid], new_leaf.split_ids());
                    assert forall|x: SplitId| seq![sid].contains(x) implies !new_leaf.split_ids().contains(x) by {
                        let k = choose|k: int| 0 <= k < 1 && seq![sid][k] == x;
                    }
                }
            }
        },
        NodeView::Split { split_id: s0, first, second, .. } => {
            lemma_split_shape(*first, t, new_leaf, d, p, sid);
            lemma_split_shape(*second, t, new_leaf, d, p, sid);
            let f = *first;
            let s = *second;
            lemma_nodup_concat(f.leaf_ids(), s.leaf_ids());
            lemma_nodup_concat(seq![s0] + f.split_ids(), s.split_ids());
            lemma_nodup_concat(seq![s0], f.split_ids());
            if f.has_leaf(t) {
                let f2 = f.split_spec(t, new_leaf, d, p, sid);
                lemma_nodup_concat(f2.leaf_ids(), s.leaf_ids());
                lemma_nodup_concat(seq![s0] + f2.split_ids(), s.split_ids());
                lemma_nodup_concat(seq![s0], f2.split_ids());
                assert forall|x: PaneId| #![trigger r.has_leaf(x)] r.has_leaf(x) <==> (n.has_leaf(x)
                    || (n.has_leaf(t) && new_leaf.has_leaf(x))) by {
                    assert(f2.has_leaf(x) <==> (f.has_leaf(x) || new_leaf.has_leaf(x)));
                }
                assert forall|x: SplitId| #![trigger r.split_ids().contains(x)] r.split_ids().contains(
                    x,
                ) <==> (n.split_ids().contains(x) || (n.has_leaf(t) && (x == sid
                    || new_leaf.split_ids().contains(x)))) by {
                    assert(f2.split_ids().contains(x) <==> (f.split_ids().contains(x) || x == sid
                        || new_leaf.split_ids().contains(x)));
                }
                if n.leaf_ids().no_duplicates() && new_leaf.leaf_ids().no_duplicates() && disjoint(
                    n.leaf_ids(),
                    new_leaf.leaf_ids(),
                ) {
                    assert(disjoint(f.leaf_ids(), new_leaf.leaf_ids()));
                    assert forall|x: PaneId| f2.leaf_ids().contains(x) implies !s.leaf_ids().contains(x) by {
                        assert(f2.has_leaf(x) <==> (f.has_leaf(x) || new_leaf.has_leaf(x)));
                    }
                }
                if n.split_ids().no_duplicates() && new_leaf.split_ids().no_duplicates() && disjoint(
                    n.split_ids(),
                    new_leaf.split_ids(),
                ) && !n.split_ids().contains(sid) && !new_leaf.split_ids().contains(sid) {
                    assert(disjoint(f.split_ids(), new_leaf.split_ids()));
                    assert forall|x: SplitId| (seq![s0] + f2.split_ids()).contains(x) implies !s.split_ids().contains(x) by {
                        assert(f2.split_ids().contains(x) <==> (f.split_ids().contains(x) || x == sid
                            || new_leaf.split_ids().contains(x)));
                        if seq![s0].contains(x) {
                            let k = choose|k: int| 0 <= k < 1 && seq![s0][k] == x;
                        }
                        assert((seq![s0] + f.split_ids()).contains(x) <==> (seq![s0].contains(x) || f.split_ids().contains(x)));
                    }
                    assert forall|x: SplitId| seq![s0].contains(x) implies !f2.split_ids().contains(x) by {
                        let k = choose|k: int| 0 <= k < 1 && seq![s0][k] == x;
                        assert(seq![s0][0] == s0);
                        assert(n.split_ids()[0] == s0);
                        assert(f2.split_ids().contains(x) <==> (f.split_ids().contains(x) || x == sid
                            || new_leaf.split_ids().contains(x)));
                    }
                }
            } else {
                let s2 = s.split_spec(t, new_leaf, d, p, sid);
                lemma_nodup_concat(f.leaf_ids(), s2.leaf_ids());
                lemma_nodup_concat(seq![s0] + f.split_ids(), s2.split_ids());
                assert forall|x: PaneId| #![trigger r.has_leaf(x)] r.has_leaf(x) <==> (n.has_leaf(x)
                    || (n.has_leaf(t) && new_leaf.has_leaf(x))) by {
                    assert(s2.has_leaf(x) <==> (s.has_leaf(x) || (s.has_leaf(t) && new_leaf.has_leaf(x))));
                }
                assert forall|x: SplitId| #![trigger r.split_ids().contains(x)] r.split_ids().contains(
                    x,
                ) <==> (n.split_ids().contains(x) || (n.has_leaf(t) && (x == sid
                    || new_leaf.split_ids().contains(x)))) by {
                    assert(s2.split_ids().contains(x) <==> (s.split_ids().contains(x) || (s.has_leaf(t)
                        && (x == sid || new_leaf.split_ids().contains(x)))));
                }
                if n.leaf_ids().no_duplicates() && new_leaf.leaf_ids().no_duplicates() && disjoint(
                    n.leaf_ids(),
                    new_leaf.leaf_ids(),
                ) {
                    assert forall|x: PaneId| f.leaf_ids().contains(x) implies !s2.leaf_ids().contains(x) by {
                        assert(s2.has_leaf(x) <==> (s.has_leaf(x) || (s.has_leaf(t) && new_leaf.has_leaf(x))));
                    }
                }
                if n.split_ids().no_duplicates() && new_leaf.split_ids().no_duplicates() && disjoint(
                    n.split_ids(),
                    new_leaf.split_ids(),
                ) && !n.split_ids().contains(sid) && !new_leaf.split_ids().contains(sid) {
                    assert forall|x: SplitId| (seq![s0] + f.split_ids()).contains(x) implies !s2.split_ids().contains(x) by {
                        assert(s2.split_ids().contains(x) <==> (s.split_ids().contains(x) || (s.has_leaf(t)
                            && (x == sid || new_leaf.split_ids().contains(x)))));
                    }
                }
            }
        },
    }
}


/// Removing leaf `t` keeps only panes and splits that were there; when ids
/// are unique and `t` sits under a split, it removes exactly pane `t`.
pub proof fn lemma_remove_shape(n: NodeView, t: PaneId)
    ensures
        !n.has_leaf(t) ==> n.remove_spec(t) == n,
        forall|x: PaneId| #![trigger n.remove_spec(t).has_leaf(x)] n.remove_spec(t).has_leaf(x) ==> n.has_leaf(x),
        forall|x: SplitId|
            #![trigger n.remove_spec(t).split_ids().contains(x)]
            n.remove_spec(t).split_ids().contains(x) ==> n.split_ids().contains(x),
        n.split_ids().no_duplicates() ==> n.remove_spec(t).split_ids().no_duplicates(),
        n.leaf_ids().no_duplicates() ==> n.remove_spec(t).leaf_ids().no_duplicates(),
        (n is Split && n.has_leaf(t) && n.leaf_ids().no_duplicates()) ==> {
            &&& !n.remove_spec(t).has_leaf(t)
            &&& n.remove_spec(t).leaf_ids().len() + 1 == n.leaf_ids().len()
            &&& forall|x: PaneId| #![trigger n.has_leaf(x)] n.has_leaf(x) && x != t ==> n.remove_spec(t).has_leaf(x)
        },
    decreases n,
{
    lemma_has_leaf_unfold(n, t);
    match n {
        NodeView::Leaf { .. } => {},
        NodeView::Split { split_id: s0, first, second, .. } => {
            let f = *first;
            let s = *second;
            lemma_remove_shape(f, t);
            lemma_remove_shape(s, t);
            lemma_has_leaf_unfold(f, t);
            lemma_has_leaf_unfold(s, t);
            lemma_nodup_concat(f.leaf_ids(), s.leaf_ids());
            lemma_nodup_concat(seq![s0] + f.split_ids(), s.split_ids());
            lemma_nodup_concat(seq![s0], f.split_ids());
            assert forall|x: PaneId| #![trigger n.remove_spec(t).has_leaf(x)] n.remove_spec(t).has_leaf(x) implies n.has_leaf(x) by {
                lemma_has_leaf_unfold(n, x);
                lemma_has_leaf_unfold(n.remove_spec(t), x);
                assert(f.remove_spec(t).has_leaf(x) ==> f.has_leaf(x));
                assert(s.remove_spec(t).has_leaf(x) ==> s.has_leaf(x));
            }
            if f.is_leaf_with(t) {
                assert forall|x: SplitId| s.split_ids().contains(x) implies n.split_ids().contains(x) by {}
                if n.leaf_ids().no_duplicates() {
                    assert forall|x: PaneId| #![trigger n.has_leaf(x)] n.has_leaf(x) && x != t implies s.has_leaf(x) by {
                        lemma_has_leaf_unfold(f, x);
                    }
                    assert(f.leaf_ids().len() == 1);
                }
            } else if s.is_leaf_with(t) {
                assert forall|x: SplitId| f.split_ids().contains(x) implies n.split_ids().contains(x) by {
                    assert((seq![s0] + f.split_ids()).contains(x));
                }
                if n.split_ids().no_duplicates() {}
                if n.leaf_ids().no_duplicates() {
                    assert forall|x: PaneId| #![trigger n.has_leaf(x)] n.has_leaf(x) && x != t implies f.has_leaf(x) by {
                        lemma_has_leaf_unfold(s, x);
                    }
                    assert(s.leaf_ids().len() == 1);
                }
            } else {
                let f2 = f.remove_spec(t);
                let s2 = s.remove_spec(t);
                lemma_nodup_concat(f2.leaf_ids(), s2.leaf_ids());
                lemma_nodup_concat(seq![s0] + f2.split_ids(), s2.split_ids());
                lemma_nodup_concat(seq![s0], f2.split_ids());
                assert forall|x: SplitId| #![trigger n.remove_spec(t).split_ids().contains(x)] n.remove_spec(t).split_ids().contains(x) implies n.split_ids().contains(x) by {
                    assert((seq![s0] + f2.split_ids()).contains(x) <==> (seq![s0].contains(x) || f2.split_ids().contains(x)));
                    assert((seq![s0] + f.split_ids()).contains(x) <==> (seq![s0].contains(x) || f.split_ids().contains(x)));
                }
                if n.split_ids().no_duplicates() {
                    assert forall|x: SplitId| (seq![s0] + f2.split_ids()).contains(x) implies !s2.split_ids().contains(x) by {
                        assert((seq![s0] + f2.split_ids()).contains(x) <==> (seq![s0].contains(x) || f2.split_ids().contains(x)));
                        assert((seq![s0] + f.split_ids()).contains(x) <==> (seq![s0].contains(x) || f.split_ids().contains(x)));
                    }
                    assert forall|x: SplitId| seq![s0].contains(x) implies !f2.split_ids().contains(x) by {}
                }
                if n.leaf_ids().no_duplicates() {
                    assert forall|x: PaneId| f2.leaf_ids().contains(x) implies !s2.leaf_ids().contains(x) by {
                        assert(f2.has_leaf(x) ==> f.has_leaf(x));
                        assert(s2.has_leaf(x) ==> s.has_leaf(x));
                    }
                    if n.has_leaf(t) {
                        assert forall|x: PaneId| #![trigger n.has_leaf(x)] n.has_leaf(x) && x != t implies n.remove_spec(t).has_leaf(x) by {
                            lemma_has_leaf_unfold(n, x);
                            lemma_has_leaf_unfold(n.remove_spec(t), x);
                            assert(f.has_leaf(x) && x != t ==> f2.has_leaf(x));
                            assert(s.has_leaf(x) && x != t ==> s2.has_leaf(x));
                        }
                        lemma_has_leaf_unfold(n.remove_spec(t), t);
                    }
                }
            }
        },
    }
}

/// Detaching leaf `t` leaves a remainder that holds every other pane and
/// no new split.
pub proof fn lemma_extract_shape(n: NodeView, t: PaneId)
    ensures
        n.has_leaf(t) ==> (n.extract_spec(t).0 is None <==> n.is_leaf_with(t)),
        n.extract_spec(t).0 matches Some(r) ==> {
            &&& forall|x: PaneId| #![trigger r.has_leaf(x)] r.has_leaf(x) ==> n.has_leaf(x)
            &&& forall|x: SplitId|
                #![trigger r.split_ids().contains(x)]
                r.split_ids().contains(x) ==> n.split_ids().contains(x)
            &&& n.split_ids().no_duplicates() ==> r.split_ids().no_duplicates()
            &&& n.leaf_ids().no_duplicates() ==> r.leaf_ids().no_duplicates()
            &&& (n.has_leaf(t) && n.leaf_ids().no_duplicates()) ==> {
                &&& !r.has_leaf(t)
                &&& r.leaf_ids().len() + 1 == n.leaf_ids().len()
                &&& forall|x: PaneId| #![trigger n.has_leaf(x)] n.has_leaf(x) && x != t ==> r.has_leaf(x)
            }
        },
    decreases n,
{
    lemma_has_leaf_unfold(n, t);
    lemma_extract_absent(n, t);
    match n {
        NodeView::Leaf { .. } => {},
        NodeView::Split { split_id: s0, first, second, ratio, direction } => {
            let f = *first;
            let s = *second;
            lemma_extract_shape(f, t);
            lemma_extract_shape(s, t);
            lemma_extract_absent(f, t);
            lemma_extract_absent(s, t);
            lemma_has_leaf_unfold(f, t);
            lemma_has_leaf_unfold(s, t);
            lemma_nodup_concat(f.leaf_ids(), s.leaf_ids());
            lemma_nodup_concat(seq![s0] + f.split_ids(), s.split_ids());
            lemma_nodup_concat(seq![s0], f.split_ids());
            let (nf, ef) = f.extract_spec(t);
            if ef is Some {
                match nf {
                    Some(f2) => {
                        let r = NodeView::Split { split_id: s0, direction, first: Box::new(f2), second, ratio };
                        assert(n.extract_spec(t).0 == Some(r));
                        lemma_nodup_concat(f2.leaf_ids(), s.leaf_ids());
                        lemma_nodup_concat(seq![s0] + f2.split_ids(), s.split_ids());
                        lemma_nodup_concat(seq![s0], f2.split_ids());
                        assert forall|x: PaneId| #![trigger r.has_leaf(x)] r.has_leaf(x) implies n.has_leaf(x) by {
                            lemma_has_leaf_unfold(r, x);
                            lemma_has_leaf_unfold(n, x);
                            assert(f2.has_leaf(x) ==> f.has_leaf(x));
                        }
                        assert forall|x: SplitId| (seq![s0] + f2.split_ids()).contains(x) implies (seq![s0] + f.split_ids()).contains(x) by {
                            assert((seq![s0] + f2.split_ids()).contains(x) <==> (seq![s0].contains(x) || f2.split_ids().contains(x)));
                        }
                        if n.split_ids().no_duplicates() {
                            assert forall|x: SplitId| seq![s0].contains(x) implies !f2.split_ids().contains(x) by {}
                        }
                        if n.leaf_ids().no_duplicates() {
                            assert forall|x: PaneId| f2.leaf_ids().contains(x) implies !s.leaf_ids().contains(x) by {
                                assert(f2.has_leaf(x) ==> f.has_leaf(x));
                            }
                            assert forall|x: PaneId| #![trigger n.has_leaf(x)] n.has_leaf(x) && x != t implies r.has_leaf(x) by {
                                lemma_has_leaf_unfold(r, x);
                                lemma_has_leaf_unfold(n, x);
                                assert(f.has_leaf(x) && x != t ==> f2.has_leaf(x));
                            }
                            lemma_has_leaf_unfold(r, t);
                        }
                    },
                    None => {
                        assert(n.extract_spec(t).0 == Some(s));
                        assert forall|x: PaneId| #![trigger s.has_leaf(x)] s.has_leaf(x) implies n.has_leaf(x) by {
                            lemma_has_leaf_unfold(n, x);
                        }
                        assert forall|x: SplitId| s.split_ids().contains(x) implies n.split_ids().contains(x) by {}
                        if n.has_leaf(t) && n.leaf_ids().no_duplicates() {
                            assert forall|x: PaneId| #![trigger n.has_leaf(x)] n.has_leaf(x) && x != t implies s.has_leaf(x) by {
                                lemma_has_leaf_unfold(f, x);
                                lemma_has_leaf_unfold(n, x);
                            }
                            assert(f.leaf_ids().len() == 1);
                        }
                    },
                }
            } else {
                let (ns, es) = s.extract_spec(t);
                if es is Some {
                    match ns {
                        Some(s2) => {
                            let r = NodeView::Split { split_id: s0, direction, first, second: Box::new(s2), ratio };
                            assert(n.extract_spec(t).0 == Some(r));
                            lemma_nodup_concat(f.leaf_ids(), s2.leaf_ids());
                            lemma_nodup_concat(seq![s0] + f.split_ids(), s2.split_ids());
                            assert forall|x: PaneId| #![trigger r.has_leaf(x)] r.has_leaf(x) implies n.has_leaf(x) by {
                                lemma_has_leaf_unfold(r, x);
                                lemma_has_leaf_unfold(n, x);
                                assert(s2.has_leaf(x) ==> s.has_leaf(x));
                            }
                            if n.leaf_ids().no_duplicates() {
                                assert forall|x: PaneId| f.leaf_ids().contains(x) implies !s2.leaf_ids().contains(x) by {
                                    assert(s2.has_leaf(x) ==> s.has_leaf(x));
                                }
                                assert forall|x: PaneId| #![trigger n.has_leaf(x)] n.has_leaf(x) && x != t implies r.has_leaf(x) by {
                                    lemma_has_leaf_unfold(r, x);
                                    lemma_has_leaf_unfold(n, x);
                                    assert(s.has_leaf(x) && x != t ==> s2.has_leaf(x));
                                }
                                lemma_has_leaf_unfold(r, t);
                            }
                        },
                        None => {
                            assert(n.extract_spec(t).0 == Some(f));
                            assert forall|x: PaneId| #![trigger f.has_leaf(x)] f.has_leaf(x) implies n.has_leaf(x) by {
                                lemma_has_leaf_unfold(n, x);
                            }
                            assert forall|x: SplitId| f.split_ids().contains(x) implies n.split_ids().contains(x) by {
                                assert((seq![s0] + f.split_ids()).contains(x));
                            }
                            if n.has_leaf(t) && n.leaf_ids().no_duplicates() {
                                assert forall|x: PaneId| #![trigger n.has_leaf(x)] n.has_leaf(x) && x != t implies f.has_leaf(x) by {
                                    lemma_has_leaf_unfold(s, x);
                                    lemma_has_leaf_unfold(n, x);
                                }
                                assert(s.leaf_ids().len() == 1);
                            }
                        },
                    }
                } else {
                    assert(n.extract_spec(t).0 == Some(n));
                }
            }
        },
    }
}

/// Renumbering splits keeps the panes and numbers the splits
/// `next, next + 1, ...` in pre-order.
pub proof fn lemma_normalize_shape(n: NodeView, next: int)
    ensures
        n.normalize_spec(next).leaf_ids() == n.leaf_ids(),
        n.normalize_spec(next).split_count() == n.split_count(),
        next >= 0 && next + n.split_count() <= usize::MAX ==> n.normalize_spec(next).split_ids()
            == id_range(n.split_count(), next),
    decreases n,
{
    match n {
        NodeView::Leaf { .. } => {
            assert(n.split_ids() =~= id_range(0, next));
        },
        NodeView::Split { first, second, .. } => {
            lemma_normalize_shape(*first, next + 1);
            lemma_normalize_shape(*second, next + 1 + first.split_count());
            if next >= 0 && next + n.split_count() <= usize::MAX {
                assert(n.normalize_spec(next).split_ids() =~= Seq::new(
                    n.split_count(),
                    |i: int| (next + i) as usize,
                ));
            }
        },
    }
}

/// A run of consecutive numbers holds no duplicate.
pub proof fn lemma_range_nodup(len: nat, start: int)
    requires
        start >= 0,
        start + len <= usize::MAX,
    ensures
        id_range(len, start).no_duplicates(),
        forall|x: usize| #![trigger id_range(len, start).contains(x)]
            id_range(len, start).contains(x) <==> (start <= x < start + len),
{
    let r = id_range(len, start);
    assert forall|x: usize| #![trigger r.contains(x)] r.contains(x) <==> (start <= x < start + len) by {
        if start <= x < start + len {
            assert(r[x - start] == x);
        }
    }
}

/// Renumbering leaves numbers them `next, next + 1, ...` left to right,
/// keeps the splits, and finds the leaf that had the focus.
pub proof fn lemma_remap_shape(n: NodeView, next: int, focus: PaneId)
    requires
        next >= 0,
        next + n.leaf_ids().len() <= usize::MAX,
    ensures
        n.remap_spec(next, focus).0.leaf_ids() == id_range(n.leaf_ids().len(), next),
        n.remap_spec(next, focus).0.split_ids() == n.split_ids(),
        n.has_leaf(focus) <==> n.remap_spec(next, focus).1 != usize::MAX,
        n.has_leaf(focus) ==> n.remap_spec(next, focus).0.has_leaf(n.remap_spec(next, focus).1),
    decreases n,
{
    lemma_has_leaf_unfold(n, focus);
    match n {
        NodeView::Leaf { .. } => {
            assert(n.remap_spec(next, focus).0.leaf_ids() =~= id_range(1, next));
            lemma_has_leaf_unfold(n.remap_spec(next, focus).0, n.remap_spec(next, focus).1);
        },
        NodeView::Split { first, second, .. } => {
            let f = *first;
            let s = *second;
            lemma_remap_shape(f, next, focus);
            lemma_remap_shape(s, next + f.leaf_ids().len(), focus);
            assert(n.remap_spec(next, focus).0.leaf_ids() =~= id_range(n.leaf_ids().len(), next));
            let (f2, ff) = f.remap_spec(next, focus);
            let (s2, sf) = s.remap_spec(next + f.leaf_ids().len(), focus);
            lemma_has_leaf_unfold(n.remap_spec(next, focus).0, n.remap_spec(next, focus).1);
        },
    }
}

/// Surface and ratio updates leave panes and splits where they were.
pub proof fn lemma_content_updates_keep_shape(n: NodeView, pane: PaneId, surface: crate::pane_node::PaneSurface, sid: usize, title: Option<String>, split: SplitId, ratio: u32)
    ensures
        n.push_spec(pane, surface).leaf_ids() == n.leaf_ids(),
        n.push_spec(pane, surface).split_ids() == n.split_ids(),
        n.activate_spec(sid).0.leaf_ids() == n.leaf_ids(),
        n.activate_spec(sid).0.split_ids() == n.split_ids(),
        n.rename_spec(sid, title).0.leaf_ids() == n.leaf_ids(),
        n.rename_spec(sid, title).0.split_ids() == n.split_ids(),
        n.remove_surface_spec(sid).0.leaf_ids() == n.leaf_ids(),
        n.remove_surface_spec(sid).0.split_ids() == n.split_ids(),
        n.set_ratio_spec(split, ratio).0.leaf_ids() == n.leaf_ids(),
        n.set_ratio_spec(split, ratio).0.split_ids() == n.split_ids(),
    decreases n,
{
    match n {
        NodeView::Leaf { .. } => {},
        NodeView::Split { first, second, .. } => {
            lemma_content_updates_keep_shape(*first, pane, surface, sid, title, split, ratio);
            lemma_content_updates_keep_shape(*second, pane, surface, sid, title, split, ratio);
        },
    }
}


pub proof fn lemma_surface_ids_unfold(n: NodeView, x: usize)
    ensures
        n matches NodeView::Split { first, second, .. } ==> (n.surface_ids().contains(x) <==> (
        first.surface_ids().contains(x) || second.surface_ids().contains(x))),
{
}

/// Which surface ids the structural edits leave in the tree.
pub proof fn lemma_surface_ids_shape(
    n: NodeView,
    t: PaneId,
    new_leaf: NodeView,
    d: SplitDirection,
    p: SplitPlacement,
    sid: SplitId,
    x: usize,
)
    ensures
        n.split_spec(t, new_leaf, d, p, sid).surface_ids().contains(x) <==> (n.surface_ids().contains(x)
            || (n.has_leaf(t) && new_leaf.surface_ids().contains(x))),
        n.remove_spec(t).surface_ids().contains(x) ==> n.surface_ids().contains(x),
        n.extract_spec(t).0 matches Some(r) ==> (r.surface_ids().contains(x) ==> n.surface_ids().contains(x)),
        n.extract_spec(t).1 matches Some(l) ==> (l.surface_ids().contains(x) ==> n.surface_ids().contains(x)),
    decreases n,
{
    lemma_has_leaf_unfold(n, t);
    match n {
        NodeView::Leaf { .. } => {
            if n.has_leaf(t) {
                let r = n.split_spec(t, new_leaf, d, p, sid);
                lemma_surface_ids_unfold(r, x);
            }
        },
        NodeView::Split { first, second, .. } => {
            lemma_surface_ids_shape(*first, t, new_leaf, d, p, sid, x);
            lemma_surface_ids_shape(*second, t, new_leaf, d, p, sid, x);
            lemma_has_leaf_unfold(*first, t);
            lemma_has_leaf_unfold(*second, t);
            let r = n.remove_spec(t);
            lemma_surface_ids_unfold(r, x);
            let (nf, ef) = first.extract_spec(t);
            if let Some(f2) = nf {
                lemma_surface_ids_unfold(NodeView::Split { split_id: 0, direction: d, first: Box::new(f2), second, ratio: 0 }, x);
            }
            let (ns, es) = second.extract_spec(t);
            if let Some(s2) = ns {
                lemma_surface_ids_unfold(NodeView::Split { split_id: 0, direction: d, first, second: Box::new(s2), ratio: 0 }, x);
            }
        },
    }
}

pub proof fn lemma_surface_ids_renumbered(n: NodeView, k: int, f: PaneId)
    ensures
        n.normalize_spec(k).surface_ids() == n.surface_ids(),
        n.remap_spec(k, f).0.surface_ids() == n.surface_ids(),
    decreases n,
{
    match n {
        NodeView::Leaf { .. } => {},
        NodeView::Split { first, second, .. } => {
            lemma_surface_ids_renumbered(*first, k + 1, f);
            lemma_surface_ids_renumbered(*second, k + 1 + first.split_count(), f);
            lemma_surface_ids_renumbered(*first, k, f);
            lemma_surface_ids_renumbered(*second, k + first.leaf_ids().len(), f);
        },
    }
}

pub proof fn lemma_surface_ids_content_updates(
    n: NodeView,
    pane: PaneId,
    surface: crate::pane_node::PaneSurface,
    sid: usize,
    title: Option<String>,
    split: SplitId,
    ratio: u32,
    x: usize,
)
    ensures
        n.push_spec(pane, surface).surface_ids().contains(x) <==> (n.surface_ids().contains(x) || (
        n.active_surface_of(pane) is Some && x == surface.id)),
        n.activate_spec(sid).0.surface_ids() == n.surface_ids(),
        n.rename_spec(sid, title).0.surface_ids() == n.surface_ids(),
        n.remove_surface_spec(sid).0.surface_ids().contains(x) ==> n.surface_ids().contains(x),
        n.set_ratio_spec(split, ratio).0.surface_ids() == n.surface_ids(),
    decreases n,
{
    match n {
        NodeView::Leaf { id, content } => {
            match content {
                crate::pane_node::ContentView::Terminal { surfaces, active_surface_id } => {
                    let k = crate::pane_node::surface_index(surfaces, sid);
                    if k >= 0 {
                        crate::pane_node::lemma_surface_index_from_bounds(surfaces, sid, 0);
                        assert(n.rename_spec(sid, title).0.surface_ids() =~= n.surface_ids());
                    }
                    if id == pane {
                        assert(n.push_spec(pane, surface).surface_ids() =~= n.surface_ids().push(surface.id));
                    }
                    let r = n.remove_surface_spec(sid).0;
                    if r.surface_ids().contains(x) && surfaces.len() > 1 && k >= 0 {
                        crate::pane_node::lemma_surface_index_from_bounds(surfaces, sid, 0);
                        let j = choose|j: int| 0 <= j < r.surface_ids().len() && r.surface_ids()[j] == x;
                        if j < k {
                            assert(n.surface_ids()[j] == x);
                        } else {
                            assert(n.surface_ids()[j + 1] == x);
                        }
                    }
                },
                crate::pane_node::ContentView::Editor { .. } => {},
            }
        },
        NodeView::Split { first, second, .. } => {
            lemma_surface_ids_content_updates(*first, pane, surface, sid, title, split, ratio, x);
            lemma_surface_ids_content_updates(*second, pane, surface, sid, title, split, ratio, x);
            lemma_surface_ids_unfold(n.push_spec(pane, surface), x);
            lemma_surface_ids_unfold(n.remove_surface_spec(sid).0, x);
            lemma_surface_ids_unfold(n, x);
        },
    }
}


/// Distinct numbers below `n` number at most `n`.
pub proof fn lemma_distinct_below(s: Seq<usize>, n: int)
    requires
        n >= 0,
        s.no_duplicates(),
        forall|i: int| 0 <= i < s.len() ==> s[i] < n,
    ensures
        s.len() <= n,
{
    if n <= 0 {
        if s.len() > 0 {
            assert(s[0] < n);
        }
    } else {
        let t = s.map_values(|x: usize| x as int);
        assert forall|i: int, j: int| 0 <= i < t.len() && 0 <= j < t.len() && i != j implies t[i] != t[j] by {
            assert(s[i] != s[j]);
        }
        t.unique_seq_to_set();
        vstd::set_lib::lemma_int_range(0, n);
        assert forall|x: int| t.to_set().contains(x) implies vstd::set_lib::set_int_range(0, n).contains(x) by {
            let i = choose|i: int| 0 <= i < t.len() && t[i] == x;
        }
        vstd::set_lib::lemma_len_subset(t.to_set(), vstd::set_lib::set_int_range(0, n));
        assert(t.len() == s.len());
        assert(t.to_set().len() <= n);
    }
}

/// Detaching a leaf from under a split removes exactly one split.
pub proof fn lemma_extract_split_count(n: NodeView, t: PaneId)
    ensures
        n.extract_spec(t).0 matches Some(r) ==> (n.has_leaf(t) ==> r.split_count() + 1 == n.split_count()),
    decreases n,
{
    lemma_has_leaf_unfold(n, t);
    lemma_extract_absent(n, t);
    match n {
        NodeView::Leaf { .. } => {},
        NodeView::Split { first, second, .. } => {
            lemma_extract_split_count(*first, t);
            lemma_extract_split_count(*second, t);
            lemma_extract_absent(*first, t);
            lemma_extract_absent(*second, t);
            lemma_extract_shape(*first, t);
            lemma_extract_shape(*second, t);
            lemma_has_leaf_unfold(*first, t);
            lemma_has_leaf_unfold(*second, t);
            let (nf, ef) = first.extract_spec(t);
            if ef is Some {
                match nf {
                    Some(f2) => {
                        assert(first.has_leaf(t));
                        assert(f2.split_count() + 1 == first.split_count());
                    },
                    None => {
                        assert(first.is_leaf_with(t));
                        assert(first.split_count() == 0);
                    },
                }
            } else {
                let (ns, es) = second.extract_spec(t);
                if es is Some {
                    match ns {
                        Some(s2) => {
                            assert(second.has_leaf(t));
                            assert(s2.split_count() + 1 == second.split_count());
                        },
                        None => {
                            assert(second.is_leaf_with(t));
                            assert(second.split_count() == 0);
                        },
                    }
                }
            }
        },
    }
}

/// Splitting an existing leaf adds exactly one split (plus the new leaf's own).
pub proof fn lemma_split_split_count(n: NodeView, t: PaneId, new_leaf: NodeView, d: SplitDirection, p: SplitPlacement, sid: SplitId)
    ensures
        n.has_leaf(t) ==> n.split_spec(t, new_leaf, d, p, sid).split_count() == n.split_count() + 1 + new_leaf.split_count(),
    decreases n,
{
    lemma_has_leaf_unfold(n, t);
    match n {
        NodeView::Leaf { .. } => {},
        NodeView::Split { first, second, .. } => {
            lemma_split_split_count(*first, t, new_leaf, d, p, sid);
            lemma_split_split_count(*second, t, new_leaf, d, p, sid);
        },
    }
}

/// The leftmost leaf is a leaf of the tree.
pub proof fn lemma_first_leaf_in(n: NodeView)
    ensures
        n.has_leaf(n.first_leaf()),
    decreases n,
{
    lemma_has_leaf_unfold(n, n.first_leaf());
    match n {
        NodeView::Leaf { .. } => {},
        NodeView::Split { first, .. } => {
            lemma_first_leaf_in(*first);
        },
    }
}


/// Detaching leaf `t` keeps every other pane, ids unique or not.
pub proof fn lemma_extract_keeps_others(n: NodeView, t: PaneId, x: PaneId)
    ensures
        n.has_leaf(x) && x != t ==> (n.extract_spec(t).0 matches Some(r) && r.has_leaf(x)),
        n.extract_spec(t).0 matches Some(r) ==> (r.has_leaf(x) ==> n.has_leaf(x)),
    decreases n,
{
    lemma_has_leaf_unfold(n, x);
    lemma_has_leaf_unfold(n, t);
    lemma_extract_absent(n, t);
    match n {
        NodeView::Leaf { .. } => {},
        NodeView::Split { split_id, direction, first, second, ratio } => {
            lemma_extract_keeps_others(*first, t, x);
            lemma_extract_keeps_others(*second, t, x);
            lemma_extract_absent(*first, t);
            lemma_extract_absent(*second, t);
            let (nf, ef) = first.extract_spec(t);
            if ef is Some {
                match nf {
                    Some(f2) => {
                        let r = NodeView::Split { split_id, direction, first: Box::new(f2), second, ratio };
                        lemma_has_leaf_unfold(r, x);
                    },
                    None => {
                        lemma_has_leaf_unfold(*first, x);
                        lemma_has_leaf_unfold(*first, t);
                    },
                }
            } else {
                let (ns, es) = second.extract_spec(t);
                if es is Some {
                    match ns {
                        Some(s2) => {
                            let r = NodeView::Split { split_id, direction, first, second: Box::new(s2), ratio };
                            lemma_has_leaf_unfold(r, x);
                        },
                        None => {
                            lemma_has_leaf_unfold(*second, x);
                            lemma_has_leaf_unfold(*second, t);
                        },
                    }
                }
            }
        },
    }
}

/// Every pane id is at most the largest one, which is a pane of the tree.
pub proof fn lemma_max_leaf(n: NodeView, x: PaneId)
    ensures
        n.has_leaf(x) ==> x <= n.max_leaf(),
        n.has_leaf(n.max_leaf()),
    decreases n,
{
    lemma_has_leaf_unfold(n, x);
    lemma_has_leaf_unfold(n, n.max_leaf());
    match n {
        NodeView::Leaf { .. } => {},
        NodeView::Split { first, second, .. } => {
            lemma_max_leaf(*first, x);
            lemma_max_leaf(*second, x);
        },
    }
}

/// Every surface id is at most the largest one.
pub proof fn lemma_max_surface(n: NodeView, x: usize)
    ensures
        n.surface_ids().contains(x) ==> x <= n.max_surface(),
    decreases n,
{
    match n {
        NodeView::Leaf { content, .. } => {
            crate::pane_node::lemma_max_of_bound(content.surface_ids());
            if n.surface_ids().contains(x) {
                let k = choose|k: int| 0 <= k < n.surface_ids().len() && n.surface_ids()[k] == x;
            }
        },
        NodeView::Split { first, second, .. } => {
            lemma_max_surface(*first, x);
            lemma_max_surface(*second, x);
        },
    }
}

/// Removing pane `t` keeps every other pane.
pub proof fn lemma_remove_keeps_others(n: NodeView, t: PaneId, x: PaneId)
    requires
        n.has_leaf(x),
        x != t,
    ensures
        n.remove_spec(t).has_leaf(x),
    decreases n,
{
    lemma_has_leaf_unfold(n, x);
    match n {
        NodeView::Leaf { .. } => {},
        NodeView::Split { first, second, .. } => {
            lemma_has_leaf_unfold(*first, x);
            lemma_has_leaf_unfold(*second, x);
            if first.is_leaf_with(t) {
            } else if second.is_leaf_with(t) {
            } else {
                if first.has_leaf(x) {
                    lemma_remove_keeps_others(*first, t, x);
                } else {
                    lemma_remove_keeps_others(*second, t, x);
                }
                lemma_has_leaf_unfold(n.remove_spec(t), x);
            }
        },
    }
}

/// A pane id with a terminal is a pane of the tree.
pub proof fn lemma_terminal_of_has_leaf(n: NodeView, p: PaneId)
    requires
        n.terminal_of(p) is Some,
    ensures
        n.has_leaf(p),
    decreases n,
{
    lemma_has_leaf_unfold(n, p);
    match n {
        NodeView::Leaf { .. } => {},
        NodeView::Split { first, second, .. } => {
            if first.terminal_of(p) is Some {
                lemma_terminal_of_has_leaf(*first, p);
            } else {
                lemma_terminal_of_has_leaf(*second, p);
            }
        },
    }
}

/// Pane `x` shows a terminal that has window focus (one of `focused`).
pub open spec fn shows_focused_terminal(n: NodeView, x: PaneId, focused: Seq<TerminalId>) -> bool {
    n.terminal_of(x) matches Some(t) && focused.contains(t)
}

/// The pane that focus sync picks from the window's focused terminals
/// shows one of them, when pane ids are distinct.
pub proof fn lemma_focused_pane_shows_focused(n: NodeView, focused: Seq<TerminalId>)
    requires
        n.leaf_ids().no_duplicates(),
    ensures
        n.focused_pane_spec(focused) matches Some(p) ==> shows_focused_terminal(n, p, focused),
    decreases n,
{
    match n {
        NodeView::Leaf { .. } => {},
        NodeView::Split { first, second, .. } => {
            lemma_nodup_parts(n);
            lemma_focused_pane_shows_focused(*first, focused);
            lemma_focused_pane_shows_focused(*second, focused);
            match first.focused_pane_spec(focused) {
                Some(p) => {},
                None => match second.focused_pane_spec(focused) {
                    Some(p) => {
                        lemma_terminal_of_has_leaf(*second, p);
                        if first.terminal_of(p) is Some {
                            lemma_terminal_of_has_leaf(*first, p);
                            let i = choose|i: int| 0 <= i < first.leaf_ids().len() && first.leaf_ids()[i] == p;
                            let j = choose|j: int| 0 <= j < second.leaf_ids().len() && second.leaf_ids()[j] == p;
                            assert(n.leaf_ids()[i] == p);
                            assert(n.leaf_ids()[first.leaf_ids().len() + j] == p);
                        }
                    },
                    None => {},
                },
            }
        },
    }
}

/// When some pane shows a terminal that has window focus, focus sync finds
/// a pane.
pub proof fn lemma_focused_pane_found(n: NodeView, focused: Seq<TerminalId>, x: PaneId)
    requires
        shows_focused_terminal(n, x, focused),
    ensures
        n.focused_pane_spec(focused) is Some,
    decreases n,
{
    match n {
        NodeView::Leaf { .. } => {},
        NodeView::Split { first, second, .. } => {
            if first.terminal_of(x) is Some {
                lemma_focused_pane_found(*first, focused, x);
            } else {
                lemma_focused_pane_found(*second, focused, x);
            }
        },
    }
}

/// The two sides of a split with distinct pane ids have distinct pane ids.
pub proof fn lemma_nodup_parts(n: NodeView)
    requires
        n.leaf_ids().no_duplicates(),
        n is Split,
    ensures
        n->first.leaf_ids().no_duplicates(),
        n->second.leaf_ids().no_duplicates(),
{
    let a = n->first.leaf_ids();
    let b = n->second.leaf_ids();
    assert(n.leaf_ids() == a + b);
    assert forall|i: int, j: int| 0 <= i < a.len() && 0 <= j < a.len() && i != j implies a[i] != a[j] by {
        assert(n.leaf_ids()[i] == a[i] && n.leaf_ids()[j] == a[j]);
    }
    assert forall|i: int, j: int| 0 <= i < b.len() && 0 <= j < b.len() && i != j implies b[i] != b[j] by {
        assert(n.leaf_ids()[a.len() + i] == b[i] && n.leaf_ids()[a.len() + j] == b[j]);
    }
}

} // verus!
