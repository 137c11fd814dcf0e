//! The keep marks of the directories that are candidates for removal.
//!
//! A directory whose own timestamps make it purgeable becomes a candidate; it
//! is removed once its scan and the scans of all directories below it are
//! over, unless it was marked to be kept.  A directory is marked when one of
//! its entries is not purged, and a mark on a directory marks every candidate
//! above it as well: a directory that still holds something cannot be removed,
//! nor can any directory that contains it.

use vstd::prelude::*;

verus! {

/// The candidates, numbered in the order they were found: the parent
/// candidate of each (found before it) and whether it is marked to be kept.
pub struct KeepMarks {
    parents: Vec<Option<usize>>,
    kept: Vec<bool>,
}

/// The abstract state of the keep marks.
pub struct KeepMarksView {
    pub parents: Seq<Option<usize>>,
    pub kept: Seq<bool>,
}

impl View for KeepMarks {
    type V = KeepMarksView;

    closed spec fn view(&self) -> KeepMarksView {
        KeepMarksView { parents: self.parents@, kept: self.kept@ }
    }
}

/// Whether candidate `a` is candidate `i` or lies above it, following the
/// parents.
pub open spec fn is_at_or_above(parents: Seq<Option<usize>>, a: int, i: int) -> bool
    decreases i,
{
    a == i || (0 <= i < parents.len() && parents[i] is Some && (parents[i]->0 as int) < i
        && is_at_or_above(parents, a, parents[i]->0 as int))
}

/// Every parent was found before its child, and the marks are closed upwards:
/// the parent of a kept candidate is kept.
pub open spec fn marks_well_formed(v: KeepMarksView) -> bool {
    &&& v.parents.len() == v.kept.len()
    &&& forall|i: int| 0 <= i < v.parents.len() && (#[trigger] v.parents[i]) is Some ==> v.parents[i]->0 < i
    &&& forall|i: int|
        0 <= i < v.parents.len() && #[trigger] v.kept[i] && v.parents[i] is Some ==> v.kept[v.parents[i]->0 as int]
}

proof fn lemma_above_is_not_greater(parents: Seq<Option<usize>>, a: int, i: int)
    requires
        is_at_or_above(parents, a, i),
    ensures
        a <= i,
    decreases i,
{
    if a != i {
        lemma_above_is_not_greater(parents, a, parents[i]->0 as int);
    }
}

proof fn lemma_above_is_transitive(parents: Seq<Option<usize>>, a: int, b: int, i: int)
    requires
        is_at_or_above(parents, a, b),
        is_at_or_above(parents, b, i),
    ensures
        is_at_or_above(parents, a, i),
    decreases i,
{
    if b != i {
        lemma_above_is_transitive(parents, a, b, parents[i]->0 as int);
    }
}

/// The candidates above `i` form a chain: of two of them, the lower-numbered
/// lies above the other.
proof fn lemma_above_is_a_chain(parents: Seq<Option<usize>>, a: int, c: int, i: int)
    requires
        is_at_or_above(parents, a, i),
        is_at_or_above(parents, c, i),
        a <= c,
    ensures
        is_at_or_above(parents, a, c),
    decreases i,
{
    if c != i {
        lemma_above_is_not_greater(parents, c, parents[i]->0 as int);
        lemma_above_is_a_chain(parents, a, c, parents[i]->0 as int);
    }
}

/// A kept candidate keeps every candidate above it.
proof fn lemma_kept_below_keeps_above(v: KeepMarksView, a: int, i: int)
    requires
        marks_well_formed(v),
        0 <= i < v.kept.len(),
        v.kept[i],
        is_at_or_above(v.parents, a, i),
    ensures
        v.kept[a],
    decreases i,
{
    if a != i {
        let p = v.parents[i]->0 as int;
        assert(v.kept[p]);
        lemma_kept_below_keeps_above(v, a, p);
    }
}

/// A candidate that is not kept, and so is removed, has no kept candidate
/// below it: every directory below a removed one was removed too.
pub proof fn lemma_removed_has_nothing_kept_below(v: KeepMarksView, a: int, d: int)
    requires
        marks_well_formed(v),
        0 <= d < v.kept.len(),
        is_at_or_above(v.parents, a, d),
        !v.kept[a],
    ensures
        !v.kept[d],
{
    if v.kept[d] {
        lemma_kept_below_keeps_above(v, a, d);
    }
}

impl KeepMarks {
    /// Every value of the type is well formed.
    #[verifier::type_invariant]
    spec fn well_formed(self) -> bool {
        marks_well_formed(self@)
    }

    /// No candidates yet.
    pub fn new() -> (marks: Self)
        ensures
            marks@.parents.len() == 0,
            marks@.kept.len() == 0,
            marks_well_formed(marks@),
    {
        KeepMarks { parents: Vec::new(), kept: Vec::new() }
    }

    /// The number of candidates found so far.
    pub fn len(&self) -> (n: usize)
        ensures
            n == self@.parents.len(),
    {
        self.parents.len()
    }

    /// Records a new candidate, not marked, below candidate `parent` if any;
    /// returns its number.
    pub fn add(&mut self, parent: Option<usize>) -> (id: usize)
        requires
            parent is Some ==> parent->0 < old(self)@.parents.len(),
        ensures
            id == old(self)@.parents.len(),
            final(self)@.parents == old(self)@.parents.push(parent),
            final(self)@.kept == old(self)@.kept.push(false),
            marks_well_formed(final(self)@),
    {
        let mut taken = KeepMarks::new();
        std::mem::swap(self, &mut taken);
        proof {
            use_type_invariant(&taken);
        }
        let ghost old_v = taken@;
        let KeepMarks { mut parents, mut kept } = taken;
        let id = parents.len();
        parents.push(parent);
        kept.push(false);
        proof {
            let v = KeepMarksView { parents: parents@, kept: kept@ };
            assert forall|i: int|
                0 <= i < v.parents.len() && #[trigger] v.kept[i] && v.parents[i] is Some implies v.kept[v.parents[i]->0 as int] by {
                assert(i < id);
                assert(v.parents[i] == old_v.parents[i]);
                assert(v.kept[i] == old_v.kept[i]);
                assert(v.kept[v.parents[i]->0 as int] == old_v.kept[v.parents[i]->0 as int]);
            }
        }
        *self = KeepMarks { parents, kept };
        id
    }

    /// Whether candidate `id` is marked to be kept.
    pub fn is_kept(&self, id: usize) -> (kept: bool)
        requires
            id < self@.parents.len(),
        ensures
            kept == self@.kept[id as int],
    {
        proof {
            use_type_invariant(self);
        }
        self.kept[id]
    }

    /// Marks candidate `id` and every candidate above it to be kept; nothing
    /// else changes.
    pub fn mark(&mut self, id: usize)
        requires
            id < old(self)@.parents.len(),
        ensures
            final(self)@.parents == old(self)@.parents,
            final(self)@.kept.len() == old(self)@.kept.len(),
            forall|j: int|
                0 <= j < old(self)@.kept.len() ==> #[trigger] final(self)@.kept[j] == (old(self)@.kept[j]
                    || is_at_or_above(old(self)@.parents, j, id as int)),
            marks_well_formed(final(self)@),
    {
        let mut taken = KeepMarks::new();
        std::mem::swap(self, &mut taken);
        proof {
            use_type_invariant(&taken);
        }
        let ghost old_v = taken@;
        let ghost parents = taken@.parents;
        let ghost n = taken@.parents.len();
        let KeepMarks { parents: parent_links, mut kept } = taken;
        let mut current: Option<usize> = Some(id);
        proof {
            assert forall|j: int| 0 <= j < n && is_at_or_above(parents, j, id as int) implies j <= id by {
                lemma_above_is_not_greater(parents, j, id as int);
            }
        }
        while current.is_some()
            invariant
                parent_links@ == parents,
                kept@.len() == n,
                parents.len() == n,
                marks_well_formed(old_v),
                old_v.parents == parents,
                id < n,
                current is Some ==> current->0 < n && is_at_or_above(parents, current->0 as int, id as int),
                current is Some ==> forall|j: int|
                    0 <= j < n ==> #[trigger] kept@[j] == (old_v.kept[j] || (is_at_or_above(
                        parents,
                        j,
                        id as int,
                    ) && j > current->0)),
                current is None ==> forall|j: int|
                    0 <= j < n ==> #[trigger] kept@[j] == (old_v.kept[j] || is_at_or_above(
                        parents,
                        j,
                        id as int,
                    )),
            decreases
                match current {
                    Some(c) => c + 1,
                    None => 0,
                },
        {
            let c = match current {
                Some(c) => c,
                None => 0,
            };
            if kept[c] {
                proof {
                    assert forall|j: int| 0 <= j < n implies #[trigger] kept@[j] == (old_v.kept[j]
                        || is_at_or_above(parents, j, id as int)) by {
                        if is_at_or_above(parents, j, id as int) && j <= c {
                            lemma_above_is_a_chain(parents, j, c as int, id as int);
                            if !old_v.kept[c as int] {
                                assert(kept@[c as int] == (old_v.kept[c as int] || (is_at_or_above(
                                    parents,
                                    c as int,
                                    id as int,
                                ) && c > c)));
                            }
                            lemma_kept_below_keeps_above(old_v, j, c as int);
                        }
                    }
                }
                current = None;
            } else {
                kept.set(c, true);
                let next = parent_links[c];
                proof {
                    match next {
                        Some(p) => {
                            assert(p < c);
                            assert(is_at_or_above(parents, p as int, p as int));
                            assert(is_at_or_above(parents, p as int, c as int));
                            lemma_above_is_transitive(parents, p as int, c as int, id as int);
                            assert forall|j: int| 0 <= j < n implies #[trigger] kept@[j] == (
                            old_v.kept[j] || (is_at_or_above(parents, j, id as int) && j > p)) by {
                                if is_at_or_above(parents, j, id as int) && p < j < c {
                                    lemma_above_is_a_chain(parents, j, c as int, id as int);
                                    lemma_above_is_not_greater(parents, j, p as int);
                                }
                            }
                        },
                        None => {
                            assert forall|j: int| 0 <= j < n implies #[trigger] kept@[j] == (
                            old_v.kept[j] || is_at_or_above(parents, j, id as int)) by {
                                if is_at_or_above(parents, j, id as int) && j < c {
                                    lemma_above_is_a_chain(parents, j, c as int, id as int);
                                }
                            }
                        },
                    }
                }
                current = next;
            }
        }
        proof {
            let v = KeepMarksView { parents: parent_links@, kept: kept@ };
            assert forall|i: int|
                0 <= i < v.parents.len() && #[trigger] v.kept[i] && v.parents[i] is Some implies v.kept[v.parents[i]->0 as int] by {
                let p = v.parents[i]->0 as int;
                assert(v.kept[p] == (old_v.kept[p] || is_at_or_above(parents, p, id as int)));
                if !old_v.kept[i] {
                    assert(is_at_or_above(parents, i, id as int));
                    assert(is_at_or_above(parents, p, p));
                    assert(is_at_or_above(parents, p, i));
                    lemma_above_is_transitive(parents, p, i, id as int);
                }
            }
        }
        *self = KeepMarks { parents: parent_links, kept };
    }
}

} // verus!
