//! The order in which branches are listed: the current branch first, local
//! branches before remote ones, the default branch before the others of
//! its kind, and otherwise by name.

use vstd::prelude::*;
use vstd::seq_lib::to_multiset_build;
use vstd::seq_lib::to_multiset_insert;
use crate::merge::BranchInfo;
use crate::merge::BranchView;
use crate::text::chars_less;
use crate::text::chars_of;
use crate::text::text_less;
use crate::text_order::lemma_text_less_asymmetric;
use crate::text_order::lemma_text_less_total;
use crate::text_order::lemma_text_less_transitive;

verus! {

/// The place of a branch by its marks alone; a lower rank is listed first.
pub open spec fn rank(branch: BranchView) -> nat {
    let by_head: nat = if branch.is_head {
        0
    } else {
        4
    };
    let by_remote: nat = if branch.is_remote {
        2
    } else {
        0
    };
    let by_default: nat = if branch.is_default {
        0
    } else {
        1
    };
    by_head + by_remote + by_default
}

/// `a` is listed before `b`: it has the lower rank, or the same rank and
/// the name that comes first.
pub open spec fn precedes(a: BranchView, b: BranchView) -> bool {
    rank(a) < rank(b) || (rank(a) == rank(b) && text_less(a.name, b.name))
}

/// No branch of the list stands before one that it has to follow.
pub open spec fn is_ordered(branches: Seq<BranchView>) -> bool {
    forall|i: int, j: int|
        0 <= i < j < branches.len() ==> !precedes(#[trigger] branches[j], #[trigger] branches[i])
}

/// The branches of a sequence, each as plain values.
pub open spec fn branch_views(branches: Seq<BranchInfo>) -> Seq<BranchView> {
    Seq::new(branches.len(), |i: int| branches[i]@)
}

/// Of two branches at most one is listed before the other.
pub proof fn lemma_precedes_asymmetric(a: BranchView, b: BranchView)
    requires
        precedes(a, b),
    ensures
        !precedes(b, a),
{
    if rank(a) == rank(b) {
        lemma_text_less_asymmetric(a.name, b.name);
    }
}

/// Where `a` need not follow `b` and `b` need not follow `c`, `a` need not
/// follow `c`.
pub proof fn lemma_follows_chain(a: BranchView, b: BranchView, c: BranchView)
    requires
        !precedes(b, a),
        !precedes(c, b),
    ensures
        !precedes(c, a),
{
    if rank(a) == rank(b) && rank(b) == rank(c) && text_less(c.name, a.name) {
        if a.name != b.name {
            lemma_text_less_total(a.name, b.name);
            lemma_text_less_transitive(c.name, a.name, b.name);
        }
    }
}

/// A branch put where the list first stops preceding it keeps the list in
/// order.
pub proof fn lemma_insert_keeps_order(branches: Seq<BranchView>, at: int, branch: BranchView)
    requires
        is_ordered(branches),
        0 <= at <= branches.len(),
        forall|k: int| 0 <= k < at ==> precedes(#[trigger] branches[k], branch),
        at < branches.len() ==> !precedes(branches[at], branch),
    ensures
        is_ordered(branches.insert(at, branch)),
{
    let after = branches.insert(at, branch);
    assert forall|i: int, j: int| 0 <= i < j < after.len() implies !precedes(
        #[trigger] after[j],
        #[trigger] after[i],
    ) by {
        if j == at {
            lemma_precedes_asymmetric(branches[i], branch);
        } else if i == at {
            assert(after[j] == branches[j - 1]);
            if j - 1 > at {
                assert(!precedes(branches[j - 1], branches[at]));
                lemma_follows_chain(branch, branches[at], branches[j - 1]);
            }
        } else {
            let from_i = if i < at {
                i
            } else {
                i - 1
            };
            let from_j = if j < at {
                j
            } else {
                j - 1
            };
            assert(after[i] == branches[from_i]);
            assert(after[j] == branches[from_j]);
        }
    }
}

/// Neither of the two branches has to follow the other.
pub open spec fn same_place(a: BranchView, b: BranchView) -> bool {
    !precedes(a, b) && !precedes(b, a)
}

/// The test for a branch to have the place of `like`.
pub open spec fn in_place_of(like: BranchView) -> spec_fn(BranchInfo) -> bool {
    |branch: BranchInfo| same_place(branch@, like)
}

/// Those of the branches that have the place of `like`, in their order.
pub open spec fn placed_like(branches: Seq<BranchInfo>, like: BranchView) -> Seq<BranchInfo> {
    branches.filter(in_place_of(like))
}

/// Branches that share their place with a third share it with each other.
pub proof fn lemma_same_place_chain(a: BranchView, b: BranchView, c: BranchView)
    requires
        same_place(a, b),
        same_place(b, c),
    ensures
        same_place(a, c),
{
    lemma_follows_chain(a, b, c);
    lemma_follows_chain(c, b, a);
}

/// A branch put in front of a list joins the front of those that share its
/// place, and of no others.
pub proof fn lemma_front_joins_its_place(branches: Seq<BranchInfo>, branch: BranchInfo, like: BranchView)
    ensures
        placed_like(seq![branch] + branches, like) == if same_place(branch@, like) {
            seq![branch] + placed_like(branches, like)
        } else {
            placed_like(branches, like)
        },
{
    let test = in_place_of(like);
    let none = Seq::<BranchInfo>::empty();
    Seq::filter_distributes_over_add(seq![branch], branches, test);
    none.lemma_filter_push(branch, test);
    assert(none.push(branch) =~= seq![branch]);
    assert(none.filter(test) =~= none) by {
        reveal(Seq::filter);
    }
    if same_place(branch@, like) {
        assert(none.push(branch) =~= seq![branch]);
    } else {
        assert(none + placed_like(branches, like) =~= placed_like(branches, like));
    }
}

/// A branch put into a list behind branches that all precede it joins the
/// front of those that share its place, and of no others.
pub proof fn lemma_insert_joins_its_place(
    branches: Seq<BranchInfo>,
    at: int,
    branch: BranchInfo,
    like: BranchView,
)
    requires
        0 <= at <= branches.len(),
        forall|k: int| 0 <= k < at ==> precedes((#[trigger] branches[k])@, branch@),
    ensures
        placed_like(branches.insert(at, branch), like) == if same_place(branch@, like) {
            seq![branch] + placed_like(branches, like)
        } else {
            placed_like(branches, like)
        },
{
    let test = in_place_of(like);
    let head = branches.take(at);
    let tail = branches.skip(at);
    assert(branches =~= head + tail);
    assert(branches.insert(at, branch) =~= head.push(branch) + tail);
    Seq::filter_distributes_over_add(head, tail, test);
    Seq::filter_distributes_over_add(head.push(branch), tail, test);
    head.lemma_filter_push(branch, test);
    if same_place(branch@, like) {
        assert(head.all(|other: BranchInfo| !test(other))) by {
            assert forall|k: int| 0 <= k < head.len() implies !test(#[trigger] head[k]) by {
                assert(head[k] == branches[k]);
                if same_place(head[k]@, like) {
                    lemma_same_place_chain(head[k]@, like, branch@);
                }
            }
        }
        head.lemma_all_neg_filter_empty(test);
        assert(head.filter(test) =~= Seq::<BranchInfo>::empty());
        assert(head.filter(test).push(branch) + tail.filter(test) =~= seq![branch] + (head.filter(
            test,
        ) + tail.filter(test)));
    }
}

/// Whether `a` is listed before `b`.
pub fn branch_precedes(a: &BranchInfo, b: &BranchInfo) -> (before: bool)
    ensures
        before == precedes(a@, b@),
{
    if a.is_head != b.is_head {
        return a.is_head;
    }
    if a.is_remote != b.is_remote {
        return b.is_remote;
    }
    if a.is_default != b.is_default {
        return a.is_default;
    }
    let name_a = chars_of(a.name.as_str());
    let name_b = chars_of(b.name.as_str());
    chars_less(name_a.as_slice(), name_b.as_slice())
}

/// Puts the branches in the order of the listing. Branches that need not
/// follow one another keep the order they came in.
pub fn sort_branches(branches: Vec<BranchInfo>) -> (sorted: Vec<BranchInfo>)
    ensures
        sorted@.to_multiset() == branches@.to_multiset(),
        is_ordered(branch_views(sorted@)),
        forall|like: BranchView| #[trigger]
            placed_like(sorted@, like) == placed_like(branches@, like),
{
    let mut rest = branches;
    let mut sorted: Vec<BranchInfo> = Vec::new();
    assert(sorted@.to_multiset() =~= vstd::multiset::Multiset::empty()) by {
        broadcast use vstd::seq_lib::to_multiset_len;

        assert(sorted@.to_multiset().len() == 0);
    }
    assert(branches@.skip(branches@.len() as int) =~= sorted@);
    assert(rest@ =~= branches@.take(rest@.len() as int));
    while rest.len() > 0
        invariant
            rest@.to_multiset().add(sorted@.to_multiset()) == branches@.to_multiset(),
            is_ordered(branch_views(sorted@)),
            rest@.len() <= branches@.len(),
            rest@ == branches@.take(rest@.len() as int),
            forall|like: BranchView| #[trigger]
                placed_like(sorted@, like) == placed_like(
                    branches@.skip(rest@.len() as int),
                    like,
                ),
        decreases rest@.len(),
    {
        let ghost rest_before = rest@;
        let ghost sorted_before = sorted@;
        let branch = rest.pop().unwrap();
        assert(rest_before =~= rest@.push(branch));
        let mut at: usize = 0;
        while at < sorted.len() && branch_precedes(&sorted[at], &branch)
            invariant
                at <= sorted@.len(),
                forall|k: int| 0 <= k < at ==> precedes((#[trigger] sorted@[k])@, branch@),
            decreases sorted@.len() - at,
        {
            at += 1;
        }
        sorted.insert(at, branch);
        proof {
            to_multiset_build(rest@, branch);
            to_multiset_insert(sorted_before, at as int, branch);
            assert(rest@.to_multiset().add(sorted@.to_multiset()) =~= rest_before.to_multiset().add(
                sorted_before.to_multiset(),
            ));
            let views = branch_views(sorted_before);
            assert forall|k: int| 0 <= k < at implies precedes(#[trigger] views[k], branch@) by {
                assert(views[k] == sorted_before[k]@);
            }
            lemma_insert_keeps_order(views, at as int, branch@);
            assert(branch_views(sorted@) =~= views.insert(at as int, branch@));
            assert(rest@ =~= branches@.take(rest@.len() as int));
            let done_before = branches@.skip(rest_before.len() as int);
            let done = branches@.skip(rest@.len() as int);
            assert(branch == branches@[rest@.len() as int]);
            assert(done =~= seq![branch] + done_before);
            assert forall|like: BranchView| #[trigger]
                placed_like(sorted@, like) == placed_like(done, like) by {
                lemma_insert_joins_its_place(sorted_before, at as int, branch, like);
                lemma_front_joins_its_place(done_before, branch, like);
                assert(placed_like(sorted_before, like) == placed_like(done_before, like));
            }
        }
    }
    assert(branches@.skip(0) =~= branches@);
    assert(rest@.to_multiset() =~= vstd::multiset::Multiset::empty()) by {
        broadcast use vstd::seq_lib::to_multiset_len;

        assert(rest@.to_multiset().len() == 0);
    }
    assert(rest@.to_multiset().add(sorted@.to_multiset()) =~= sorted@.to_multiset());
    sorted
}

} // verus!
