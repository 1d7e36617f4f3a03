//! The order of texts: it goes one way only, it carries on, and it decides
//! between any two different texts.

use vstd::prelude::*;
use crate::text::less_from;
use crate::text::text_less;

verus! {

/// Two texts agree before position `i`.
pub open spec fn agree_before(a: Seq<char>, b: Seq<char>, i: int) -> bool {
    i <= a.len() && i <= b.len() && forall|j: int| 0 <= j < i ==> a[j] == b[j]
}

proof fn lemma_less_from_one_way(a: Seq<char>, b: Seq<char>, i: int)
    requires
        0 <= i,
        less_from(a, b, i),
    ensures
        !less_from(b, a, i),
    decreases a.len() - i,
{
    if i < a.len() && i < b.len() && a[i] == b[i] {
        lemma_less_from_one_way(a, b, i + 1);
    }
}

proof fn lemma_less_from_chains(a: Seq<char>, b: Seq<char>, c: Seq<char>, i: int)
    requires
        0 <= i,
        less_from(a, b, i),
        less_from(b, c, i),
    ensures
        less_from(a, c, i),
    decreases a.len() - i,
{
    if i < a.len() && a[i] == b[i] && b[i] == c[i] {
        lemma_less_from_chains(a, b, c, i + 1);
    }
}

proof fn lemma_less_from_decides(a: Seq<char>, b: Seq<char>, i: int)
    requires
        0 <= i,
        agree_before(a, b, i),
        a != b,
    ensures
        less_from(a, b, i) || less_from(b, a, i),
    decreases a.len() - i,
{
    if i >= a.len() && i >= b.len() {
        assert(a =~= b);
    } else if i < a.len() && i < b.len() {
        if a[i] == b[i] {
            lemma_less_from_decides(a, b, i + 1);
        } else {
            assert(a[i] as int != b[i] as int);
        }
    }
}

/// Of two texts at most one comes before the other.
pub proof fn lemma_text_less_asymmetric(a: Seq<char>, b: Seq<char>)
    requires
        text_less(a, b),
    ensures
        !text_less(b, a),
{
    lemma_less_from_one_way(a, b, 0);
}

/// What comes before a text comes before everything after it.
pub proof fn lemma_text_less_transitive(a: Seq<char>, b: Seq<char>, c: Seq<char>)
    requires
        text_less(a, b),
        text_less(b, c),
    ensures
        text_less(a, c),
{
    lemma_less_from_chains(a, b, c, 0);
}

/// Of two different texts one comes before the other.
pub proof fn lemma_text_less_total(a: Seq<char>, b: Seq<char>)
    requires
        a != b,
    ensures
        text_less(a, b) || text_less(b, a),
{
    lemma_less_from_decides(a, b, 0);
}

} // verus!
