//! Demoting reported validators within a group's retry order.
//!
//! Group members are tried from the back of the list, so moving the
//! reported identities to the front makes them the last tried without
//! excluding them.

use vstd::prelude::*;

use crate::types::DiscoveryId;

verus! {

/// Test for membership in `within`.
pub open spec fn present_pred(within: Seq<DiscoveryId>) -> spec_fn(DiscoveryId) -> bool {
    |x: DiscoveryId| within.contains(x)
}

/// Test for absence from `excluded`.
pub open spec fn absent_pred(excluded: Seq<DiscoveryId>) -> spec_fn(DiscoveryId) -> bool {
    |x: DiscoveryId| !excluded.contains(x)
}

/// The group after a report: the reported identities that are members,
/// in the order reported, move to the front; the remaining members keep
/// their relative order. A reported identity that is not a member is
/// ignored.
pub open spec fn reorder_seq(g: Seq<DiscoveryId>, bad: Seq<DiscoveryId>) -> Seq<DiscoveryId> {
    bad.filter(present_pred(g)) + g.filter(absent_pred(bad))
}

/// Whether the group contains the identity.
fn contains_id(v: &Vec<DiscoveryId>, x: DiscoveryId) -> (b: bool)
    ensures
        b == v@.contains(x),
{
    let n = v.len();
    let mut i: usize = 0;
    while i < n
        invariant
            n == v@.len(),
            0 <= i <= n,
            forall|j: int| 0 <= j < i ==> v@[j] != x,
        decreases n - i,
    {
        if v[i] == x {
            assert(v@[i as int] == x);
            return true;
        }
        i = i + 1;
    }
    false
}

/// Rebuild a group so that the reported identities are tried last: the
/// reported ones that are members come first, in the order reported,
/// then the remaining members in their old relative order.
pub fn reorder_group(g: &Vec<DiscoveryId>, bad: &Vec<DiscoveryId>) -> (r: Vec<DiscoveryId>)
    ensures
        r@ == reorder_seq(g@, bad@),
{
    let mut out: Vec<DiscoveryId> = Vec::new();
    let nb = bad.len();
    let mut i: usize = 0;
    proof {
        reveal(Seq::filter);
    }
    while i < nb
        invariant
            nb == bad@.len(),
            0 <= i <= nb,
            out@ == bad@.subrange(0, i as int).filter(present_pred(g@)),
        decreases nb - i,
    {
        let x = bad[i];
        proof {
            reveal(Seq::filter);
            assert(bad@.subrange(0, i as int + 1).drop_last() =~= bad@.subrange(0, i as int));
            assert(bad@.subrange(0, i as int + 1).last() == bad@[i as int]);
        }
        if contains_id(g, x) {
            out.push(x);
        }
        i = i + 1;
    }
    proof {
        reveal(Seq::filter);
        assert(bad@.subrange(0, nb as int) =~= bad@);
    }
    let ng = g.len();
    let mut j: usize = 0;
    while j < ng
        invariant
            ng == g@.len(),
            0 <= j <= ng,
            out@ == bad@.filter(present_pred(g@)) + g@.subrange(0, j as int).filter(
                absent_pred(bad@),
            ),
        decreases ng - j,
    {
        let x = g[j];
        proof {
            reveal(Seq::filter);
            assert(g@.subrange(0, j as int + 1).drop_last() =~= g@.subrange(0, j as int));
            assert(g@.subrange(0, j as int + 1).last() == g@[j as int]);
        }
        if !contains_id(bad, x) {
            out.push(x);
        }
        j = j + 1;
    }
    proof {
        assert(g@.subrange(0, ng as int) =~= g@);
    }
    out
}

/// Everything `filter` keeps stands in the input and passes the test.
proof fn lemma_filter_subset(s: Seq<DiscoveryId>, pred: spec_fn(DiscoveryId) -> bool)
    ensures
        forall|x: DiscoveryId| #[trigger]
            s.filter(pred).contains(x) ==> s.contains(x) && pred(x),
    decreases s.len(),
{
    reveal(Seq::filter);
    if s.len() != 0 {
        let d = s.drop_last();
        lemma_filter_subset(d, pred);
        assert forall|x: DiscoveryId| #[trigger]
            s.filter(pred).contains(x) implies s.contains(x) && pred(x) by {
            let f = s.filter(pred);
            let df = d.filter(pred);
            let i = choose|i: int| 0 <= i < f.len() && f[i] == x;
            if pred(s.last()) {
                if i < df.len() {
                    assert(df[i] == x);
                    assert(df.contains(x));
                    let m = choose|m: int| 0 <= m < d.len() && d[m] == x;
                    assert(s[m] == x);
                } else {
                    assert(x == s.last());
                    assert(s[s.len() - 1] == x);
                }
            } else {
                assert(df[i] == x);
                assert(df.contains(x));
                let m = choose|m: int| 0 <= m < d.len() && d[m] == x;
                assert(s[m] == x);
            }
        }
    }
}

/// A filter whose test every element passes keeps the whole sequence.
proof fn lemma_filter_all_kept(s: Seq<DiscoveryId>, pred: spec_fn(DiscoveryId) -> bool)
    requires
        forall|i: int| 0 <= i < s.len() ==> pred(#[trigger] s[i]),
    ensures
        s.filter(pred) == s,
    decreases s.len(),
{
    reveal(Seq::filter);
    if s.len() == 0 {
        assert(s.filter(pred) =~= s);
    } else {
        let d = s.drop_last();
        lemma_filter_all_kept(d, pred);
        assert(pred(s[s.len() - 1]));
        assert(s.filter(pred) == d.filter(pred).push(s.last()));
        assert(d.push(s.last()) =~= s);
    }
}

/// A filter whose test every element fails keeps nothing.
proof fn lemma_filter_none_kept(s: Seq<DiscoveryId>, pred: spec_fn(DiscoveryId) -> bool)
    requires
        forall|i: int| 0 <= i < s.len() ==> !pred(#[trigger] s[i]),
    ensures
        s.filter(pred) == Seq::<DiscoveryId>::empty(),
    decreases s.len(),
{
    reveal(Seq::filter);
    if s.len() == 0 {
        assert(s.filter(pred) =~= Seq::<DiscoveryId>::empty());
    } else {
        let d = s.drop_last();
        lemma_filter_none_kept(d, pred);
        assert(!pred(s[s.len() - 1]));
    }
}

/// Two filters agreeing on every element of the input keep the same.
proof fn lemma_filter_agree(
    s: Seq<DiscoveryId>,
    p1: spec_fn(DiscoveryId) -> bool,
    p2: spec_fn(DiscoveryId) -> bool,
)
    requires
        forall|i: int| 0 <= i < s.len() ==> p1(#[trigger] s[i]) == p2(s[i]),
    ensures
        s.filter(p1) == s.filter(p2),
    decreases s.len(),
{
    reveal(Seq::filter);
    if s.len() == 0 {
        assert(s.filter(p1) =~= s.filter(p2));
    } else {
        let d = s.drop_last();
        lemma_filter_agree(d, p1, p2);
        assert(p1(s[s.len() - 1]) == p2(s[s.len() - 1]));
    }
}

/// A report never edits membership: the group holds an identity after a
/// reorder exactly when it held it before.
pub proof fn lemma_reorder_same_members(g: Seq<DiscoveryId>, bad: Seq<DiscoveryId>)
    ensures
        forall|x: DiscoveryId| #[trigger] reorder_seq(g, bad).contains(x) <==> g.contains(x),
{
    let bp = bad.filter(present_pred(g));
    let gf = g.filter(absent_pred(bad));
    lemma_filter_subset(bad, present_pred(g));
    lemma_filter_subset(g, absent_pred(bad));
    assert forall|x: DiscoveryId| #[trigger] reorder_seq(g, bad).contains(x) implies g.contains(
        x,
    ) by {
        let i = choose|i: int| 0 <= i < (bp + gf).len() && (bp + gf)[i] == x;
        if i < bp.len() {
            assert(bp[i] == x);
            assert(bp.contains(x));
        } else {
            assert(gf[i - bp.len()] == x);
            assert(gf.contains(x));
        }
    }
    assert forall|x: DiscoveryId| g.contains(x) implies #[trigger] reorder_seq(g, bad).contains(
        x,
    ) by {
        if bad.contains(x) {
            let i = choose|i: int| 0 <= i < bad.len() && bad[i] == x;
            bad.lemma_filter_contains(present_pred(g), i);
            let m = choose|m: int| 0 <= m < bp.len() && bp[m] == x;
            assert((bp + gf)[m] == x);
        } else {
            let i = choose|i: int| 0 <= i < g.len() && g[i] == x;
            g.lemma_filter_contains(absent_pred(bad), i);
            let m = choose|m: int| 0 <= m < gf.len() && gf[m] == x;
            assert((bp + gf)[bp.len() + m] == x);
        }
    }
}

/// Repeating a report is safe: reordering twice by the same reported
/// identities leaves the group exactly as one reorder does.
pub proof fn lemma_reorder_idempotent(g: Seq<DiscoveryId>, bad: Seq<DiscoveryId>)
    ensures
        reorder_seq(reorder_seq(g, bad), bad) == reorder_seq(g, bad),
{
    let bp = bad.filter(present_pred(g));
    let gf = g.filter(absent_pred(bad));
    let g1 = bp + gf;
    lemma_filter_subset(bad, present_pred(g));
    Seq::<DiscoveryId>::filter_distributes_over_add(bp, gf, absent_pred(bad));
    assert forall|i: int| 0 <= i < bp.len() implies !(absent_pred(bad)(#[trigger] bp[i])) by {
        assert(bp.contains(bp[i]));
    }
    lemma_filter_none_kept(bp, absent_pred(bad));
    assert forall|i: int| 0 <= i < gf.len() implies absent_pred(bad)(#[trigger] gf[i]) by {
        g.lemma_filter_pred(absent_pred(bad), i);
    }
    lemma_filter_all_kept(gf, absent_pred(bad));
    assert(g1.filter(absent_pred(bad)) =~= gf);
    lemma_reorder_same_members(g, bad);
    assert forall|i: int|
        0 <= i < bad.len() implies present_pred(g1)(#[trigger] bad[i]) == present_pred(g)(
        bad[i],
    ) by {
        assert(reorder_seq(g, bad).contains(bad[i]) <==> g.contains(bad[i]));
    }
    lemma_filter_agree(bad, present_pred(g1), present_pred(g));
    assert(reorder_seq(g1, bad) == bp + gf);
}

} // verus!

