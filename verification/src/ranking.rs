//! Ranking of inverse-kinematics candidates: drop every candidate the solver
//! flagged as singular, then, when a desired axis configuration is given,
//! place the candidates whose posture bits cfx match it before all others,
//! preserving the solver's enumeration order inside each group. Only the
//! fourth field of the configuration is compared, by explicit current policy.

use vstd::prelude::*;
use crate::JointVector;
use crate::classify::cfx_spec;
use crate::classify::cfx_value;

verus! {

/// The candidates that survive the singularity filter: `c[i]` is kept
/// exactly when `f[i]` is false, in the original order.
pub open spec fn keep_unflagged(c: Seq<JointVector>, f: Seq<bool>) -> Seq<JointVector>
    recommends
        c.len() == f.len(),
    decreases c.len(),
{
    if c.len() == 0 {
        Seq::empty()
    } else {
        let rest = keep_unflagged(c.drop_last(), f.drop_last());
        if f[c.len() - 1] {
            rest
        } else {
            rest.push(c.last())
        }
    }
}

/// Holds of a joint vector whose posture bits equal `cfx`.
pub open spec fn is_match(cfx: int) -> spec_fn(JointVector) -> bool {
    |j: JointVector| cfx_spec(j@) == cfx
}

/// Holds of a joint vector whose posture bits differ from `cfx`.
pub open spec fn is_mismatch(cfx: int) -> spec_fn(JointVector) -> bool {
    |j: JointVector| cfx_spec(j@) != cfx
}

/// The subsequence of `s` whose posture bits equal `cfx`, in order.
pub open spec fn matching(s: Seq<JointVector>, cfx: int) -> Seq<JointVector> {
    s.filter(is_match(cfx))
}

/// The subsequence of `s` whose posture bits differ from `cfx`, in order.
pub open spec fn non_matching(s: Seq<JointVector>, cfx: int) -> Seq<JointVector> {
    s.filter(is_mismatch(cfx))
}

/// All cfx-matching candidates first, then all others, each group in the
/// original order.
pub open spec fn ranked(s: Seq<JointVector>, cfx: int) -> Seq<JointVector> {
    matching(s, cfx) + non_matching(s, cfx)
}

/// What ranking returns: the unflagged candidates, reordered by cfx match
/// when a desired configuration is given.
pub open spec fn rank_result(
    c: Seq<JointVector>,
    f: Seq<bool>,
    desired: Option<[i32; 4]>,
) -> Seq<JointVector> {
    let survivors = keep_unflagged(c, f);
    match desired {
        Option::Some(cfg) => ranked(survivors, cfg[3] as int),
        Option::None => survivors,
    }
}

/// Drop the flagged candidates, then rank the remainder by cfx match
/// against the desired configuration, if one is given.
pub fn filter_and_rank(
    candidates: &Vec<JointVector>,
    flags: &Vec<bool>,
    desired: Option<[i32; 4]>,
) -> (r: Vec<JointVector>)
    requires
        candidates@.len() == flags@.len(),
    ensures
        r@ == rank_result(candidates@, flags@, desired),
{
    let n = candidates.len();
    let mut survivors: Vec<JointVector> = Vec::new();
    for i in 0..n
        invariant
            n == candidates@.len(),
            flags@.len() == n,
            survivors@ == keep_unflagged(candidates@.take(i as int), flags@.take(i as int)),
    {
        proof {
            assert(candidates@.take(i + 1).drop_last() =~= candidates@.take(i as int));
            assert(flags@.take(i + 1).drop_last() =~= flags@.take(i as int));
        }
        if !flags[i] {
            survivors.push(candidates[i]);
        }
    }
    proof {
        assert(candidates@.take(n as int) =~= candidates@);
        assert(flags@.take(n as int) =~= flags@);
    }
    match desired {
        None => survivors,
        Some(cfg) => {
            let target: i32 = cfg[3];
            let m = survivors.len();
            let mut matched: Vec<JointVector> = Vec::new();
            let mut others: Vec<JointVector> = Vec::new();
            for i in 0..m
                invariant
                    m == survivors@.len(),
                    matched@ == matching(survivors@.take(i as int), target as int),
                    others@ == non_matching(survivors@.take(i as int), target as int),
            {
                proof {
                    assert(survivors@.take(i + 1) =~= survivors@.take(i as int).push(
                        survivors@[i as int],
                    ));
                    broadcast use vstd::prelude::Seq::lemma_filter_push;

                }
                let cfx = cfx_value(&survivors[i]);
                if cfx == target {
                    matched.push(survivors[i]);
                } else {
                    others.push(survivors[i]);
                }
            }
            proof {
                assert(survivors@.take(m as int) =~= survivors@);
            }
            matched.append(&mut others);
            matched
        },
    }
}

/// Every survivor of the singularity filter comes from an unflagged
/// input candidate.
proof fn lemma_keep_unflagged_from_unflagged(c: Seq<JointVector>, f: Seq<bool>, k: int)
    requires
        c.len() == f.len(),
        0 <= k < keep_unflagged(c, f).len(),
    ensures
        exists|i: int|
            0 <= i < c.len() && !f[i] && c[i] == keep_unflagged(c, f)[k],
    decreases c.len(),
{
    let kept = keep_unflagged(c, f);
    let rest = keep_unflagged(c.drop_last(), f.drop_last());
    if f[c.len() - 1] {
        lemma_keep_unflagged_from_unflagged(c.drop_last(), f.drop_last(), k);
        let i = choose|i: int|
            0 <= i < c.drop_last().len() && !f.drop_last()[i] && c.drop_last()[i] == rest[k];
        assert(0 <= i < c.len() && !f[i] && c[i] == kept[k]);
    } else {
        if k < rest.len() {
            lemma_keep_unflagged_from_unflagged(c.drop_last(), f.drop_last(), k);
            let i = choose|i: int|
                0 <= i < c.drop_last().len() && !f.drop_last()[i] && c.drop_last()[i] == rest[k];
            assert(0 <= i < c.len() && !f[i] && c[i] == kept[k]);
        } else {
            assert(kept[k] == c[c.len() - 1]);
            assert(!f[c.len() - 1]);
        }
    }
}

/// The matching and non-matching groups together have exactly the
/// candidates of `s`.
proof fn lemma_partition_len(s: Seq<JointVector>, cfx: int)
    ensures
        matching(s, cfx).len() + non_matching(s, cfx).len() == s.len(),
    decreases s.len(),
{
    broadcast use vstd::prelude::Seq::lemma_filter_len_push;
    broadcast use vstd::seq_lib::group_filter_ensures;

    if s.len() == 0 {
        assert(matching(s, cfx).len() <= 0);
        assert(non_matching(s, cfx).len() <= 0);
    } else {
        lemma_partition_len(s.drop_last(), cfx);
        assert(s =~= s.drop_last().push(s.last()));
    }
}

/// The ranker never returns a solver-flagged singular candidate: every
/// joint vector of the ranked output, whether or not a desired
/// configuration was given, is one of the input candidates at an index
/// whose singularity flag is false. This holds for any candidate list,
/// any flag assignment and any desired configuration.
pub proof fn lemma_never_returns_flagged(
    c: Seq<JointVector>,
    f: Seq<bool>,
    desired: Option<[i32; 4]>,
    k: int,
)
    requires
        c.len() == f.len(),
        0 <= k < rank_result(c, f, desired).len(),
    ensures
        exists|i: int|
            0 <= i < c.len() && !f[i] && c[i] == rank_result(c, f, desired)[k],
{
    let survivors = keep_unflagged(c, f);
    match desired {
        Option::None => {
            lemma_keep_unflagged_from_unflagged(c, f, k);
        },
        Option::Some(cfg) => {
            let cfx = cfg[3] as int;
            let out = ranked(survivors, cfx);
            let x = out[k];
            if k < matching(survivors, cfx).len() {
                assert(x == matching(survivors, cfx)[k]);
                assert(matching(survivors, cfx).contains(x));
                survivors.lemma_filter_contains_rev(is_match(cfx), x);
            } else {
                let k2 = k - matching(survivors, cfx).len();
                assert(x == non_matching(survivors, cfx)[k2]);
                assert(non_matching(survivors, cfx).contains(x));
                survivors.lemma_filter_contains_rev(is_mismatch(cfx), x);
            }
            assert(survivors.contains(x));
            let j = choose|j: int| 0 <= j < survivors.len() && survivors[j] == x;
            lemma_keep_unflagged_from_unflagged(c, f, j);
        },
    }
}

/// Given a target posture code, the ranked output is exactly the
/// cfx-matching survivors followed by the non-matching survivors, with the
/// input order preserved inside each group (the two groups are the
/// order-preserving filters of the input); so every matching solution
/// precedes every non-matching one, and nothing is added or lost.
pub proof fn lemma_ranking_stable_partition(s: Seq<JointVector>, cfx: int)
    ensures
        ranked(s, cfx) == matching(s, cfx) + non_matching(s, cfx),
        ranked(s, cfx).len() == s.len(),
        forall|k: int|
            0 <= k < matching(s, cfx).len() ==> cfx_spec(
                (#[trigger] ranked(s, cfx)[k])@,
            ) == cfx,
        forall|k: int|
            matching(s, cfx).len() <= k < s.len() ==> cfx_spec(
                (#[trigger] ranked(s, cfx)[k])@,
            ) != cfx,
{
    broadcast use vstd::seq_lib::group_filter_ensures;

    lemma_partition_len(s, cfx);
    assert forall|k: int| 0 <= k < matching(s, cfx).len() implies cfx_spec(
        (#[trigger] ranked(s, cfx)[k])@,
    ) == cfx by {
        assert(ranked(s, cfx)[k] == matching(s, cfx)[k]);
        assert(is_match(cfx)(matching(s, cfx)[k]));
    }
    assert forall|k: int| matching(s, cfx).len() <= k < s.len() implies cfx_spec(
        (#[trigger] ranked(s, cfx)[k])@,
    ) != cfx by {
        let k2 = k - matching(s, cfx).len();
        assert(ranked(s, cfx)[k] == non_matching(s, cfx)[k2]);
        assert(is_mismatch(cfx)(non_matching(s, cfx)[k2]));
    }
}

} // verus!
