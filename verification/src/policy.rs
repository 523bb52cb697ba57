//! Compaction policies for collections maintained by the controller.
//!
//! A read policy is a pure function from a collection's write frontier to
//! its allowed read (compaction) frontier. It is re-evaluated on demand
//! against the current write frontier and never cached.

use vstd::prelude::*;

use crate::frontier::{frontier_insert, frontier_le, Frontier};

verus! {

broadcast use vstd::seq::group_seq_axioms, vstd::std_specs::vec::group_vec_axioms;

/// Compaction policies for collections maintained by the controller.
#[derive(Debug)]
pub enum ReadPolicy {
    /// Maintain the collection as valid from this frontier onward,
    /// unconditionally: it lets an external pilot steer compaction by hand.
    ValidFrom(Frontier),
    /// Maintain the collection as valid from a lagged, rounded copy of the
    /// write frontier. The lag must be positive; the result is rounded down
    /// to a multiple of the lag to cut the churn of compaction changes.
    LagWriteFrontier(u64),
    /// Combines several read policies, taking the least of the resulting
    /// frontiers: the combination satisfies every constituent's retention
    /// requirement at once.
    Multiple(Vec<ReadPolicy>),
}

/// The lag rule on one time: subtract the lag saturating at the minimum
/// time, then round down to a multiple of the lag.
pub open spec fn lag_round(u: int, lag: int) -> int
    recommends
        lag >= 1,
        u >= 0,
{
    let lagged = if u - lag >= 0 {
        u - lag
    } else {
        0
    };
    lagged - (lagged % lag)
}

/// The model of one policy's result on a write frontier model.
pub open spec fn policy_frontier(p: ReadPolicy, w: Option<int>) -> Option<int>
    decreases p,
{
    match p {
        ReadPolicy::ValidFrom(f) => f@,
        ReadPolicy::LagWriteFrontier(lag) => match w {
            Option::None => Option::Some(0int),
            Option::Some(u) => Option::Some(lag_round(u, lag as int)),
        },
        ReadPolicy::Multiple(ps) => combined_frontier(ps@, w),
    }
}

/// The model of a combination: every sub-policy's elements united, reduced
/// to a minimal antichain by repeated insertion.
pub open spec fn combined_frontier(ps: Seq<ReadPolicy>, w: Option<int>) -> Option<int>
    decreases ps,
{
    if ps.len() == 0 {
        Option::None
    } else {
        match policy_frontier(ps.last(), w) {
            Option::None => combined_frontier(ps.drop_last(), w),
            Option::Some(t) => frontier_insert(combined_frontier(ps.drop_last(), w), t),
        }
    }
}

/// Structural validity of a list of policies.
pub open spec fn policies_wf(ps: Seq<ReadPolicy>) -> bool
    decreases ps,
{
    ps.len() == 0 || (policies_wf(ps.drop_last()) && ps.last().wf())
}

/// Nesting depth of a policy, the termination measure of evaluation.
pub open spec fn policy_depth(p: ReadPolicy) -> nat
    decreases p,
{
    match p {
        ReadPolicy::ValidFrom(_) => 0,
        ReadPolicy::LagWriteFrontier(_) => 0,
        ReadPolicy::Multiple(ps) => 1 + policies_depth(ps@),
    }
}

/// The largest nesting depth in a list of policies.
pub open spec fn policies_depth(ps: Seq<ReadPolicy>) -> nat
    decreases ps,
{
    if ps.len() == 0 {
        0
    } else {
        let rest = policies_depth(ps.drop_last());
        let last = policy_depth(ps.last());
        if rest >= last {
            rest
        } else {
            last
        }
    }
}

proof fn lemma_policies_wf_index(ps: Seq<ReadPolicy>, i: int)
    requires
        policies_wf(ps),
        0 <= i < ps.len(),
    ensures
        ps[i].wf(),
    decreases ps.len(),
{
    if i < ps.len() - 1 {
        lemma_policies_wf_index(ps.drop_last(), i);
    }
}

proof fn lemma_policies_depth_index(ps: Seq<ReadPolicy>, i: int)
    requires
        0 <= i < ps.len(),
    ensures
        policy_depth(ps[i]) <= policies_depth(ps),
    decreases ps.len(),
{
    if i < ps.len() - 1 {
        lemma_policies_depth_index(ps.drop_last(), i);
        assert(ps.drop_last()[i] == ps[i]);
    }
}

impl ReadPolicy {
    /// Structural validity: manual frontiers are well formed and every lag
    /// is positive (the rounding rule divides by it).
    pub open spec fn wf(&self) -> bool
        decreases self,
    {
        match self {
            ReadPolicy::ValidFrom(f) => f.wf(),
            ReadPolicy::LagWriteFrontier(lag) => lag >= 1,
            ReadPolicy::Multiple(ps) => policies_wf(ps@),
        }
    }

    /// Creates a read policy that lags the write frontier by `lag`, rounded
    /// down to a multiple of `lag`. If a reader is content with `lag`, it is
    /// content with anything between `lag` and twice `lag`, and the rounding
    /// makes the derived frontier change less often.
    pub fn lag_writes_by(lag: u64) -> (p: ReadPolicy)
        requires
            lag >= 1,
        ensures
            p.wf(),
            p == ReadPolicy::LagWriteFrontier(lag),
    {
        ReadPolicy::LagWriteFrontier(lag)
    }

    /// Evaluates the policy against a write frontier.
    pub fn frontier(&self, write_frontier: &Frontier) -> (r: Frontier)
        requires
            self.wf(),
            write_frontier.wf(),
        ensures
            r.wf(),
            r@ == policy_frontier(*self, write_frontier@),
        decreases policy_depth(*self),
    {
        match self {
            ReadPolicy::ValidFrom(f) => f.clone(),
            ReadPolicy::LagWriteFrontier(lag) => {
                match write_frontier.as_option() {
                    Option::None => Frontier::minimum(),
                    Option::Some(u) => {
                        let mut time: u64 = if u >= *lag {
                            u - *lag
                        } else {
                            0
                        };
                        proof {
                            vstd::arithmetic::div_mod::lemma_mod_decreases(
                                time as nat,
                                *lag as nat,
                            );
                        }
                        time = time - time % *lag;
                        Frontier::from_elem(time)
                    },
                }
            },
            ReadPolicy::Multiple(policies) => {
                proof {
                    assert(*self == ReadPolicy::Multiple(*policies));
                }
                let mut combined = Frontier::new();
                let n = policies.len();
                let mut i: usize = 0;
                while i < n
                    invariant
                        n == policies@.len(),
                        i <= n,
                        policies_wf(policies@),
                        policy_depth(*self) == 1 + policies_depth(policies@),
                        write_frontier.wf(),
                        combined.wf(),
                        combined@ == combined_frontier(policies@.take(i as int), write_frontier@),
                    decreases n - i,
                {
                    proof {
                        lemma_policies_wf_index(policies@, i as int);
                        lemma_policies_depth_index(policies@, i as int);
                        assert(policies@.take(i + 1).drop_last() =~= policies@.take(i as int));
                        assert(policies@.take(i + 1).last() == policies@[i as int]);
                    }
                    let sub = policies[i].frontier(write_frontier);
                    match sub.as_option() {
                        Option::Some(t) => {
                            combined.insert(t);
                        },
                        Option::None => {},
                    }
                    i += 1;
                }
                proof {
                    assert(policies@.take(n as int) =~= policies@);
                }
                combined
            },
        }
    }
}

/// A combined policy is never more aggressive than any of its constituents:
/// its result precedes every sub-policy's result in the frontier order, so
/// it satisfies every sub-policy's retention requirement at once.
pub proof fn lemma_combined_respects_each(ps: Seq<ReadPolicy>, w: Option<int>, i: int)
    requires
        0 <= i < ps.len(),
    ensures
        frontier_le(combined_frontier(ps, w), policy_frontier(ps[i], w)),
    decreases ps.len(),
{
    if i == ps.len() - 1 {
    } else {
        lemma_combined_respects_each(ps.drop_last(), w, i);
        assert(ps.drop_last()[i] == ps[i]);
    }
}

} // verus!
