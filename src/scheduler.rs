//! Puts forced transactions first, in arrival order, then the normal ones
//! in the order that the selected policy gives.
use vstd::prelude::*;
use crate::types::{ForcedTransaction, Transaction, UserTransaction};
use crate::policies::{Policy, SchedulingPolicy, SchedulingPolicyType, is_policy_order};

verus! {

pub open spec fn wrap_forced(s: Seq<ForcedTransaction>) -> Seq<Transaction> {
    s.map_values(|t: ForcedTransaction| Transaction::Forced(t))
}

pub open spec fn wrap_normal(s: Seq<UserTransaction>) -> Seq<Transaction> {
    s.map_values(|t: UserTransaction| Transaction::Normal(t))
}

/// The user transactions inside a run of normal entries.
pub open spec fn normals_of(s: Seq<Transaction>) -> Seq<UserTransaction> {
    s.map_values(|t: Transaction| t->Normal_0)
}

/// No normal entry stands before a forced one.
pub open spec fn forced_first(s: Seq<Transaction>) -> bool {
    forall|i: int, j: int| 0 <= i < j < s.len() && s[j] is Forced ==> s[i] is Forced
}

/// `r` is `forced` in order, then `normal` as policy `p` orders it.
pub open spec fn is_schedule(
    p: SchedulingPolicyType,
    forced: Seq<ForcedTransaction>,
    normal: Seq<UserTransaction>,
    r: Seq<Transaction>,
) -> bool {
    let f = forced.len() as int;
    let tail = r.subrange(f, r.len() as int);
    &&& r.len() == forced.len() + normal.len()
    &&& r.subrange(0, f) == wrap_forced(forced)
    &&& tail == wrap_normal(normals_of(tail))
    &&& is_policy_order(p, normal, normals_of(tail))
}

/// Orders a batch: forced transactions first, then the policy's order.
pub struct Scheduler {
    policy: Policy,
}

impl Scheduler {
    pub fn new(policy: Policy) -> (r: Scheduler)
        ensures
            r.kind() == policy.kind(),
    {
        Scheduler { policy }
    }

    pub closed spec fn kind(&self) -> SchedulingPolicyType {
        self.policy.kind()
    }

    /// The name of the policy in use.
    pub fn policy_name(&self) -> (r: &'static str)
        ensures
            r@ == crate::policies::policy_name(self.kind()),
    {
        self.policy.name()
    }

    pub fn schedule(&self, forced: Vec<ForcedTransaction>, normal: Vec<UserTransaction>) -> (r: Vec<
        Transaction,
    >)
        requires
            self.kind().valid(),
        ensures
            is_schedule(self.kind(), forced@, normal@, r@),
            forced_first(r@),
    {
        let ordered = self.policy.order_transactions(normal);
        let ghost o = ordered@;
        let mut result: Vec<Transaction> = Vec::new();
        let mut i: usize = 0;
        while i < forced.len()
            invariant
                i <= forced@.len(),
                result@ == wrap_forced(forced@.subrange(0, i as int)),
            decreases forced@.len() - i,
        {
            result.push(Transaction::Forced(forced[i]));
            proof {
                assert(result@ =~= wrap_forced(forced@.subrange(0, i + 1)));
            }
            i = i + 1;
        }
        proof {
            assert(forced@.subrange(0, forced@.len() as int) =~= forced@);
        }
        let mut k: usize = 0;
        while k < ordered.len()
            invariant
                k <= ordered@.len(),
                ordered@ == o,
                result@ == wrap_forced(forced@) + wrap_normal(o.subrange(0, k as int)),
            decreases ordered@.len() - k,
        {
            result.push(Transaction::Normal(ordered[k]));
            proof {
                assert(result@ =~= wrap_forced(forced@) + wrap_normal(o.subrange(0, k + 1)));
            }
            k = k + 1;
        }
        proof {
            let f = forced@.len() as int;
            assert(o.subrange(0, o.len() as int) =~= o);
            o.to_multiset_ensures();
            normal@.to_multiset_ensures();
            let tail = result@.subrange(f, result@.len() as int);
            assert(tail =~= wrap_normal(o));
            assert(normals_of(tail) =~= o);
            assert(result@.subrange(0, f) =~= wrap_forced(forced@));
            assert forall|i: int, j: int|
                0 <= i < j < result@.len() && result@[j] is Forced implies result@[i] is Forced by {
                assert(j < f);
            }
        }
        result
    }
}

} // verus!
