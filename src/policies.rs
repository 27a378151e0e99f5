//! The four ordering policies for user transactions. Each is a stable sort
//! by a key of integers compared lexicographically; ties keep input order.
use vstd::prelude::*;
use crate::types::{UserTransaction, boost_of};
use crate::uint::U256;

verus! {

broadcast use vstd::seq_lib::group_to_multiset_ensures;

/// Which policy orders the normal transactions of a batch.
#[derive(Clone, Copy, Debug, PartialEq, Eq, Structural)]
pub enum SchedulingPolicyType {
    /// Submission order.
    Fcfs,
    /// Highest gas price first.
    FeePriority,
    /// By time window, then highest bid, then highest gas price.
    TimeBoost { time_window_ms: u64 },
    /// Earliest timestamp first.
    FairBft,
}

impl SchedulingPolicyType {
    /// A time-boost window must be positive.
    pub open spec fn valid(self) -> bool {
        match self {
            SchedulingPolicyType::TimeBoost { time_window_ms } => time_window_ms > 0,
            _ => true,
        }
    }
}

/// The sort key of a transaction under a policy: smaller keys come first.
pub open spec fn order_key(p: SchedulingPolicyType, tx: UserTransaction) -> (int, int, int) {
    match p {
        SchedulingPolicyType::Fcfs => (0, 0, 0),
        SchedulingPolicyType::FeePriority => (-(tx.gas_price@ as int), 0, 0),
        SchedulingPolicyType::TimeBoost { time_window_ms } => (
            tx.timestamp as int / time_window_ms as int,
            -(boost_of(tx) as int),
            -(tx.gas_price@ as int),
        ),
        SchedulingPolicyType::FairBft => (tx.timestamp as int, 0, 0),
    }
}

/// Lexicographic order on keys.
pub open spec fn key_lt(a: (int, int, int), b: (int, int, int)) -> bool {
    a.0 < b.0 || (a.0 == b.0 && (a.1 < b.1 || (a.1 == b.1 && a.2 < b.2)))
}

/// `a` must come before `b` under policy `p`.
pub open spec fn precedes(p: SchedulingPolicyType, a: UserTransaction, b: UserTransaction) -> bool {
    key_lt(order_key(p, a), order_key(p, b))
}

/// No transaction is followed by one that must precede it.
pub open spec fn sorted_by(p: SchedulingPolicyType, s: Seq<UserTransaction>) -> bool {
    forall|i: int, j: int| 0 <= i < j < s.len() ==> !precedes(p, s[j], s[i])
}

/// The transactions whose key is `k`.
pub open spec fn key_class(p: SchedulingPolicyType, k: (int, int, int)) -> spec_fn(
    UserTransaction,
) -> bool {
    |x: UserTransaction| order_key(p, x) == k
}

/// Transactions of equal key appear in `out` in the order they had in `xs`.
pub open spec fn keeps_ties(
    p: SchedulingPolicyType,
    xs: Seq<UserTransaction>,
    out: Seq<UserTransaction>,
) -> bool {
    forall|k: (int, int, int)| #[trigger]
        out.filter(key_class(p, k)) == xs.filter(key_class(p, k))
}

/// `out` is `xs` stably sorted under policy `p`.
pub open spec fn is_policy_order(
    p: SchedulingPolicyType,
    xs: Seq<UserTransaction>,
    out: Seq<UserTransaction>,
) -> bool {
    &&& out.to_multiset() == xs.to_multiset()
    &&& sorted_by(p, out)
    &&& keeps_ties(p, xs, out)
}

/// Decides `precedes` for two transactions.
fn precedes_exec(p: &SchedulingPolicyType, a: &UserTransaction, b: &UserTransaction) -> (r: bool)
    requires
        p.valid(),
    ensures
        r == precedes(*p, *a, *b),
{
    match p {
        SchedulingPolicyType::Fcfs => false,
        SchedulingPolicyType::FeePriority => b.gas_price.lt(&a.gas_price),
        SchedulingPolicyType::TimeBoost { time_window_ms } => {
            let wa: u64 = a.timestamp / *time_window_ms;
            let wb: u64 = b.timestamp / *time_window_ms;
            if wa != wb {
                wa < wb
            } else {
                let ba = match a.boost_bid {
                    Some(x) => x,
                    None => U256::zero(),
                };
                let bb = match b.boost_bid {
                    Some(x) => x,
                    None => U256::zero(),
                };
                if bb.lt(&ba) {
                    true
                } else if ba.lt(&bb) {
                    false
                } else {
                    b.gas_price.lt(&a.gas_price)
                }
            }
        },
        SchedulingPolicyType::FairBft => a.timestamp < b.timestamp,
    }
}

/// With no element in its class, a filter is empty.
proof fn lemma_filter_none(s: Seq<UserTransaction>, f: spec_fn(UserTransaction) -> bool)
    requires
        forall|k: int| 0 <= k < s.len() ==> !f(s[k]),
    ensures
        s.filter(f) == Seq::<UserTransaction>::empty(),
    decreases s.len(),
{
    reveal_with_fuel(Seq::filter, 1);
    if s.len() > 0 {
        lemma_filter_none(s.drop_last(), f);
    }
}

/// Inserting `x` after every element that it need not precede, and before
/// all that it must precede, keeps the order sorted and ties stable.
proof fn lemma_insert_stable(
    p: SchedulingPolicyType,
    prefix: Seq<UserTransaction>,
    out: Seq<UserTransaction>,
    x: UserTransaction,
    j: int,
)
    requires
        0 <= j <= out.len(),
        sorted_by(p, out),
        keeps_ties(p, prefix, out),
        forall|k: int| j <= k < out.len() ==> precedes(p, x, out[k]),
        j == 0 || !precedes(p, x, out[j - 1]),
    ensures
        sorted_by(p, out.insert(j, x)),
        keeps_ties(p, prefix.push(x), out.insert(j, x)),
{
    let n = out.insert(j, x);
    assert forall|a: int, b: int| 0 <= a < b < n.len() implies !precedes(p, n[b], n[a]) by {
        if b < j {
        } else if b == j {
            assert(!precedes(p, out[j - 1], out[a]) || a == j - 1);
        } else if a < j {
            assert(!precedes(p, out[b - 1], out[a]));
        } else if a == j {
            assert(precedes(p, x, out[b - 1]));
        } else {
            assert(!precedes(p, out[b - 1], out[a - 1]));
        }
    }
    let front = out.subrange(0, j);
    let back = out.subrange(j, out.len() as int);
    assert(out =~= front + back);
    assert(n =~= front + seq![x] + back);
    assert(seq![x] =~= Seq::<UserTransaction>::empty().push(x));
    assert forall|k: (int, int, int)| #[trigger]
        n.filter(key_class(p, k)) == prefix.push(x).filter(key_class(p, k)) by {
        let f = key_class(p, k);
        Seq::filter_distributes_over_add(front + seq![x], back, f);
        Seq::filter_distributes_over_add(front, seq![x], f);
        Seq::filter_distributes_over_add(front, back, f);
        Seq::<UserTransaction>::empty().lemma_filter_push(x, f);
        prefix.lemma_filter_push(x, f);
        reveal_with_fuel(Seq::filter, 1);
        assert(Seq::<UserTransaction>::empty().filter(f) =~= Seq::<UserTransaction>::empty());
        if f(x) {
            assert forall|i: int| 0 <= i < back.len() implies !f(back[i]) by {
                assert(precedes(p, x, out[j + i]));
            }
            lemma_filter_none(back, f);
            assert(n.filter(f) =~= prefix.push(x).filter(f));
        } else {
            assert(n.filter(f) =~= prefix.push(x).filter(f));
        }
    }
}

/// Stable insertion sort under policy `p`.
pub fn sort_by_policy(p: &SchedulingPolicyType, xs: Vec<UserTransaction>) -> (r: Vec<
    UserTransaction,
>)
    requires
        p.valid(),
    ensures
        is_policy_order(*p, xs@, r@),
{
    let mut out: Vec<UserTransaction> = Vec::new();
    let mut i: usize = 0;
    proof {
        reveal_with_fuel(Seq::filter, 1);
        assert(xs@.subrange(0, 0) =~= Seq::<UserTransaction>::empty());
        assert(out@.to_multiset() =~= xs@.subrange(0, 0).to_multiset());
    }
    while i < xs.len()
        invariant
            p.valid(),
            i <= xs@.len(),
            out@.to_multiset() == xs@.subrange(0, i as int).to_multiset(),
            sorted_by(*p, out@),
            keeps_ties(*p, xs@.subrange(0, i as int), out@),
        decreases xs@.len() - i,
    {
        let x = xs[i];
        let mut j: usize = out.len();
        while j > 0 && precedes_exec(p, &x, &out[j - 1])
            invariant
                p.valid(),
                j <= out@.len(),
                forall|k: int| j <= k < out@.len() ==> precedes(*p, x, out@[k]),
            decreases j,
        {
            j = j - 1;
        }
        proof {
            lemma_insert_stable(*p, xs@.subrange(0, i as int), out@, x, j as int);
            assert(xs@.subrange(0, i + 1) =~= xs@.subrange(0, i as int).push(x));
        }
        out.insert(j, x);
        i = i + 1;
    }
    proof {
        assert(xs@.subrange(0, xs@.len() as int) =~= xs@);
    }
    out
}


/// The name a policy reports in batch metadata.
pub open spec fn policy_name(p: SchedulingPolicyType) -> Seq<char> {
    match p {
        SchedulingPolicyType::Fcfs => "FCFS"@,
        SchedulingPolicyType::FeePriority => "FeePriority"@,
        SchedulingPolicyType::TimeBoost { .. } => "TimeBoost"@,
        SchedulingPolicyType::FairBft => "FairBFT"@,
    }
}

fn policy_name_exec(p: &SchedulingPolicyType) -> (r: &'static str)
    ensures
        r@ == policy_name(*p),
{
    proof {
        reveal_strlit("FCFS");
        reveal_strlit("FeePriority");
        reveal_strlit("TimeBoost");
        reveal_strlit("FairBFT");
    }
    match p {
        SchedulingPolicyType::Fcfs => "FCFS",
        SchedulingPolicyType::FeePriority => "FeePriority",
        SchedulingPolicyType::TimeBoost { .. } => "TimeBoost",
        SchedulingPolicyType::FairBft => "FairBFT",
    }
}

/// An ordering of the normal transactions of a batch.
pub trait SchedulingPolicy {
    /// The policy this value stands for.
    spec fn kind(&self) -> SchedulingPolicyType;

    /// Sorts stably by the policy's key.
    fn order_transactions(&self, transactions: Vec<UserTransaction>) -> (r: Vec<UserTransaction>)
        requires
            self.kind().valid(),
        ensures
            is_policy_order(self.kind(), transactions@, r@),
    ;

    /// The policy's name for logs and metadata.
    fn name(&self) -> (r: &'static str)
        ensures
            r@ == policy_name(self.kind()),
    ;
}

/// Keeps submission order.
#[derive(Clone, Copy, Debug)]
pub struct FcfsPolicy;

/// Highest gas price first.
#[derive(Clone, Copy, Debug)]
pub struct FeePriorityPolicy;

/// By time window ascending, then bid descending, then gas price descending.
#[derive(Clone, Copy, Debug)]
pub struct TimeBoostPolicy {
    pub time_window_ms: u64,
}

/// Earliest timestamp first.
#[derive(Clone, Copy, Debug)]
pub struct FairBftPolicy;

impl FcfsPolicy {
    /// The input, unchanged.
    pub fn order(&self, transactions: Vec<UserTransaction>) -> (r: Vec<UserTransaction>)
        ensures
            r@ == transactions@,
            is_policy_order(SchedulingPolicyType::Fcfs, transactions@, r@),
    {
        transactions
    }
}

impl SchedulingPolicy for FcfsPolicy {
    open spec fn kind(&self) -> SchedulingPolicyType {
        SchedulingPolicyType::Fcfs
    }

    fn order_transactions(&self, transactions: Vec<UserTransaction>) -> (r: Vec<UserTransaction>) {
        self.order(transactions)
    }

    fn name(&self) -> (r: &'static str) {
        policy_name_exec(&SchedulingPolicyType::Fcfs)
    }
}

impl FeePriorityPolicy {
    /// Sorted by gas price, highest first; equal prices keep input order.
    pub fn order(&self, transactions: Vec<UserTransaction>) -> (r: Vec<UserTransaction>)
        ensures
            is_policy_order(SchedulingPolicyType::FeePriority, transactions@, r@),
            forall|i: int, j: int|
                0 <= i < j < r@.len() ==> r@[i].gas_price@ >= r@[j].gas_price@,
    {
        let r = sort_by_policy(&SchedulingPolicyType::FeePriority, transactions);
        proof {
            assert forall|i: int, j: int| 0 <= i < j < r@.len() implies r@[i].gas_price@
                >= r@[j].gas_price@ by {
                assert(!precedes(SchedulingPolicyType::FeePriority, r@[j], r@[i]));
            }
        }
        r
    }
}

impl SchedulingPolicy for FeePriorityPolicy {
    open spec fn kind(&self) -> SchedulingPolicyType {
        SchedulingPolicyType::FeePriority
    }

    fn order_transactions(&self, transactions: Vec<UserTransaction>) -> (r: Vec<UserTransaction>) {
        self.order(transactions)
    }

    fn name(&self) -> (r: &'static str) {
        policy_name_exec(&SchedulingPolicyType::FeePriority)
    }
}

impl TimeBoostPolicy {
    /// Sorted by window, then bid, then gas price; full ties keep input order.
    pub fn order(&self, transactions: Vec<UserTransaction>) -> (r: Vec<UserTransaction>)
        requires
            self.time_window_ms > 0,
        ensures
            is_policy_order(
                SchedulingPolicyType::TimeBoost { time_window_ms: self.time_window_ms },
                transactions@,
                r@,
            ),
    {
        sort_by_policy(&SchedulingPolicyType::TimeBoost { time_window_ms: self.time_window_ms }, transactions)
    }
}

impl SchedulingPolicy for TimeBoostPolicy {
    open spec fn kind(&self) -> SchedulingPolicyType {
        SchedulingPolicyType::TimeBoost { time_window_ms: self.time_window_ms }
    }

    fn order_transactions(&self, transactions: Vec<UserTransaction>) -> (r: Vec<UserTransaction>) {
        self.order(transactions)
    }

    fn name(&self) -> (r: &'static str) {
        policy_name_exec(&SchedulingPolicyType::TimeBoost { time_window_ms: self.time_window_ms })
    }
}

impl FairBftPolicy {
    /// Sorted by timestamp, earliest first; equal timestamps keep input order.
    pub fn order(&self, transactions: Vec<UserTransaction>) -> (r: Vec<UserTransaction>)
        ensures
            is_policy_order(SchedulingPolicyType::FairBft, transactions@, r@),
            forall|i: int, j: int| 0 <= i < j < r@.len() ==> r@[i].timestamp <= r@[j].timestamp,
    {
        let r = sort_by_policy(&SchedulingPolicyType::FairBft, transactions);
        proof {
            assert forall|i: int, j: int| 0 <= i < j < r@.len() implies r@[i].timestamp
                <= r@[j].timestamp by {
                assert(!precedes(SchedulingPolicyType::FairBft, r@[j], r@[i]));
            }
        }
        r
    }
}

impl SchedulingPolicy for FairBftPolicy {
    open spec fn kind(&self) -> SchedulingPolicyType {
        SchedulingPolicyType::FairBft
    }

    fn order_transactions(&self, transactions: Vec<UserTransaction>) -> (r: Vec<UserTransaction>) {
        self.order(transactions)
    }

    fn name(&self) -> (r: &'static str) {
        policy_name_exec(&SchedulingPolicyType::FairBft)
    }
}

/// One of the four policies, chosen from configuration.
#[derive(Clone, Copy, Debug)]
pub enum Policy {
    Fcfs(FcfsPolicy),
    FeePriority(FeePriorityPolicy),
    TimeBoost(TimeBoostPolicy),
    FairBft(FairBftPolicy),
}

impl SchedulingPolicy for Policy {
    open spec fn kind(&self) -> SchedulingPolicyType {
        match self {
            Policy::Fcfs(p) => p.kind(),
            Policy::FeePriority(p) => p.kind(),
            Policy::TimeBoost(p) => p.kind(),
            Policy::FairBft(p) => p.kind(),
        }
    }

    fn order_transactions(&self, transactions: Vec<UserTransaction>) -> (r: Vec<UserTransaction>) {
        match self {
            Policy::Fcfs(p) => p.order_transactions(transactions),
            Policy::FeePriority(p) => p.order_transactions(transactions),
            Policy::TimeBoost(p) => p.order_transactions(transactions),
            Policy::FairBft(p) => p.order_transactions(transactions),
        }
    }

    fn name(&self) -> (r: &'static str) {
        match self {
            Policy::Fcfs(p) => p.name(),
            Policy::FeePriority(p) => p.name(),
            Policy::TimeBoost(p) => p.name(),
            Policy::FairBft(p) => p.name(),
        }
    }
}

/// The policy that a configured policy type selects.
pub fn create_policy(policy_type: SchedulingPolicyType) -> (r: Policy)
    ensures
        r.kind() == policy_type,
{
    match policy_type {
        SchedulingPolicyType::Fcfs => Policy::Fcfs(FcfsPolicy),
        SchedulingPolicyType::FeePriority => Policy::FeePriority(FeePriorityPolicy),
        SchedulingPolicyType::TimeBoost { time_window_ms } => Policy::TimeBoost(
            TimeBoostPolicy { time_window_ms },
        ),
        SchedulingPolicyType::FairBft => Policy::FairBft(FairBftPolicy),
    }
}

} // verus!
