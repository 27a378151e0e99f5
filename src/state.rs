//! Per-account balance and nonce, as admission sees them.
use vstd::prelude::*;
use crate::types::{AccountState, Address};
use crate::uint::U256;

verus! {

/// The account stored for `a`, or a zero account where none is.
pub open spec fn account_of(m: Map<Seq<u8>, AccountState>, a: Address) -> AccountState {
    if m.contains_key(a.bytes@) {
        m[a.bytes@]
    } else {
        AccountState { address: a, balance: U256 { hi: 0, lo: 0 }, nonce: 0 }
    }
}

/// `m` with the nonce of `a` advanced by one, its balance kept (zero for a
/// new account).
pub open spec fn with_nonce_advanced(m: Map<Seq<u8>, AccountState>, a: Address) -> Map<
    Seq<u8>,
    AccountState,
> {
    m.insert(
        a.bytes@,
        AccountState { nonce: (account_of(m, a).nonce + 1) as u64, ..account_of(m, a) },
    )
}

/// Accounts keyed by address; each address appears at most once.
pub struct StateCache {
    accounts: Vec<AccountState>,
    contents: Ghost<Map<Seq<u8>, AccountState>>,
}

impl View for StateCache {
    type V = Map<Seq<u8>, AccountState>;

    closed spec fn view(&self) -> Map<Seq<u8>, AccountState> {
        self.contents@
    }
}

impl StateCache {
    pub closed spec fn wf(&self) -> bool {
        &&& forall|i: int|
            0 <= i < self.accounts@.len() ==> #[trigger] self.contents@.contains_key(
                self.accounts@[i].address.bytes@,
            ) && self.contents@[self.accounts@[i].address.bytes@] == self.accounts@[i]
        &&& forall|a: Seq<u8>|
            #[trigger] self.contents@.contains_key(a) ==> exists|i: int|
                0 <= i < self.accounts@.len() && self.accounts@[i].address.bytes@ == a
        &&& forall|i: int, j: int|
            0 <= i < j < self.accounts@.len() ==> self.accounts@[i].address.bytes@
                != self.accounts@[j].address.bytes@
    }

    pub fn new() -> (r: StateCache)
        ensures
            r.wf(),
            r@ == Map::<Seq<u8>, AccountState>::empty(),
    {
        StateCache { accounts: Vec::new(), contents: Ghost(Map::empty()) }
    }

    /// The position of `address`, if stored.
    fn find(&self, address: &Address) -> (r: Option<usize>)
        requires
            self.wf(),
        ensures
            match r {
                Some(i) => i < self.accounts@.len() && self.accounts@[i as int].address.bytes@
                    == address.bytes@,
                None => !self@.contains_key(address.bytes@),
            },
    {
        let mut i: usize = 0;
        while i < self.accounts.len()
            invariant
                self.wf(),
                i <= self.accounts@.len(),
                forall|k: int| 0 <= k < i ==> self.accounts@[k].address.bytes@ != address.bytes@,
            decreases self.accounts@.len() - i,
        {
            if self.accounts[i].address == *address {
                return Some(i);
            }
            i = i + 1;
        }
        None
    }

    pub fn get_balance(&self, address: &Address) -> (r: Option<U256>)
        requires
            self.wf(),
        ensures
            r == if self@.contains_key(address.bytes@) {
                Some(self@[address.bytes@].balance)
            } else {
                None
            },
    {
        match self.find(address) {
            Some(i) => Some(self.accounts[i].balance),
            None => None,
        }
    }

    pub fn get_nonce(&self, address: &Address) -> (r: Option<u64>)
        requires
            self.wf(),
        ensures
            r == if self@.contains_key(address.bytes@) {
                Some(self@[address.bytes@].nonce)
            } else {
                None
            },
    {
        match self.find(address) {
            Some(i) => Some(self.accounts[i].nonce),
            None => None,
        }
    }

    /// The stored account, or a zero account for `address`; stores nothing.
    pub fn get_or_init_account(&self, address: &Address) -> (r: AccountState)
        requires
            self.wf(),
        ensures
            r == account_of(self@, *address),
    {
        match self.find(address) {
            Some(i) => self.accounts[i],
            None => AccountState { address: *address, balance: U256::zero(), nonce: 0 },
        }
    }

    /// Adds one to the nonce of `address`, storing a zero-balance account
    /// with nonce one where none was stored.
    pub fn increment_nonce(&mut self, address: &Address)
        requires
            old(self).wf(),
            account_of(old(self)@, *address).nonce < u64::MAX,
        ensures
            final(self).wf(),
            final(self)@ == with_nonce_advanced(old(self)@, *address),
    {
        match self.find(address) {
            Some(i) => {
                let mut acc = self.accounts[i];
                acc.nonce = acc.nonce + 1;
                self.accounts.set(i, acc);
                self.contents = Ghost(self.contents@.insert(address.bytes@, acc));
                proof {
                    assert forall|k: int| 0 <= k < self.accounts@.len() implies #[trigger] self.contents@.contains_key(
                        self.accounts@[k].address.bytes@,
                    ) && self.contents@[self.accounts@[k].address.bytes@] == self.accounts@[k] by {
                        if k != i as int {
                            assert(old(self).contents@.contains_key(old(self).accounts@[k].address.bytes@));
                            assert(self.accounts@[k].address.bytes@ != address.bytes@);
                        }
                    }
                    assert forall|k: int, j: int|
                        0 <= k < j < self.accounts@.len() implies self.accounts@[k].address.bytes@
                            != self.accounts@[j].address.bytes@ by {
                        if j == i as int && k != i as int {
                            assert(old(self).contents@.contains_key(old(self).accounts@[k].address.bytes@));
                        }
                        if k == i as int && j != i as int {
                            assert(old(self).contents@.contains_key(old(self).accounts@[j].address.bytes@));
                        }
                    }
                    assert forall|a: Seq<u8>| #[trigger] self.contents@.contains_key(a) implies exists|
                        k: int,
                    | 0 <= k < self.accounts@.len() && self.accounts@[k].address.bytes@ == a by {
                        if a != address.bytes@ {
                            let k = choose|k: int|
                                0 <= k < old(self).accounts@.len()
                                    && old(self).accounts@[k].address.bytes@ == a;
                            assert(self.accounts@[k].address.bytes@ == a);
                        } else {
                            assert(self.accounts@[i as int].address.bytes@ == a);
                        }
                    }
                }
            },
            None => {
                let acc = AccountState { address: *address, balance: U256::zero(), nonce: 1 };
                self.accounts.push(acc);
                self.contents = Ghost(self.contents@.insert(address.bytes@, acc));
                proof {
                    assert forall|k: int| 0 <= k < self.accounts@.len() implies #[trigger] self.contents@.contains_key(
                        self.accounts@[k].address.bytes@,
                    ) && self.contents@[self.accounts@[k].address.bytes@] == self.accounts@[k] by {
                        if k != old(self).accounts@.len() as int {
                            assert(old(self).contents@.contains_key(old(self).accounts@[k].address.bytes@));
                            assert(self.accounts@[k].address.bytes@ != address.bytes@);
                        }
                    }
                    assert forall|k: int, j: int|
                        0 <= k < j < self.accounts@.len() implies self.accounts@[k].address.bytes@
                            != self.accounts@[j].address.bytes@ by {
                        if j == old(self).accounts@.len() as int && k != old(self).accounts@.len() as int {
                            assert(old(self).contents@.contains_key(old(self).accounts@[k].address.bytes@));
                        }
                        if k == old(self).accounts@.len() as int && j != old(self).accounts@.len() as int {
                            assert(old(self).contents@.contains_key(old(self).accounts@[j].address.bytes@));
                        }
                    }
                    assert forall|a: Seq<u8>| #[trigger] self.contents@.contains_key(a) implies exists|
                        k: int,
                    | 0 <= k < self.accounts@.len() && self.accounts@[k].address.bytes@ == a by {
                        if a != address.bytes@ {
                            let k = choose|k: int|
                                0 <= k < old(self).accounts@.len()
                                    && old(self).accounts@[k].address.bytes@ == a;
                            assert(self.accounts@[k].address.bytes@ == a);
                        } else {
                            assert(self.accounts@[old(self).accounts@.len() as int].address.bytes@
                                == a);
                        }
                    }
                }
            },
        }
    }

    /// Stores `state` under its address, replacing any entry there.
    pub fn update(&mut self, state: AccountState)
        requires
            old(self).wf(),
        ensures
            final(self).wf(),
            final(self)@ == old(self)@.insert(state.address.bytes@, state),
    {
        match self.find(&state.address) {
            Some(i) => {
                self.accounts.set(i, state);
                self.contents = Ghost(self.contents@.insert(state.address.bytes@, state));
                proof {
                    assert forall|k: int| 0 <= k < self.accounts@.len() implies #[trigger] self.contents@.contains_key(
                        self.accounts@[k].address.bytes@,
                    ) && self.contents@[self.accounts@[k].address.bytes@] == self.accounts@[k] by {
                        if k != i as int {
                            assert(old(self).contents@.contains_key(old(self).accounts@[k].address.bytes@));
                            assert(self.accounts@[k].address.bytes@ != state.address.bytes@);
                        }
                    }
                    assert forall|k: int, j: int|
                        0 <= k < j < self.accounts@.len() implies self.accounts@[k].address.bytes@
                            != self.accounts@[j].address.bytes@ by {
                        if j == i as int && k != i as int {
                            assert(old(self).contents@.contains_key(old(self).accounts@[k].address.bytes@));
                        }
                        if k == i as int && j != i as int {
                            assert(old(self).contents@.contains_key(old(self).accounts@[j].address.bytes@));
                        }
                    }
                    assert forall|a: Seq<u8>| #[trigger] self.contents@.contains_key(a) implies exists|
                        k: int,
                    | 0 <= k < self.accounts@.len() && self.accounts@[k].address.bytes@ == a by {
                        if a != state.address.bytes@ {
                            let k = choose|k: int|
                                0 <= k < old(self).accounts@.len()
                                    && old(self).accounts@[k].address.bytes@ == a;
                            assert(self.accounts@[k].address.bytes@ == a);
                        } else {
                            assert(self.accounts@[i as int].address.bytes@ == a);
                        }
                    }
                }
            },
            None => {
                self.accounts.push(state);
                self.contents = Ghost(self.contents@.insert(state.address.bytes@, state));
                proof {
                    assert forall|k: int| 0 <= k < self.accounts@.len() implies #[trigger] self.contents@.contains_key(
                        self.accounts@[k].address.bytes@,
                    ) && self.contents@[self.accounts@[k].address.bytes@] == self.accounts@[k] by {
                        if k != old(self).accounts@.len() as int {
                            assert(old(self).contents@.contains_key(old(self).accounts@[k].address.bytes@));
                            assert(self.accounts@[k].address.bytes@ != state.address.bytes@);
                        }
                    }
                    assert forall|k: int, j: int|
                        0 <= k < j < self.accounts@.len() implies self.accounts@[k].address.bytes@
                            != self.accounts@[j].address.bytes@ by {
                        if j == old(self).accounts@.len() as int && k != old(self).accounts@.len() as int {
                            assert(old(self).contents@.contains_key(old(self).accounts@[k].address.bytes@));
                        }
                        if k == old(self).accounts@.len() as int && j != old(self).accounts@.len() as int {
                            assert(old(self).contents@.contains_key(old(self).accounts@[j].address.bytes@));
                        }
                    }
                    assert forall|a: Seq<u8>| #[trigger] self.contents@.contains_key(a) implies exists|
                        k: int,
                    | 0 <= k < self.accounts@.len() && self.accounts@[k].address.bytes@ == a by {
                        if a != state.address.bytes@ {
                            let k = choose|k: int|
                                0 <= k < old(self).accounts@.len()
                                    && old(self).accounts@[k].address.bytes@ == a;
                            assert(self.accounts@[k].address.bytes@ == a);
                        } else {
                            assert(self.accounts@[old(self).accounts@.len() as int].address.bytes@
                                == a);
                        }
                    }
                }
            },
        }
    }
}

} // verus!
