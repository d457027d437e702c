//! Changesets and reverts prepared for the database, and their restriction to one chain.
use crate::bytecode::Bytecode;
use crate::primitives::{B256, U256};
use crate::state::{AccountInfo, ChainAddress};
use vstd::prelude::*;

verus! {

/// Something that belongs to a chain.
pub trait OnChainItem: Sized {
    /// The chain of the item.
    spec fn chain_of(&self) -> u64;

    /// The chain of the item.
    fn chain(&self) -> (r: u64)
        ensures
            r == self.chain_of(),
    ;
}

impl OnChainItem for (ChainAddress, Option<AccountInfo>) {
    open spec fn chain_of(&self) -> u64 {
        self.0.0
    }

    fn chain(&self) -> (r: u64) {
        self.0.0
    }
}

impl OnChainItem for ((u64, B256), Bytecode) {
    open spec fn chain_of(&self) -> u64 {
        self.0.0
    }

    fn chain(&self) -> (r: u64) {
        self.0.0
    }
}

impl OnChainItem for PlainStorageChangeset {
    open spec fn chain_of(&self) -> u64 {
        self.address.0
    }

    fn chain(&self) -> (r: u64) {
        self.address.0
    }
}

impl OnChainItem for PlainStorageRevert {
    open spec fn chain_of(&self) -> u64 {
        self.address.0
    }

    fn chain(&self) -> (r: u64) {
        self.address.0
    }
}

/// The items of `s` on chain `chain_id`, in order.
pub open spec fn on_chain<T: OnChainItem>(s: Seq<T>, chain_id: u64) -> Seq<T> {
    s.filter(|x: T| x.chain_of() == chain_id)
}

/// Keeps the items on chain `chain_id`, in order, and drops the others.
pub fn retain_chain<T: OnChainItem>(v: &mut Vec<T>, chain_id: u64)
    ensures
        final(v)@ == on_chain(old(v)@, chain_id),
{
    let ghost s0 = v@;
    let mut rest: Vec<T> = Vec::new();
    std::mem::swap(&mut rest, v);
    let mut k: usize = 0;
    let n = rest.len();
    proof {
        reveal(Seq::filter);
        assert(s0.subrange(0, 0) =~= Seq::<T>::empty());
        assert(rest@ =~= s0.subrange(0, s0.len() as int));
    }
    while rest.len() > 0
        invariant
            n == s0.len(),
            0 <= k <= n,
            rest@ == s0.subrange(k as int, n as int),
            v@ == on_chain(s0.subrange(0, k as int), chain_id),
        decreases rest@.len(),
    {
        let x = rest.remove(0);
        proof {
            reveal(Seq::filter);
            assert(x == s0[k as int]);
            assert(s0.subrange(0, k + 1).drop_last() == s0.subrange(0, k as int));
            assert(s0.subrange(0, k + 1).last() == x);
            assert(rest@ =~= s0.subrange(k + 1, n as int));
        }
        if x.chain() == chain_id {
            v.push(x);
        }
        k += 1;
    }
    proof {
        assert(s0.subrange(0, n as int) == s0);
    }
}

/// Account, storage and code changes to write to a database; not sorted.
#[derive(Debug)]
pub struct StateChangeset {
    /// Account information by address; `None` removes the account.
    pub accounts: Vec<(ChainAddress, Option<AccountInfo>)>,
    /// Storage changes.
    pub storage: Vec<PlainStorageChangeset>,
    /// Code by chain and hash.
    pub contracts: Vec<((u64, B256), Bytecode)>,
}

impl StateChangeset {
    /// Keeps only the changes of chain `chain_id`, in their order.
    pub fn filter_for_chain(&mut self, chain_id: u64)
        ensures
            final(self).accounts@ == on_chain(old(self).accounts@, chain_id),
            final(self).storage@ == on_chain(old(self).storage@, chain_id),
            final(self).contracts@ == on_chain(old(self).contracts@, chain_id),
    {
        retain_chain(&mut self.accounts, chain_id);
        retain_chain(&mut self.storage, chain_id);
        retain_chain(&mut self.contracts, chain_id);
    }
}

/// Storage changes of one account.
#[derive(Debug)]
pub struct PlainStorageChangeset {
    /// The account.
    pub address: ChainAddress,
    /// Whether its storage is wiped first.
    pub wipe_storage: bool,
    /// Keys and new values.
    pub storage: Vec<(U256, U256)>,
}

/// The value a storage slot reverts to.
#[derive(Clone, Copy, Debug)]
pub enum RevertToSlot {
    /// The value it had.
    Value(U256),
    /// The slot was destroyed.
    Destroyed,
}

/// The old storage values of one account.
#[derive(Debug)]
pub struct PlainStorageRevert {
    /// The account.
    pub address: ChainAddress,
    /// Whether the storage was wiped in this revert.
    pub wiped: bool,
    /// Keys and the values they revert to.
    pub storage_revert: Vec<(U256, RevertToSlot)>,
}

/// Reverts of accounts and storage, one list per transition; not sorted.
#[derive(Debug)]
pub struct PlainStateReverts {
    /// Account information to restore; `None` removes the account.
    pub accounts: Vec<Vec<(ChainAddress, Option<AccountInfo>)>>,
    /// Storage to restore.
    pub storage: Vec<Vec<PlainStorageRevert>>,
}

/// Keeps, in every list, only the items of chain `chain_id`.
fn retain_chain_nested<T: OnChainItem>(v: &mut Vec<Vec<T>>, chain_id: u64)
    ensures
        final(v)@.len() == old(v)@.len(),
        forall|i: int| 0 <= i < old(v)@.len() ==> (#[trigger] final(v)@[i])@ == on_chain(old(v)@[i]@, chain_id),
{
    let ghost s0 = v@;
    let mut rest: Vec<Vec<T>> = Vec::new();
    std::mem::swap(&mut rest, v);
    let n = rest.len();
    let mut k: usize = 0;
    proof {
        assert(rest@ =~= s0.subrange(0, n as int));
    }
    while rest.len() > 0
        invariant
            n == s0.len(),
            0 <= k <= n,
            rest@ == s0.subrange(k as int, n as int),
            v@.len() == k,
            forall|i: int| 0 <= i < k ==> (#[trigger] v@[i])@ == on_chain(s0[i]@, chain_id),
        decreases rest@.len(),
    {
        let mut inner = rest.remove(0);
        proof {
            assert(inner == s0[k as int]);
            assert(rest@ =~= s0.subrange(k + 1, n as int));
        }
        retain_chain(&mut inner, chain_id);
        v.push(inner);
        k += 1;
    }
}

impl PlainStateReverts {
    /// Empty reverts with room for `capacity` transitions.
    pub fn with_capacity(capacity: usize) -> (r: PlainStateReverts)
        ensures
            r.accounts@.len() == 0,
            r.storage@.len() == 0,
    {
        PlainStateReverts { accounts: Vec::with_capacity(capacity), storage: Vec::with_capacity(capacity) }
    }

    /// Keeps, in every transition, only the reverts of chain `chain_id`, in their order.
    pub fn filter_for_chain(&mut self, chain_id: u64)
        ensures
            final(self).accounts@.len() == old(self).accounts@.len(),
            final(self).storage@.len() == old(self).storage@.len(),
            forall|i: int| 0 <= i < old(self).accounts@.len() ==> (#[trigger] final(self).accounts@[i])@ == on_chain(old(self).accounts@[i]@, chain_id),
            forall|i: int| 0 <= i < old(self).storage@.len() ==> (#[trigger] final(self).storage@[i])@ == on_chain(old(self).storage@[i]@, chain_id),
    {
        retain_chain_nested(&mut self.accounts, chain_id);
        retain_chain_nested(&mut self.storage, chain_id);
    }
}

/// Filtering for a chain keeps exactly the items of that chain: every item kept is on the
/// chain, every item of the chain is kept, and filtering again changes nothing.
pub proof fn lemma_filter_for_chain<T: OnChainItem>(s: Seq<T>, chain_id: u64)
    ensures
        forall|i: int| 0 <= i < on_chain(s, chain_id).len() ==> (#[trigger] on_chain(s, chain_id)[i]).chain_of() == chain_id,
        forall|i: int| 0 <= i < s.len() && (#[trigger] s[i]).chain_of() == chain_id ==> on_chain(s, chain_id).contains(s[i]),
        on_chain(on_chain(s, chain_id), chain_id) == on_chain(s, chain_id),
    decreases s.len(),
{
    broadcast use vstd::seq_lib::group_filter_ensures;
    reveal(Seq::filter);
    if s.len() > 0 {
        lemma_filter_for_chain(s.drop_last(), chain_id);
        let f = on_chain(s.drop_last(), chain_id);
        if s.last().chain_of() == chain_id {
            assert(on_chain(s, chain_id) == f.push(s.last()));
            assert(f.push(s.last()).drop_last() == f);
        }
    }
}

} // verus!
