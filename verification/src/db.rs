//! A database put together from a source of account state and a source of block hashes.
use crate::bytecode::Bytecode;
use crate::primitives::{B256, U256};
use crate::state::{Account, AccountInfo, ChainAddress};
use vstd::prelude::*;

verus! {

/// A source of account state that may change as it is read.
pub trait State {
    type Error;

    /// Whether reading the account at `address` from the state `self` may answer `r` and
    /// leave the state `after`. A state that says nothing of its answers keeps this default,
    /// which admits any.
    open spec fn basic_answers(&self, after: &Self, address: ChainAddress, r: Result<Option<AccountInfo>, Self::Error>) -> bool {
        true
    }

    /// The account at `address`, if it exists.
    fn basic(&mut self, address: ChainAddress) -> (r: Result<Option<AccountInfo>, Self::Error>)
        ensures
            old(self).basic_answers(final(self), address, r),
    ;

    /// The code with the given hash on the given chain.
    fn code_by_hash(&mut self, chain_id: u64, code_hash: B256) -> Result<Bytecode, Self::Error>;

    /// Whether reading slot `index` of the account at `address` from the state `self` may
    /// answer `r` and leave the state `after`. A state that says nothing of its answers keeps
    /// this default, which admits any.
    open spec fn storage_answers(&self, after: &Self, address: ChainAddress, index: U256, r: Result<U256, Self::Error>) -> bool {
        true
    }

    /// The value of a storage slot.
    fn storage(&mut self, address: ChainAddress, index: U256) -> (r: Result<U256, Self::Error>)
        ensures
            old(self).storage_answers(final(self), address, index, r),
    ;
}

/// A source of account state read through a shared reference.
pub trait StateRef {
    type Error;

    /// The account at `address`, if it exists.
    fn basic(&self, address: ChainAddress) -> Result<Option<AccountInfo>, Self::Error>;

    /// The code with the given hash on the given chain.
    fn code_by_hash(&self, chain_id: u64, code_hash: B256) -> Result<Bytecode, Self::Error>;

    /// The value of a storage slot.
    fn storage(&self, address: ChainAddress, index: U256) -> Result<U256, Self::Error>;
}

/// A source of block hashes that may change as it is read.
pub trait BlockHash {
    type Error;

    /// The hash of the block with the given number on the given chain.
    fn block_hash(&mut self, chain_id: u64, number: u64) -> Result<B256, Self::Error>;
}

/// A source of block hashes read through a shared reference.
pub trait BlockHashRef {
    type Error;

    /// The hash of the block with the given number on the given chain.
    fn block_hash(&self, chain_id: u64, number: u64) -> Result<B256, Self::Error>;
}

/// A store that accepts the accounts a transaction changed.
pub trait DatabaseCommit {
    /// Writes the changed accounts.
    fn commit(&mut self, changes: Vec<(ChainAddress, Account)>);
}

/// A database made of a state source and a block hash source.
#[derive(Debug)]
pub struct DatabaseComponents<S, BH> {
    pub state: S,
    pub block_hash: BH,
}

/// The error of a [`DatabaseComponents`]: that of the part that failed.
#[derive(Debug)]
pub enum DatabaseComponentError<SE, BHE> {
    State(SE),
    BlockHash(BHE),
}

/// A result of the state source, its error marked as coming from the state.
pub fn state_result<T, SE, BHE>(r: Result<T, SE>) -> (out: Result<T, DatabaseComponentError<SE, BHE>>)
    ensures
        match r {
            Ok(v) => out matches Ok(w) && w == v,
            Err(e) => out matches Err(DatabaseComponentError::State(f)) && f == e,
        },
{
    match r {
        Ok(v) => Ok(v),
        Err(e) => Err(DatabaseComponentError::State(e)),
    }
}

/// A result of the block hash source, its error marked as coming from the block hashes.
pub fn block_hash_result<T, SE, BHE>(r: Result<T, BHE>) -> (out: Result<T, DatabaseComponentError<SE, BHE>>)
    ensures
        match r {
            Ok(v) => out matches Ok(w) && w == v,
            Err(e) => out matches Err(DatabaseComponentError::BlockHash(f)) && f == e,
        },
{
    match r {
        Ok(v) => Ok(v),
        Err(e) => Err(DatabaseComponentError::BlockHash(e)),
    }
}

/// The components read as one state: the account comes from the state source, an error of it
/// being a state error, and the block hash source stays.
impl<S: State, BH: BlockHash> State for DatabaseComponents<S, BH> {
    type Error = DatabaseComponentError<S::Error, BH::Error>;

    open spec fn basic_answers(
        &self,
        after: &Self,
        address: ChainAddress,
        r: Result<Option<AccountInfo>, DatabaseComponentError<S::Error, BH::Error>>,
    ) -> bool {
        &&& after.block_hash == self.block_hash
        &&& exists|rs: Result<Option<AccountInfo>, S::Error>| #[trigger] self.state.basic_answers(&after.state, address, rs)
            && match rs {
            Ok(v) => r == Ok::<Option<AccountInfo>, DatabaseComponentError<S::Error, BH::Error>>(v),
            Err(e) => r == Err::<Option<AccountInfo>, DatabaseComponentError<S::Error, BH::Error>>(DatabaseComponentError::State(e)),
        }
    }

    fn basic(&mut self, address: ChainAddress) -> (r: Result<Option<AccountInfo>, DatabaseComponentError<S::Error, BH::Error>>) {
        let rs = self.state.basic(address);
        proof {
            assert(old(self).state.basic_answers(&self.state, address, rs));
        }
        match rs {
            Ok(v) => Ok(v),
            Err(e) => Err(DatabaseComponentError::State(e)),
        }
    }

    fn code_by_hash(&mut self, chain_id: u64, code_hash: B256) -> (r: Result<Bytecode, DatabaseComponentError<S::Error, BH::Error>>) {
        state_result(self.state.code_by_hash(chain_id, code_hash))
    }

    open spec fn storage_answers(
        &self,
        after: &Self,
        address: ChainAddress,
        index: U256,
        r: Result<U256, DatabaseComponentError<S::Error, BH::Error>>,
    ) -> bool {
        &&& after.block_hash == self.block_hash
        &&& exists|rs: Result<U256, S::Error>| #[trigger] self.state.storage_answers(&after.state, address, index, rs)
            && match rs {
            Ok(v) => r == Ok::<U256, DatabaseComponentError<S::Error, BH::Error>>(v),
            Err(e) => r == Err::<U256, DatabaseComponentError<S::Error, BH::Error>>(DatabaseComponentError::State(e)),
        }
    }

    fn storage(&mut self, address: ChainAddress, index: U256) -> (r: Result<U256, DatabaseComponentError<S::Error, BH::Error>>) {
        let rs = self.state.storage(address, index);
        proof {
            assert(old(self).state.storage_answers(&self.state, address, index, rs));
        }
        match rs {
            Ok(v) => Ok(v),
            Err(e) => Err(DatabaseComponentError::State(e)),
        }
    }
}

impl<S: State, BH: BlockHash> DatabaseComponents<S, BH> {
    /// The account at `address`, read from the state source; an error of it is a state error.
    pub fn basic(&mut self, address: ChainAddress) -> (r: Result<Option<AccountInfo>, DatabaseComponentError<S::Error, BH::Error>>)
        ensures
            r matches Err(e) ==> e is State,
    {
        state_result(self.state.basic(address))
    }

    /// The code with the given hash, read from the state source; an error of it is a state
    /// error.
    pub fn code_by_hash(&mut self, chain_id: u64, code_hash: B256) -> (r: Result<Bytecode, DatabaseComponentError<S::Error, BH::Error>>)
        ensures
            r matches Err(e) ==> e is State,
    {
        state_result(self.state.code_by_hash(chain_id, code_hash))
    }

    /// The value of a storage slot, read from the state source; an error of it is a state
    /// error.
    pub fn storage(&mut self, address: ChainAddress, index: U256) -> (r: Result<U256, DatabaseComponentError<S::Error, BH::Error>>)
        ensures
            r matches Err(e) ==> e is State,
    {
        state_result(self.state.storage(address, index))
    }

    /// The hash of a block, read from the block hash source; an error of it is a block hash
    /// error.
    pub fn block_hash(&mut self, chain_id: u64, number: u64) -> (r: Result<B256, DatabaseComponentError<S::Error, BH::Error>>)
        ensures
            r matches Err(e) ==> e is BlockHash,
    {
        block_hash_result(self.block_hash.block_hash(chain_id, number))
    }
}

impl<S: StateRef, BH: BlockHashRef> DatabaseComponents<S, BH> {
    /// The account at `address`, read through a shared reference; an error is a state error.
    pub fn basic_ref(&self, address: ChainAddress) -> (r: Result<Option<AccountInfo>, DatabaseComponentError<S::Error, BH::Error>>)
        ensures
            r matches Err(e) ==> e is State,
    {
        state_result(self.state.basic(address))
    }

    /// The code with the given hash, read through a shared reference; an error is a state
    /// error.
    pub fn code_by_hash_ref(&self, chain_id: u64, code_hash: B256) -> (r: Result<Bytecode, DatabaseComponentError<S::Error, BH::Error>>)
        ensures
            r matches Err(e) ==> e is State,
    {
        state_result(self.state.code_by_hash(chain_id, code_hash))
    }

    /// The value of a storage slot, read through a shared reference; an error is a state
    /// error.
    pub fn storage_ref(&self, address: ChainAddress, index: U256) -> (r: Result<U256, DatabaseComponentError<S::Error, BH::Error>>)
        ensures
            r matches Err(e) ==> e is State,
    {
        state_result(self.state.storage(address, index))
    }

    /// The hash of a block, read through a shared reference; an error is a block hash error.
    pub fn block_hash_ref(&self, chain_id: u64, number: u64) -> (r: Result<B256, DatabaseComponentError<S::Error, BH::Error>>)
        ensures
            r matches Err(e) ==> e is BlockHash,
    {
        block_hash_result(self.block_hash.block_hash(chain_id, number))
    }
}

impl<S: DatabaseCommit, BH> DatabaseComponents<S, BH> {
    /// Writes the changed accounts to the state source; the block hash source stays.
    pub fn commit(&mut self, changes: Vec<(ChainAddress, Account)>)
        ensures
            final(self).block_hash == old(self).block_hash,
    {
        self.state.commit(changes);
    }
}

} // verus!
