//! Accounts, their storage and their status flags.
use crate::bytecode::Bytecode;
use crate::primitives::{Address, B256, U256, keccak_empty_bytes};
use crate::specification::SpecId;
use vstd::prelude::*;

verus! {

/// An address on a given chain: the chain id and the address.
#[derive(Clone, Copy, Debug)]
pub struct ChainAddress(pub u64, pub Address);

impl PartialEq for ChainAddress {
    fn eq(&self, other: &Self) -> (r: bool) {
        self.0 == other.0 && self.1 == other.1
    }
}

impl vstd::std_specs::cmp::PartialEqSpecImpl for ChainAddress {
    open spec fn obeys_eq_spec() -> bool {
        true
    }

    open spec fn eq_spec(&self, other: &Self) -> bool {
        *self == *other
    }
}

impl Eq for ChainAddress {}

impl Default for ChainAddress {
    /// The zero address on chain 1.
    fn default() -> (r: ChainAddress)
        ensures
            r.0 == 1,
            forall|i: int| 0 <= i < 20 ==> r.1.0[i] == 0,
    {
        ChainAddress(1, Address::zero())
    }
}

/// Places an address on a chain.
pub trait OnChain {
    /// The address on chain `chain_id`.
    fn on_chain(&self, chain_id: u64) -> ChainAddress;
}

impl OnChain for Address {
    fn on_chain(&self, chain_id: u64) -> (r: ChainAddress)
        ensures
            r == ChainAddress(chain_id, *self),
    {
        ChainAddress(chain_id, *self)
    }
}

/// The flag bits of an account's status.
pub open spec fn flag_created() -> u8 {
    0b00001
}

pub open spec fn flag_selfdestructed() -> u8 {
    0b00010
}

pub open spec fn flag_touched() -> u8 {
    0b00100
}

pub open spec fn flag_loaded_as_not_existing() -> u8 {
    0b01000
}

pub open spec fn flag_cold() -> u8 {
    0b10000
}

/// True for the bit of a single status flag.
pub open spec fn is_flag(f: u8) -> bool {
    f == 1 || f == 2 || f == 4 || f == 8 || f == 16
}

/// True when all bits of `flags` are set in `bits`.
pub open spec fn has_bits(bits: u8, flags: u8) -> bool {
    bits & flags == flags
}

/// Setting one flag, or clearing it, leaves the other flags as they were.
pub proof fn lemma_flag_bits(b: u8, f: u8, g: u8)
    requires
        is_flag(f),
        is_flag(g),
    ensures
        has_bits(b | f, f),
        !has_bits(b & !f, f),
        f != g ==> (has_bits(b | f, g) == has_bits(b, g)),
        f != g ==> (has_bits(b & !f, g) == has_bits(b, g)),
        has_bits(b, 0),
{
    assert(has_bits(b | f, f)) by (bit_vector)
        requires
            f == 1 || f == 2 || f == 4 || f == 8 || f == 16,
    ;
    assert(!has_bits(b & !f, f)) by (bit_vector)
        requires
            f == 1 || f == 2 || f == 4 || f == 8 || f == 16,
    ;
    assert(f != g ==> (has_bits(b | f, g) == has_bits(b, g))) by (bit_vector)
        requires
            f == 1 || f == 2 || f == 4 || f == 8 || f == 16,
            g == 1 || g == 2 || g == 4 || g == 8 || g == 16,
    ;
    assert(f != g ==> (has_bits(b & !f, g) == has_bits(b, g))) by (bit_vector)
        requires
            f == 1 || f == 2 || f == 4 || f == 8 || f == 16,
            g == 1 || g == 2 || g == 4 || g == 8 || g == 16,
    ;
    assert(has_bits(b, 0)) by (bit_vector);
}

/// Status flags of an account.
#[derive(Clone, Copy, Debug, PartialEq, Eq, Structural)]
pub struct AccountStatus {
    pub bits: u8,
}

#[allow(non_snake_case)]
impl AccountStatus {
    /// Loaded, neither touched nor otherwise marked: no flag set.
    pub fn Loaded() -> (r: AccountStatus)
        ensures
            r.bits == 0,
    {
        AccountStatus { bits: 0 }
    }

    /// Newly created: storage is not read from the database.
    pub fn Created() -> (r: AccountStatus)
        ensures
            r.bits == 0b00001,
    {
        AccountStatus { bits: 0b00001 }
    }

    /// Marked for self destruction.
    pub fn SelfDestructed() -> (r: AccountStatus)
        ensures
            r.bits == 0b00010,
    {
        AccountStatus { bits: 0b00010 }
    }

    /// Touched: only touched accounts are saved.
    pub fn Touched() -> (r: AccountStatus)
        ensures
            r.bits == 0b00100,
    {
        AccountStatus { bits: 0b00100 }
    }

    /// Loaded as not existing, which before Spurious Dragon differed from empty.
    pub fn LoadedAsNotExisting() -> (r: AccountStatus)
        ensures
            r.bits == 0b01000,
    {
        AccountStatus { bits: 0b01000 }
    }

    /// Cold in the sense of the access lists of EIP-2929.
    pub fn Cold() -> (r: AccountStatus)
        ensures
            r.bits == 0b10000,
    {
        AccountStatus { bits: 0b10000 }
    }

    /// Whether every flag of `other` is set.
    pub fn contains(&self, other: AccountStatus) -> (r: bool)
        ensures
            r == has_bits(self.bits, other.bits),
    {
        self.bits & other.bits == other.bits
    }

    /// Sets the flags of `other`.
    pub fn insert(&mut self, other: AccountStatus)
        ensures
            final(self).bits == old(self).bits | other.bits,
    {
        self.bits = self.bits | other.bits;
    }

    /// Clears the flags of `other`.
    pub fn remove(&mut self, other: AccountStatus)
        ensures
            final(self).bits == old(self).bits & !other.bits,
    {
        self.bits = self.bits & !other.bits;
    }

    /// The raw bits.
    pub fn bits(&self) -> (r: u8)
        ensures
            r == self.bits,
    {
        self.bits
    }
}

impl Default for AccountStatus {
    fn default() -> (r: AccountStatus)
        ensures
            r.bits == 0,
    {
        AccountStatus::Loaded()
    }
}

/// The value of one storage slot: as loaded, as it is now, and whether it is cold.
#[derive(Clone, Copy, Debug, PartialEq, Eq, Structural)]
pub struct EvmStorageSlot {
    /// The value the slot had when it was loaded.
    pub original_value: U256,
    /// The value the slot has now.
    pub present_value: U256,
    /// Whether the slot is cold.
    pub is_cold: bool,
}

impl Default for EvmStorageSlot {
    fn default() -> (r: EvmStorageSlot)
        ensures
            r.original_value.value() == 0,
            r.present_value.value() == 0,
            !r.is_cold,
    {
        EvmStorageSlot { original_value: U256::zero(), present_value: U256::zero(), is_cold: false }
    }
}

impl EvmStorageSlot {
    /// True when the present value differs from the original one.
    pub open spec fn changed(&self) -> bool {
        self.original_value != self.present_value
    }

    /// An unchanged, warm slot with the given value.
    pub fn new(original: U256) -> (r: EvmStorageSlot)
        ensures
            r == (EvmStorageSlot { original_value: original, present_value: original, is_cold: false }),
    {
        EvmStorageSlot { original_value: original, present_value: original, is_cold: false }
    }

    /// A warm slot whose value changed from `original_value` to `present_value`.
    pub fn new_changed(original_value: U256, present_value: U256) -> (r: EvmStorageSlot)
        ensures
            r == (EvmStorageSlot { original_value, present_value, is_cold: false }),
    {
        EvmStorageSlot { original_value, present_value, is_cold: false }
    }

    /// Whether the present value differs from the original one.
    pub fn is_changed(&self) -> (r: bool)
        ensures
            r == self.changed(),
    {
        self.original_value != self.present_value
    }

    /// The value the slot had when loaded.
    pub fn original_value(&self) -> (r: U256)
        ensures
            r == self.original_value,
    {
        self.original_value
    }

    /// The value the slot has now.
    pub fn present_value(&self) -> (r: U256)
        ensures
            r == self.present_value,
    {
        self.present_value
    }

    /// Marks the slot cold.
    pub fn mark_cold(&mut self)
        ensures
            *final(self) == (EvmStorageSlot { is_cold: true, ..*old(self) }),
    {
        self.is_cold = true;
    }

    /// Marks the slot warm; returns whether it was cold.
    pub fn mark_warm(&mut self) -> (r: bool)
        ensures
            r == old(self).is_cold,
            *final(self) == (EvmStorageSlot { is_cold: false, ..*old(self) }),
    {
        let was = self.is_cold;
        self.is_cold = false;
        was
    }
}

/// True when no key occurs twice in the list of slots.
pub open spec fn distinct_keys(s: Seq<(U256, EvmStorageSlot)>) -> bool {
    forall|i: int, j: int| 0 <= i < j < s.len() ==> s[i].0 != s[j].0
}

/// True when some entry has key `k`.
pub open spec fn lookup_in(s: Seq<(U256, EvmStorageSlot)>, k: U256) -> bool {
    exists|i: int| 0 <= i < s.len() && s[i].0 == k
}

/// The slot of the entry with key `k`.
pub open spec fn slot_of(s: Seq<(U256, EvmStorageSlot)>, k: U256) -> EvmStorageSlot {
    s[choose|i: int| 0 <= i < s.len() && s[i].0 == k].1
}

/// The storage of an account: slots by key, no key twice.
#[derive(Debug)]
pub struct EvmStorage {
    slots: Vec<(U256, EvmStorageSlot)>,
}

impl EvmStorage {
    #[verifier::type_invariant]
    spec fn keys_distinct(self) -> bool {
        distinct_keys(self.slots@)
    }

    /// The slots, in the order they were first inserted.
    pub closed spec fn entries(&self) -> Seq<(U256, EvmStorageSlot)> {
        self.slots@
    }

    /// The storage as a map from keys to slots.
    pub open spec fn as_map(&self) -> Map<U256, EvmStorageSlot> {
        Map::new(|k: U256| lookup_in(self.entries(), k), |k: U256| slot_of(self.entries(), k))
    }

    /// Empty storage.
    pub fn new() -> (r: EvmStorage)
        ensures
            r.entries() == Seq::<(U256, EvmStorageSlot)>::empty(),
    {
        EvmStorage { slots: Vec::new() }
    }

    /// The number of slots.
    pub fn len(&self) -> (r: usize)
        ensures
            r == self.entries().len(),
    {
        self.slots.len()
    }

    /// The index of the slot with the given key, if any.
    fn position(&self, key: U256) -> (r: Option<usize>)
        ensures
            match r {
                Some(i) => i < self.entries().len() && self.entries()[i as int].0 == key,
                None => forall|i: int| 0 <= i < self.entries().len() ==> self.entries()[i].0 != key,
            },
    {
        let mut i: usize = 0;
        while i < self.slots.len()
            invariant
                0 <= i <= self.slots@.len(),
                forall|j: int| 0 <= j < i ==> self.slots@[j].0 != key,
            decreases self.slots@.len() - i,
        {
            if self.slots[i].0 == key {
                return Some(i);
            }
            i += 1;
        }
        None
    }

    /// The slot with the given key, if any.
    pub fn get(&self, key: U256) -> (r: Option<EvmStorageSlot>)
        ensures
            match r {
                Some(s) => self.as_map().contains_key(key) && self.as_map()[key] == s,
                None => !self.as_map().contains_key(key),
            },
    {
        proof {
            use_type_invariant(self);
        }
        match self.position(key) {
            Some(i) => {
                let s = self.slots[i].1;
                proof {
                    assert(self.entries()[i as int].0 == key);
                    let j = choose|j: int| 0 <= j < self.entries().len() && self.entries()[j].0 == key;
                    assert(j == i as int);
                }
                Some(s)
            },
            None => None,
        }
    }

    /// Sets the slot of `key`: replaces it where the key is there, else appends it.
    pub fn insert(&mut self, key: U256, slot: EvmStorageSlot)
        ensures
            final(self).entries().len() == old(self).entries().len() + (if old(self).as_map().contains_key(
                key,
            ) {
                0int
            } else {
                1int
            }),
            final(self).as_map() == old(self).as_map().insert(key, slot),
    {
        proof {
            use_type_invariant(&*self);
        }
        let ghost old_slots = self.slots@;
        let pos = self.position(key);
        let mut slots: Vec<(U256, EvmStorageSlot)> = Vec::new();
        std::mem::swap(&mut slots, &mut self.slots);
        match pos {
            Some(i) => {
                slots.set(i, (key, slot));
            },
            None => {
                slots.push((key, slot));
            },
        }
        proof {
            let s = slots@;
            assert(distinct_keys(s)) by {
                assert forall|a: int, b: int| 0 <= a < b < s.len() implies s[a].0 != s[b].0 by {
                    if pos is None && b == old_slots.len() {
                        assert(old_slots[a].0 != key);
                    }
                }
            }
            assert forall|k: U256|
                old(self).as_map().insert(key, slot).contains_key(k) implies lookup_in(s, k) by {
                if k == key {
                    match pos {
                        Some(i) => assert(s[i as int].0 == k),
                        None => assert(s[old_slots.len() as int].0 == k),
                    }
                } else {
                    let j = choose|j: int| 0 <= j < old_slots.len() && old_slots[j].0 == k;
                    assert(s[j].0 == k);
                }
            }
            assert forall|k: U256| lookup_in(s, k) implies old(self).as_map().insert(key, slot).contains_key(k) by {
                let j = choose|j: int| 0 <= j < s.len() && s[j].0 == k;
                if k != key {
                    assert(old_slots[j].0 == k);
                }
            }
            assert forall|k: U256| #[trigger] lookup_in(s, k) implies slot_of(s, k) == old(self).as_map().insert(key, slot)[k] by {
                let j = choose|j: int| 0 <= j < s.len() && s[j].0 == k;
                if k != key {
                    let j2 = choose|j: int| 0 <= j < old_slots.len() && old_slots[j].0 == k;
                    assert(old_slots[j].0 == k);
                    assert(s[j2].0 == k);
                    assert(j == j2);
                } else {
                    match pos {
                        Some(i) => assert(j == i as int),
                        None => assert(j == old_slots.len() as int),
                    }
                }
            }
        }
        self.slots = slots;
        proof {
            assert(self.as_map() =~= old(self).as_map().insert(key, slot));
        }
    }

    /// The slots whose present value differs from the original one, in storage order.
    pub fn changed_slots(&self) -> (r: Vec<(U256, EvmStorageSlot)>)
        ensures
            r@ == self.entries().filter(|e: (U256, EvmStorageSlot)| e.1.changed()),
    {
        let mut out: Vec<(U256, EvmStorageSlot)> = Vec::new();
        let mut i: usize = 0;
        while i < self.slots.len()
            invariant
                0 <= i <= self.slots@.len(),
                out@ == self.slots@.subrange(0, i as int).filter(|e: (U256, EvmStorageSlot)| e.1.changed()),
            decreases self.slots@.len() - i,
        {
            let e = self.slots[i];
            proof {
                let s = self.slots@.subrange(0, i + 1);
                assert(s.drop_last() == self.slots@.subrange(0, i as int));
                reveal(Seq::filter);
            }
            if e.1.is_changed() {
                out.push(e);
            }
            i += 1;
        }
        assert(self.slots@.subrange(0, self.slots@.len() as int) == self.slots@);
        out
    }
}

impl Clone for EvmStorage {
    fn clone(&self) -> (r: EvmStorage)
        ensures
            r.entries() == self.entries(),
    {
        proof {
            use_type_invariant(self);
        }
        let mut slots: Vec<(U256, EvmStorageSlot)> = Vec::new();
        let mut i: usize = 0;
        while i < self.slots.len()
            invariant
                0 <= i <= self.slots@.len(),
                slots@ == self.slots@.subrange(0, i as int),
                distinct_keys(self.slots@),
            decreases self.slots@.len() - i,
        {
            slots.push(self.slots[i]);
            i += 1;
        }
        assert(slots@ == self.slots@);
        EvmStorage { slots }
    }
}

impl Default for EvmStorage {
    fn default() -> (r: EvmStorage)
        ensures
            r.entries() == Seq::<(U256, EvmStorageSlot)>::empty(),
    {
        EvmStorage::new()
    }
}

/// Balance, nonce and code of an account.
#[derive(Debug)]
pub struct AccountInfo {
    /// Balance in wei.
    pub balance: U256,
    /// Nonce.
    pub nonce: u64,
    /// Hash of the code.
    pub code_hash: B256,
    /// The code, where it is loaded; where absent it is looked up by its hash.
    pub code: Option<Bytecode>,
}

impl Clone for AccountInfo {
    fn clone(&self) -> (r: AccountInfo)
        ensures
            r.balance == self.balance,
            r.nonce == self.nonce,
            r.code_hash == self.code_hash,
            r.code is Some <==> self.code is Some,
            r.code is Some ==> r.code.unwrap().original_bytes() == self.code.unwrap().original_bytes(),
    {
        let code = match &self.code {
            Some(c) => Some(c.clone_code()),
            None => None,
        };
        AccountInfo { balance: self.balance, nonce: self.nonce, code_hash: self.code_hash, code }
    }
}

impl PartialEq for AccountInfo {
    /// Compares balance, nonce and code hash; the code itself is not compared.
    fn eq(&self, other: &Self) -> (r: bool) {
        self.balance == other.balance && self.nonce == other.nonce && self.code_hash == other.code_hash
    }
}

impl vstd::std_specs::cmp::PartialEqSpecImpl for AccountInfo {
    open spec fn obeys_eq_spec() -> bool {
        true
    }

    open spec fn eq_spec(&self, other: &Self) -> bool {
        self.balance == other.balance && self.nonce == other.nonce && self.code_hash == other.code_hash
    }
}

impl Eq for AccountInfo {}

impl Default for AccountInfo {
    /// Zero balance and nonce, empty code and the hash of the empty string.
    fn default() -> (r: AccountInfo)
        ensures
            r.balance.value() == 0,
            r.nonce == 0,
            r.code_hash.0@ == keccak_empty_bytes(),
            r.code is Some,
            r.code.unwrap().original_bytes() == Seq::<u8>::empty(),
    {
        AccountInfo {
            balance: U256::zero(),
            nonce: 0,
            code_hash: B256::keccak_empty(),
            code: Some(Bytecode::new()),
        }
    }
}

impl AccountInfo {
    /// True when the code hash is that of the empty string.
    pub open spec fn empty_code_hash(&self) -> bool {
        self.code_hash.0@ == keccak_empty_bytes()
    }

    /// True when the account is empty: no balance, no nonce, and a code hash that is zero
    /// or that of the empty string.
    pub open spec fn empty(&self) -> bool {
        (self.empty_code_hash() || self.code_hash.is_zero_spec()) && self.balance.value() == 0
            && self.nonce == 0
    }

    /// Account information with the given balance, nonce, code hash and code.
    pub fn new(balance: U256, nonce: u64, code_hash: B256, code: Bytecode) -> (r: AccountInfo)
        ensures
            r == (AccountInfo { balance, nonce, code_hash, code: Some(code) }),
    {
        AccountInfo { balance, nonce, code_hash, code: Some(code) }
    }

    /// The same account information without the code.
    pub fn without_code(self) -> (r: AccountInfo)
        ensures
            r == (AccountInfo { code: None, ..self }),
    {
        let mut s = self;
        let _ = s.take_bytecode();
        s
    }

    /// Whether the account is empty (see [`AccountInfo::empty`]).
    pub fn is_empty(&self) -> (r: bool)
        ensures
            r == self.empty(),
    {
        let code_empty = self.is_empty_code_hash() || self.code_hash.is_zero();
        code_empty && self.balance.is_zero() && self.nonce == 0
    }

    /// Whether the account is not empty.
    pub fn account_exists(&self) -> (r: bool)
        ensures
            r == !self.empty(),
    {
        !self.is_empty()
    }

    /// Whether the account has neither code nor nonce.
    pub fn has_no_code_and_nonce(&self) -> (r: bool)
        ensures
            r == (self.empty_code_hash() && self.nonce == 0),
    {
        self.is_empty_code_hash() && self.nonce == 0
    }

    /// True when the account has no code: none at all, or code without bytes.
    pub open spec fn has_no_code(&self) -> bool {
        match self.code {
            None => true,
            Some(c) => c.original_bytes().len() == 0,
        }
    }

    /// The hash of the code; for an account without code (see [`AccountInfo::has_no_code`]),
    /// the hash of the empty string.
    pub fn code_hash(&self) -> (r: B256)
        ensures
            self.has_no_code() ==> r.0@ == keccak_empty_bytes(),
            !self.has_no_code() ==> r == self.code_hash,
    {
        match &self.code {
            None => B256::keccak_empty(),
            Some(c) => {
                if c.is_empty() {
                    B256::keccak_empty()
                } else {
                    self.code_hash
                }
            },
        }
    }

    /// Whether the code hash is that of the empty string.
    pub fn is_empty_code_hash(&self) -> (r: bool)
        ensures
            r == self.empty_code_hash(),
    {
        let e = B256::keccak_empty();
        let r = self.code_hash == e;
        proof {
            if self.code_hash.0@ == keccak_empty_bytes() {
                assert(self.code_hash.0 =~= e.0);
            }
        }
        r
    }

    /// Takes the code out, leaving none.
    pub fn take_bytecode(&mut self) -> (r: Option<Bytecode>)
        ensures
            r == old(self).code,
            *final(self) == (AccountInfo { code: None, ..*old(self) }),
    {
        let mut code: Option<Bytecode> = None;
        std::mem::swap(&mut code, &mut self.code);
        code
    }

    /// Account information with the given balance and otherwise the defaults.
    pub fn from_balance(balance: U256) -> (r: AccountInfo)
        ensures
            r.balance == balance,
            r.nonce == 0,
            r.code_hash.0@ == keccak_empty_bytes(),
            r.code is Some,
            r.code.unwrap().original_bytes() == Seq::<u8>::empty(),
    {
        let d = AccountInfo::default();
        AccountInfo { balance, ..d }
    }

    /// Account information for a contract: zero balance, nonce 1, the given code and its hash.
    pub fn from_bytecode(bytecode: Bytecode) -> (r: AccountInfo)
        ensures
            r.balance.value() == 0,
            r.nonce == 1,
            r.code_hash.0@ == bytecode.hash_spec(),
            r.code == Some(bytecode),
    {
        let hash = bytecode.hash_slow();
        AccountInfo { balance: U256::zero(), nonce: 1, code: Some(bytecode), code_hash: hash }
    }
}

/// An account as the state holds it: information, storage and status.
#[derive(Debug)]
pub struct Account {
    /// Balance, nonce and code.
    pub info: AccountInfo,
    /// Storage slots that were loaded or written.
    pub storage: EvmStorage,
    /// Status flags.
    pub status: AccountStatus,
}

impl Default for Account {
    /// The default account information, empty storage and no flag set.
    fn default() -> (r: Account)
        ensures
            r.info.balance.value() == 0,
            r.info.nonce == 0,
            r.info.code_hash.0@ == keccak_empty_bytes(),
            r.storage.entries() == Seq::<(U256, EvmStorageSlot)>::empty(),
            r.status.bits == 0,
    {
        Account { info: AccountInfo::default(), storage: EvmStorage::new(), status: AccountStatus::Loaded() }
    }
}

impl Account {
    /// The created flag.
    pub open spec fn created(&self) -> bool {
        has_bits(self.status.bits, flag_created())
    }

    /// The self-destructed flag.
    pub open spec fn selfdestructed(&self) -> bool {
        has_bits(self.status.bits, flag_selfdestructed())
    }

    /// The touched flag.
    pub open spec fn touched(&self) -> bool {
        has_bits(self.status.bits, flag_touched())
    }

    /// The loaded-as-not-existing flag.
    pub open spec fn loaded_as_not_existing(&self) -> bool {
        has_bits(self.status.bits, flag_loaded_as_not_existing())
    }

    /// The cold flag.
    pub open spec fn cold(&self) -> bool {
        has_bits(self.status.bits, flag_cold())
    }

    /// True when `a` and `b` agree on every flag but the one of bit `f`, and on information
    /// and storage.
    pub open spec fn same_but_flag(a: Account, b: Account, f: u8) -> bool {
        &&& a.info == b.info
        &&& a.storage == b.storage
        &&& (f != flag_created() ==> a.created() == b.created())
        &&& (f != flag_selfdestructed() ==> a.selfdestructed() == b.selfdestructed())
        &&& (f != flag_touched() ==> a.touched() == b.touched())
        &&& (f != flag_loaded_as_not_existing() ==> a.loaded_as_not_existing() == b.loaded_as_not_existing())
        &&& (f != flag_cold() ==> a.cold() == b.cold())
    }

    /// A loaded account with the given information, empty storage and no flag set.
    pub fn from_info(info: AccountInfo) -> (r: Account)
        ensures
            r.info == info,
            r.storage.entries() == Seq::<(U256, EvmStorageSlot)>::empty(),
            r.status.bits == 0,
    {
        Account { info, storage: EvmStorage::new(), status: AccountStatus::Loaded() }
    }

    /// A new account that is marked as not existing.
    pub fn new_not_existing() -> (r: Account)
        ensures
            r.info.code is Some,
            r.info.code.unwrap().original_bytes() == Seq::<u8>::empty(),
            r.info.balance.value() == 0,
            r.info.nonce == 0,
            r.info.code_hash.0@ == keccak_empty_bytes(),
            r.storage.entries() == Seq::<(U256, EvmStorageSlot)>::empty(),
            r.status.bits == flag_loaded_as_not_existing(),
    {
        Account {
            info: AccountInfo::default(),
            storage: EvmStorage::new(),
            status: AccountStatus::LoadedAsNotExisting(),
        }
    }

    /// Whether the account counts as empty under the given hardfork: from Spurious Dragon on
    /// when it is empty; before, when it was loaded as not existing and is not touched.
    pub fn state_clear_aware_is_empty(&self, spec: SpecId) -> (r: bool)
        ensures
            r == if spec.number() >= SpecId::SPURIOUS_DRAGON.number() {
                self.info.empty()
            } else {
                self.loaded_as_not_existing() && !self.touched()
            },
    {
        if SpecId::enabled(spec, SpecId::SPURIOUS_DRAGON) {
            self.is_empty()
        } else {
            let loaded_not_existing = self.is_loaded_as_not_existing();
            let is_not_touched = !self.is_touched();
            loaded_not_existing && is_not_touched
        }
    }

    /// Sets the flag of bit `f`.
    fn set_flag(&mut self, f: AccountStatus)
        requires
            is_flag(f.bits),
        ensures
            final(self).status.bits == old(self).status.bits | f.bits,
            has_bits(final(self).status.bits, f.bits),
            Account::same_but_flag(*final(self), *old(self), f.bits),
    {
        self.status.insert(f);
        proof {
            lemma_flag_bits(old(self).status.bits, f.bits, flag_created());
            lemma_flag_bits(old(self).status.bits, f.bits, flag_selfdestructed());
            lemma_flag_bits(old(self).status.bits, f.bits, flag_touched());
            lemma_flag_bits(old(self).status.bits, f.bits, flag_loaded_as_not_existing());
            lemma_flag_bits(old(self).status.bits, f.bits, flag_cold());
        }
    }

    /// Clears the flag of bit `f`.
    fn clear_flag(&mut self, f: AccountStatus)
        requires
            is_flag(f.bits),
        ensures
            !has_bits(final(self).status.bits, f.bits),
            Account::same_but_flag(*final(self), *old(self), f.bits),
    {
        self.status.remove(f);
        proof {
            lemma_flag_bits(old(self).status.bits, f.bits, flag_created());
            lemma_flag_bits(old(self).status.bits, f.bits, flag_selfdestructed());
            lemma_flag_bits(old(self).status.bits, f.bits, flag_touched());
            lemma_flag_bits(old(self).status.bits, f.bits, flag_loaded_as_not_existing());
            lemma_flag_bits(old(self).status.bits, f.bits, flag_cold());
        }
    }

    /// Marks the account for self destruction; no other flag changes.
    pub fn mark_selfdestruct(&mut self)
        ensures
            final(self).status.bits == old(self).status.bits | flag_selfdestructed(),
            final(self).selfdestructed(),
            Account::same_but_flag(*final(self), *old(self), flag_selfdestructed()),
    {
        self.set_flag(AccountStatus::SelfDestructed());
    }

    /// Clears the self-destruct mark; no other flag changes.
    pub fn unmark_selfdestruct(&mut self)
        ensures
            !final(self).selfdestructed(),
            Account::same_but_flag(*final(self), *old(self), flag_selfdestructed()),
    {
        self.clear_flag(AccountStatus::SelfDestructed());
    }

    /// Whether the account is marked for self destruction.
    pub fn is_selfdestructed(&self) -> (r: bool)
        ensures
            r == self.selfdestructed(),
    {
        self.status.contains(AccountStatus::SelfDestructed())
    }

    /// Marks the account touched; no other flag changes.
    pub fn mark_touch(&mut self)
        ensures
            final(self).status.bits == old(self).status.bits | flag_touched(),
            final(self).touched(),
            Account::same_but_flag(*final(self), *old(self), flag_touched()),
    {
        self.set_flag(AccountStatus::Touched());
    }

    /// Clears the touched mark; no other flag changes.
    pub fn unmark_touch(&mut self)
        ensures
            !final(self).touched(),
            Account::same_but_flag(*final(self), *old(self), flag_touched()),
    {
        self.clear_flag(AccountStatus::Touched());
    }

    /// Whether the account is touched.
    pub fn is_touched(&self) -> (r: bool)
        ensures
            r == self.touched(),
    {
        self.status.contains(AccountStatus::Touched())
    }

    /// Marks the account newly created; no other flag changes.
    pub fn mark_created(&mut self)
        ensures
            final(self).status.bits == old(self).status.bits | flag_created(),
            final(self).created(),
            Account::same_but_flag(*final(self), *old(self), flag_created()),
    {
        self.set_flag(AccountStatus::Created());
    }

    /// Clears the created mark; no other flag changes.
    pub fn unmark_created(&mut self)
        ensures
            !final(self).created(),
            Account::same_but_flag(*final(self), *old(self), flag_created()),
    {
        self.clear_flag(AccountStatus::Created());
    }

    /// Marks the account cold; no other flag changes.
    pub fn mark_cold(&mut self)
        ensures
            final(self).status.bits == old(self).status.bits | flag_cold(),
            final(self).cold(),
            Account::same_but_flag(*final(self), *old(self), flag_cold()),
    {
        self.set_flag(AccountStatus::Cold());
    }

    /// Marks the account warm; returns whether it was cold. No other flag changes.
    pub fn mark_warm(&mut self) -> (r: bool)
        ensures
            r == old(self).cold(),
            !final(self).cold(),
            Account::same_but_flag(*final(self), *old(self), flag_cold()),
    {
        if self.status.contains(AccountStatus::Cold()) {
            self.clear_flag(AccountStatus::Cold());
            true
        } else {
            false
        }
    }

    /// Whether the account was loaded as not existing.
    pub fn is_loaded_as_not_existing(&self) -> (r: bool)
        ensures
            r == self.loaded_as_not_existing(),
    {
        self.status.contains(AccountStatus::LoadedAsNotExisting())
    }

    /// Whether the account was created in this transaction.
    pub fn is_created(&self) -> (r: bool)
        ensures
            r == self.created(),
    {
        self.status.contains(AccountStatus::Created())
    }

    /// Whether the account is empty: no balance, no nonce, no code.
    pub fn is_empty(&self) -> (r: bool)
        ensures
            r == self.info.empty(),
    {
        self.info.is_empty()
    }

    /// The storage slots whose present value differs from the original one.
    pub fn changed_storage_slots(&self) -> (r: Vec<(U256, EvmStorageSlot)>)
        ensures
            r@ == self.storage.entries().filter(|e: (U256, EvmStorageSlot)| e.1.changed()),
    {
        self.storage.changed_slots()
    }
}

/// Marking and unmarking a flag are inverse on that flag and leave every other flag alone:
/// after setting flag `f` of a status, `f` is set; after clearing it, `f` is clear; any
/// other single flag reads as before.
pub proof fn lemma_status_flags_independent(bits: u8, f: u8, g: u8)
    requires
        is_flag(f),
        is_flag(g),
        f != g,
    ensures
        has_bits(bits | f, f),
        !has_bits(bits & !f, f),
        has_bits(bits | f, g) == has_bits(bits, g),
        has_bits(bits & !f, g) == has_bits(bits, g),
        has_bits((bits | f) & !f, g) == has_bits(bits, g),
{
    lemma_flag_bits(bits, f, g);
    lemma_flag_bits(bits | f, f, g);
}

/// Storage reads give back writes: after a slot is written, reading its key gives the slot
/// written, and any other key reads as before.
pub proof fn lemma_storage_read_after_write(
    before: EvmStorage,
    after: EvmStorage,
    key: U256,
    slot: EvmStorageSlot,
    other: U256,
)
    requires
        after.as_map() == before.as_map().insert(key, slot),
    ensures
        after.as_map().contains_key(key),
        after.as_map()[key] == slot,
        other != key ==> after.as_map().contains_key(other) == before.as_map().contains_key(other),
        other != key && before.as_map().contains_key(other) ==> after.as_map()[other] == before.as_map()[other],
{
}

} // verus!
