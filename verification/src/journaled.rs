//! The accounts loaded into the journal, read as plain values, and crediting them.
use crate::assoc::{assoc_map, keys_distinct, lemma_assoc_contains, lemma_assoc_push, lemma_assoc_update};
use crate::db::State;
use crate::primitives::{U256, keccak_empty_bytes, u256_max, u256_saturating_add};
use crate::journal::JournalEntry;
use crate::specification::SpecId;
use crate::state::{Account, AccountInfo, ChainAddress, EvmStorageSlot, flag_loaded_as_not_existing, flag_touched, lookup_in, slot_of};
use vstd::prelude::*;

verus! {

/// An account as plain values: balance, nonce, code hash, the bytes of the code and whether
/// it is a delegation designation, the storage entries and the status bits.
pub struct AccountModel {
    pub balance: nat,
    pub nonce: u64,
    pub code_hash: Seq<u8>,
    pub code: Option<(Seq<u8>, bool)>,
    pub storage: Seq<(U256, EvmStorageSlot)>,
    pub status: u8,
}

/// The plain values of an account.
pub open spec fn model_of(a: Account) -> AccountModel {
    AccountModel {
        balance: a.info.balance.value(),
        nonce: a.info.nonce,
        code_hash: a.info.code_hash.0@,
        code: match a.info.code {
            Some(c) => Some((c.original_bytes(), c is Eip7702)),
            None => None,
        },
        storage: a.storage.entries(),
        status: a.status.bits,
    }
}

/// The accounts of the journal, by address, as plain values.
pub open spec fn models(s: Seq<(ChainAddress, Account)>) -> Map<ChainAddress, AccountModel> {
    assoc_map(s.map_values(|p: (ChainAddress, Account)| (p.0, model_of(p.1))))
}

/// True when the model is empty: no balance, no nonce, and a code hash that is zero or that
/// of the empty string.
pub open spec fn model_empty(m: AccountModel) -> bool {
    (m.code_hash == crate::primitives::keccak_empty_bytes() || (forall|i: int| 0 <= i < 32 ==> m.code_hash[i] == 0))
        && m.balance == 0 && m.nonce == 0
}

/// The journal of an execution: the accounts loaded, the entries recorded, the addresses
/// warm before the transaction starts, and the hardfork followed.
#[derive(Debug)]
pub struct JournaledState {
    pub state: Vec<(ChainAddress, Account)>,
    pub state_changes: Vec<JournalEntry>,
    pub warm_preloaded_addresses: Vec<ChainAddress>,
    pub spec_id: SpecId,
}

/// The index of the account with the given address, if any.
pub fn journal_position(s: &Vec<(ChainAddress, Account)>, k: ChainAddress) -> (r: Option<usize>)
    ensures
        match r {
            Some(i) => i < s@.len() && s@[i as int].0 == k,
            None => forall|i: int| 0 <= i < s@.len() ==> s@[i].0 != k,
        },
{
    let mut i: usize = 0;
    while i < s.len()
        invariant
            0 <= i <= s@.len(),
            forall|j: int| 0 <= j < i ==> s@[j].0 != k,
        decreases s@.len() - i,
    {
        if s[i].0 == k {
            return Some(i);
        }
        i += 1;
    }
    None
}

/// The pairs of address and plain account.
pub open spec fn model_pairs(s: Seq<(ChainAddress, Account)>) -> Seq<(ChainAddress, AccountModel)> {
    s.map_values(|p: (ChainAddress, Account)| (p.0, model_of(p.1)))
}

/// An account the step needs is not in the journal.
#[derive(Clone, Copy, Debug)]
pub struct AccountNotLoaded(pub ChainAddress);

/// The sum of a balance and a fee, saturating.
pub open spec fn credited(balance: nat, fee: nat) -> nat {
    if balance + fee <= u256_max() { balance + fee } else { u256_max() }
}

/// The account after receiving `fee`: touched, its balance grown by the fee, saturating.
pub open spec fn credited_model(m: AccountModel, fee: nat) -> AccountModel {
    AccountModel { balance: credited(m.balance, fee), status: m.status | flag_touched(), ..m }
}

/// Credits `fee` to the account of `key` in the journal (no address twice): the account is
/// touched and its balance grows by the fee, saturating. Where the account is not in the
/// journal, nothing changes and that is the error.
pub fn credit_account(accounts: &mut Vec<(ChainAddress, Account)>, key: ChainAddress, fee: U256) -> (r: Result<(), AccountNotLoaded>)
    requires
        keys_distinct(model_pairs(old(accounts)@)),
    ensures
        keys_distinct(model_pairs(final(accounts)@)),
        models(old(accounts)@).contains_key(key) ==> r is Ok && models(final(accounts)@) == models(old(accounts)@).insert(
            key,
            credited_model(models(old(accounts)@)[key], fee.value()),
        ),
        !models(old(accounts)@).contains_key(key) ==> r is Err && final(accounts)@ == old(accounts)@,
{
    let ghost pairs = model_pairs(accounts@);
    proof {
        lemma_assoc_contains(pairs, key);
    }
    let pos = match journal_position(accounts, key) {
        Some(p) => p,
        None => {
            proof {
                assert(!models(accounts@).contains_key(key)) by {
                    if models(accounts@).contains_key(key) {
                        let j = choose|j: int| 0 <= j < pairs.len() && pairs[j].0 == key;
                        assert(accounts@[j].0 == key);
                    }
                }
            }
            return Err(AccountNotLoaded(key));
        },
    };
    proof {
        assert(pairs[pos as int].0 == key);
    }
    let ghost s_before = accounts@;
    let ghost m = model_of(accounts@[pos as int].1);
    let (k, mut acct) = accounts.remove(pos);
    acct.mark_touch();
    acct.info.balance = u256_saturating_add(acct.info.balance, fee);
    let ghost new_model = model_of(acct);
    accounts.insert(pos, (k, acct));
    proof {
        assert(accounts@ =~= s_before.update(pos as int, (k, acct)));
        assert(model_pairs(accounts@) =~= pairs.update(pos as int, (key, new_model)));
        lemma_assoc_update(pairs, pos as int, new_model);
        assert(new_model == credited_model(m, fee.value()));
    }
    Ok(())
}


/// The plain values of an account that the database gives for an address: its information
/// with empty storage and no flag set, or, where the database has none, an empty account
/// marked as not existing.
pub open spec fn loaded_model(fetched: Option<AccountInfo>) -> AccountModel {
    match fetched {
        Some(info) => AccountModel {
            balance: info.balance.value(),
            nonce: info.nonce,
            code_hash: info.code_hash.0@,
            code: match info.code {
                Some(c) => Some((c.original_bytes(), c is Eip7702)),
                None => None,
            },
            storage: Seq::empty(),
            status: 0,
        },
        None => AccountModel {
            balance: 0,
            nonce: 0,
            code_hash: keccak_empty_bytes(),
            code: Some((Seq::empty(), false)),
            storage: Seq::empty(),
            status: flag_loaded_as_not_existing(),
        },
    }
}

/// The journal `after` is `before` with the account of `key` loaded: unchanged where it was
/// there, else with the account some answer of the database gives (see [`loaded_model`]).
pub open spec fn loads(before: Map<ChainAddress, AccountModel>, after: Map<ChainAddress, AccountModel>, key: ChainAddress) -> bool {
    if before.contains_key(key) {
        after == before
    } else {
        exists|f: Option<AccountInfo>| after == #[trigger] before.insert(key, loaded_model(f))
    }
}

/// After loading, the account is there and every account that was there stays.
pub proof fn lemma_loads_keeps(before: Map<ChainAddress, AccountModel>, after: Map<ChainAddress, AccountModel>, key: ChainAddress)
    requires
        loads(before, after, key),
    ensures
        after.contains_key(key),
        forall|k: ChainAddress| #[trigger] before.contains_key(k) ==> after.contains_key(k) && after[k] == before[k],
        forall|k: ChainAddress| #[trigger] after.contains_key(k) ==> before.contains_key(k) || k == key,
{
    if !before.contains_key(key) {
        let f = choose|f: Option<AccountInfo>| after == #[trigger] before.insert(key, loaded_model(f));
    }
}

/// Puts the account that the database gave for `key` (see [`loaded_model`]) into the
/// journal, which lacks it.
pub fn insert_loaded(accounts: &mut Vec<(ChainAddress, Account)>, key: ChainAddress, fetched: Option<AccountInfo>)
    requires
        keys_distinct(model_pairs(old(accounts)@)),
        !models(old(accounts)@).contains_key(key),
    ensures
        keys_distinct(model_pairs(final(accounts)@)),
        models(final(accounts)@) == models(old(accounts)@).insert(key, loaded_model(fetched)),
{
    let ghost f = fetched;
    let acct = match fetched {
        Some(info) => Account::from_info(info),
        None => Account::new_not_existing(),
    };
    proof {
        match f {
            Some(info) => {},
            None => {
                let c = acct.info.code.unwrap();
                if c is Eip7702 {
                    assert(c.original_bytes().len() == 23);
                }
            },
        }
        assert(model_of(acct) == loaded_model(f));
    }
    let ghost before = accounts@;
    accounts.push((key, acct));
    proof {
        assert(model_pairs(accounts@) =~= model_pairs(before).push((key, model_of(acct))));
        lemma_assoc_push(model_pairs(before), key, model_of(acct));
    }
}

/// `after` is `before` with the account of `key` loaded from the database, which was `db0`
/// and is left as `db1`: where `before` holds the account, nothing changes and the database
/// is not read; else the account is the one the database answered (see [`loaded_model`]).
pub open spec fn loads_from<D: State>(
    db0: D,
    db1: D,
    before: Map<ChainAddress, AccountModel>,
    after: Map<ChainAddress, AccountModel>,
    key: ChainAddress,
) -> bool {
    if before.contains_key(key) {
        after == before && db1 == db0
    } else {
        exists|f: Option<AccountInfo>| #[trigger] db0.basic_answers(&db1, key, Ok(f)) && after == before.insert(
            key,
            loaded_model(f),
        )
    }
}

/// Loading from a database is loading.
pub proof fn lemma_loads_from_loads<D: State>(
    db0: D,
    db1: D,
    before: Map<ChainAddress, AccountModel>,
    after: Map<ChainAddress, AccountModel>,
    key: ChainAddress,
)
    requires
        loads_from(db0, db1, before, after, key),
    ensures
        loads(before, after, key),
{
    if !before.contains_key(key) {
        let f = choose|f: Option<AccountInfo>| #[trigger] db0.basic_answers(&db1, key, Ok(f)) && after == before.insert(
            key,
            loaded_model(f),
        );
        assert(after == before.insert(key, loaded_model(f)));
    }
}

/// The account loaded for an address is what the database answered for it: the same
/// balance, nonce, code hash and code, with no storage slot loaded and no flag set; an
/// address the database does not know becomes an empty account with no nonce, marked as
/// not existing.
pub proof fn lemma_loaded_account_is_answer(fetched: Option<AccountInfo>)
    ensures
        fetched matches Some(info) ==> {
            let m = loaded_model(fetched);
            &&& m.balance == info.balance.value()
            &&& m.nonce == info.nonce
            &&& m.code_hash == info.code_hash.0@
            &&& m.code == match info.code {
                Some(c) => Some((c.original_bytes(), c is Eip7702)),
                None => None,
            }
            &&& m.storage.len() == 0
            &&& m.status == 0
        },
        fetched is None ==> loaded_model(fetched).balance == 0 && loaded_model(fetched).nonce == 0
            && loaded_model(fetched).status == flag_loaded_as_not_existing(),
{
}

/// Loads the account of `key` into the journal from the database where the journal lacks it
/// (see [`loaded_model`]). An account already in the journal stays as it is. An error of the
/// database is the answer, and the journal stays.
pub fn load_account<D: State>(accounts: &mut Vec<(ChainAddress, Account)>, db: &mut D, key: ChainAddress) -> (r: Result<(), D::Error>)
    requires
        keys_distinct(model_pairs(old(accounts)@)),
    ensures
        keys_distinct(model_pairs(final(accounts)@)),
        models(old(accounts)@).contains_key(key) ==> r is Ok && final(accounts)@ == old(accounts)@,
        r is Err ==> final(accounts)@ == old(accounts)@ && !models(old(accounts)@).contains_key(key),
        r is Ok ==> loads(models(old(accounts)@), models(final(accounts)@), key),
        r is Ok ==> loads_from(*old(db), *final(db), models(old(accounts)@), models(final(accounts)@), key),
        models(old(accounts)@).contains_key(key) ==> *final(db) == *old(db),
        !models(old(accounts)@).contains_key(key) && r is Ok ==> exists|f: Option<AccountInfo>|
            #[trigger] old(db).basic_answers(final(db), key, Ok(f)) && models(final(accounts)@) == models(
                old(accounts)@,
            ).insert(key, loaded_model(f)),
        !models(old(accounts)@).contains_key(key) ==> (r matches Err(e) ==> old(db).basic_answers(
            final(db),
            key,
            Err(e),
        )),
{
    let ghost pairs = model_pairs(accounts@);
    proof {
        lemma_assoc_contains(pairs, key);
    }
    match journal_position(accounts, key) {
        Some(p) => {
            proof {
                assert(pairs[p as int].0 == key);
            }
            Ok(())
        },
        None => {
            proof {
                assert(!models(accounts@).contains_key(key)) by {
                    if models(accounts@).contains_key(key) {
                        let j = choose|j: int| 0 <= j < pairs.len() && pairs[j].0 == key;
                        assert(accounts@[j].0 == key);
                    }
                }
            }
            match db.basic(key) {
                Ok(fetched) => {
                    let ghost f = fetched;
                    insert_loaded(accounts, key, fetched);
                    proof {
                        assert(models(accounts@) == models(old(accounts)@).insert(key, loaded_model(f)));
                    }
                    Ok(())
                },
                Err(e) => Err(e),
            }
        },
    }
}


/// The account `b` is `a` with possibly more storage slots loaded: the same balance, nonce,
/// code and status, and every slot of `a` in `b` with the same value.
pub open spec fn model_grows(a: AccountModel, b: AccountModel) -> bool {
    &&& b.balance == a.balance
    &&& b.nonce == a.nonce
    &&& b.code_hash == a.code_hash
    &&& b.code == a.code
    &&& b.status == a.status
    &&& forall|key: U256| #[trigger] lookup_in(a.storage, key) ==> lookup_in(b.storage, key) && slot_of(b.storage, key)
        == slot_of(a.storage, key)
}

/// Every account of `m1` is in `m2`, possibly with more storage slots loaded.
pub open spec fn journal_grows(m1: Map<ChainAddress, AccountModel>, m2: Map<ChainAddress, AccountModel>) -> bool {
    forall|k: ChainAddress| #[trigger] m1.contains_key(k) ==> m2.contains_key(k) && model_grows(m1[k], m2[k])
}

/// Loading only adds: a journal grows into itself, into a journal with an account loaded, and
/// a journal that grows twice grows from the first to the last.
pub proof fn lemma_journal_grows(
    m1: Map<ChainAddress, AccountModel>,
    m2: Map<ChainAddress, AccountModel>,
    m3: Map<ChainAddress, AccountModel>,
    key: ChainAddress,
)
    ensures
        journal_grows(m1, m1),
        loads(m1, m2, key) ==> journal_grows(m1, m2),
        journal_grows(m1, m2) && journal_grows(m2, m3) ==> journal_grows(m1, m3),
{
    if loads(m1, m2, key) {
        lemma_loads_keeps(m1, m2, key);
    }
}

/// Every journal grows into itself.
pub proof fn lemma_journal_grows_refl(m: Map<ChainAddress, AccountModel>)
    ensures
        journal_grows(m, m),
{
}

/// Loads the storage slot `slot_key` of the account `key`, which the journal (no address
/// twice) holds, from the database where the account lacks it: the slot holds the value the
/// database gives, unchanged since. A slot already there stays. An error of the database is
/// the answer, and the journal stays.
pub fn load_slot<D: State>(
    accounts: &mut Vec<(ChainAddress, Account)>,
    db: &mut D,
    key: ChainAddress,
    slot_key: U256,
) -> (r: Result<(), D::Error>)
    requires
        keys_distinct(model_pairs(old(accounts)@)),
        models(old(accounts)@).contains_key(key),
    ensures
        keys_distinct(model_pairs(final(accounts)@)),
        lookup_in(models(old(accounts)@)[key].storage, slot_key) ==> r is Ok && final(accounts)@ == old(accounts)@,
        r is Err ==> final(accounts)@ == old(accounts)@,
        r is Ok ==> {
            &&& journal_grows(models(old(accounts)@), models(final(accounts)@))
            &&& models(final(accounts)@).dom() == models(old(accounts)@).dom()
            &&& lookup_in(models(final(accounts)@)[key].storage, slot_key)
            &&& lookup_in(models(old(accounts)@)[key].storage, slot_key) ==> models(final(accounts)@) == models(old(accounts)@)
            &&& !lookup_in(models(old(accounts)@)[key].storage, slot_key) ==> {
                let s = slot_of(models(final(accounts)@)[key].storage, slot_key);
                s.original_value == s.present_value && !s.is_cold
            }
        },
        lookup_in(models(old(accounts)@)[key].storage, slot_key) ==> *final(db) == *old(db),
        !lookup_in(models(old(accounts)@)[key].storage, slot_key) && r is Ok ==> old(db).storage_answers(
            final(db),
            key,
            slot_key,
            Ok(slot_of(models(final(accounts)@)[key].storage, slot_key).present_value),
        ),
        !lookup_in(models(old(accounts)@)[key].storage, slot_key) ==> (r matches Err(e) ==> old(db).storage_answers(
            final(db),
            key,
            slot_key,
            Err(e),
        )),
{
    let ghost pairs = model_pairs(accounts@);
    proof {
        lemma_assoc_contains(pairs, key);
    }
    let pos = match journal_position(accounts, key) {
        Some(p) => p,
        None => {
            proof {
                let j = choose|j: int| 0 <= j < pairs.len() && pairs[j].0 == key;
                assert(accounts@[j].0 == key);
            }
            return Ok(());
        },
    };
    proof {
        assert(pairs[pos as int].0 == key);
        lemma_journal_grows(models(accounts@), models(accounts@), models(accounts@), key);
    }
    let ghost s_before = accounts@;
    let ghost m = model_of(accounts@[pos as int].1);
    match accounts[pos].1.storage.get(slot_key) {
        Some(_) => {
            return Ok(());
        },
        None => {
            proof {
                assert(!lookup_in(m.storage, slot_key)) by {
                    assert(models(s_before)[key] == m);
                    if lookup_in(m.storage, slot_key) {
                        assert(accounts@[pos as int].1.storage.as_map().contains_key(slot_key));
                    }
                }
            }
        },
    }
    let value = match db.storage(key, slot_key) {
        Ok(v) => v,
        Err(e) => {
            return Err(e);
        },
    };
    let (k, mut acct) = accounts.remove(pos);
    let ghost old_storage = acct.storage;
    acct.storage.insert(slot_key, EvmStorageSlot::new(value));
    let ghost new_model = model_of(acct);
    accounts.insert(pos, (k, acct));
    proof {
        assert(accounts@ =~= s_before.update(pos as int, (k, acct)));
        assert(model_pairs(accounts@) =~= pairs.update(pos as int, (key, new_model)));
        lemma_assoc_update(pairs, pos as int, new_model);
        assert(models(accounts@) == models(s_before).insert(key, new_model));
        assert(models(s_before)[key] == m);
        assert(old_storage.as_map().contains_key(slot_key) == lookup_in(m.storage, slot_key));
        assert(!lookup_in(m.storage, slot_key));
        assert(acct.storage.as_map().contains_key(slot_key));
        assert(lookup_in(new_model.storage, slot_key));
        assert forall|sk: U256| #[trigger] lookup_in(m.storage, sk) implies lookup_in(new_model.storage, sk) && slot_of(
            new_model.storage,
            sk,
        ) == slot_of(m.storage, sk) by {
            assert(old_storage.as_map().contains_key(sk));
            assert(sk != slot_key);
            assert(acct.storage.as_map().contains_key(sk));
            assert(acct.storage.as_map()[sk] == old_storage.as_map()[sk]);
        }
        assert(model_grows(m, new_model));
        assert(models(accounts@).dom() =~= models(s_before).dom());
        assert(slot_of(new_model.storage, slot_key) == acct.storage.as_map()[slot_key]);
    }
    Ok(())
}

} // verus!
