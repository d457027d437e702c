//! Steps before execution: charging the caller for gas and applying the authorization list
//! of EIP-7702.
use crate::assoc::{keys_distinct, lemma_assoc_contains, lemma_assoc_update};
use crate::bytecode::{Bytecode, eip7702_magic, keccak256_of};
use crate::env::{AccessListItem, Env, RecoveredAuthorization, TransactTo};
use crate::primitives::{
    U256,
    u256_max,
    u256_saturating_add,
    u256_saturating_mul,
    u256_saturating_sub,
};
use crate::db::State;
use crate::journaled::{JournaledState, AccountModel, AccountNotLoaded, journal_grows, journal_position, lemma_journal_grows, lemma_journal_grows_refl, lemma_loads_keeps, load_account, load_slot, loads, loads_from, model_grows, model_empty, model_of, model_pairs, models};
use crate::specification::SpecId;
use crate::primitives::Address;
use crate::state::{Account, ChainAddress, flag_touched, lookup_in};
use vstd::prelude::*;

verus! {

/// The gas cost charged up front: the gas limit times the gas price, plus the blob data fee
/// from Cancun on, each step saturating.
pub open spec fn upfront_cost(gas_limit: u64, gas_price: U256, data_fee: Option<U256>, cancun: bool) -> nat {
    let base: nat = if gas_limit * gas_price.value() <= u256_max() { (gas_limit * gas_price.value()) as nat } else { u256_max() };
    if cancun {
        if base + data_fee.unwrap().value() <= u256_max() { (base + data_fee.unwrap().value()) as nat } else { u256_max() }
    } else {
        base
    }
}

/// Charges the caller for the gas of the transaction: the balance loses the up-front cost
/// (saturating at zero), the nonce of a call goes up by one (saturating; a creation bumps it
/// later), and the account is touched. `effective_gas_price` is the price the transaction
/// pays per gas and `data_fee` the blob data fee, which Cancun requires.
pub fn deduct_caller_inner(
    caller_account: &mut Account,
    env: &Env,
    effective_gas_price: U256,
    data_fee: Option<U256>,
    cancun: bool,
)
    requires
        cancun ==> data_fee is Some,
    ensures
        final(caller_account).info.balance.value() == if old(caller_account).info.balance.value() >= upfront_cost(
            env.tx.gas_limit,
            effective_gas_price,
            data_fee,
            cancun,
        ) {
            (old(caller_account).info.balance.value() - upfront_cost(env.tx.gas_limit, effective_gas_price, data_fee, cancun)) as nat
        } else {
            0
        },
        final(caller_account).info.nonce == if env.tx.transact_to is Call {
            if old(caller_account).info.nonce < u64::MAX { (old(caller_account).info.nonce + 1) as u64 } else { u64::MAX }
        } else {
            old(caller_account).info.nonce
        },
        final(caller_account).info.code_hash == old(caller_account).info.code_hash,
        final(caller_account).info.code == old(caller_account).info.code,
        final(caller_account).storage == old(caller_account).storage,
        final(caller_account).touched(),
        final(caller_account).status.bits == old(caller_account).status.bits | flag_touched(),
        final(caller_account).created() == old(caller_account).created(),
        final(caller_account).selfdestructed() == old(caller_account).selfdestructed(),
        final(caller_account).cold() == old(caller_account).cold(),
        final(caller_account).loaded_as_not_existing() == old(caller_account).loaded_as_not_existing(),
{
    let mut gas_cost = u256_saturating_mul(U256::from_u64(env.tx.gas_limit), effective_gas_price);
    if cancun {
        let fee = match data_fee {
            Some(f) => f,
            None => U256::zero(),
        };
        gas_cost = u256_saturating_add(gas_cost, fee);
    }
    caller_account.info.balance = u256_saturating_sub(caller_account.info.balance, gas_cost);
    match env.tx.transact_to {
        TransactTo::Call(_) => {
            caller_account.info.nonce = caller_account.info.nonce.saturating_add(1);
        },
        TransactTo::Create => {},
    }
    caller_account.mark_touch();
}

/// The caller's account after the charge for gas (see [`deduct_caller_inner`]).
pub open spec fn deducted_model(m: AccountModel, cost: nat, is_call: bool) -> AccountModel {
    AccountModel {
        balance: if m.balance >= cost { (m.balance - cost) as nat } else { 0 },
        nonce: if is_call {
            if m.nonce < u64::MAX { (m.nonce + 1) as u64 } else { u64::MAX }
        } else {
            m.nonce
        },
        status: m.status | flag_touched(),
        ..m
    }
}

/// Charges the caller, found in the journal (no address twice), for the gas of the
/// transaction (see [`deduct_caller_inner`]). Where the caller is not in the journal,
/// nothing changes and that is the error.
pub fn deduct_loaded_caller(
    accounts: &mut Vec<(ChainAddress, Account)>,
    env: &Env,
    effective_gas_price: U256,
    data_fee: Option<U256>,
    cancun: bool,
) -> (r: Result<(), AccountNotLoaded>)
    requires
        keys_distinct(model_pairs(old(accounts)@)),
        cancun ==> data_fee is Some,
    ensures
        keys_distinct(model_pairs(final(accounts)@)),
        ({
            let m = models(old(accounts)@);
            let c = env.tx.caller;
            if m.contains_key(c) {
                r is Ok && models(final(accounts)@) == m.insert(
                    c,
                    deducted_model(
                        m[c],
                        upfront_cost(env.tx.gas_limit, effective_gas_price, data_fee, cancun),
                        env.tx.transact_to is Call,
                    ),
                )
            } else {
                r is Err && final(accounts)@ == old(accounts)@
            }
        }),
{
    let key = env.tx.caller;
    let ghost pairs = model_pairs(accounts@);
    proof {
        lemma_assoc_contains(pairs, key);
    }
    let pos = match journal_position(accounts, key) {
        Some(p) => p,
        None => {
            proof {
                assert(!models(accounts@).contains_key(key)) by {
                    if models(accounts@).contains_key(key) {
                        let j = choose|j: int| 0 <= j < pairs.len() && pairs[j].0 == key;
                        assert(accounts@[j].0 == key);
                    }
                }
            }
            return Err(AccountNotLoaded(key));
        },
    };
    proof {
        assert(pairs[pos as int].0 == key);
    }
    let ghost s_before = accounts@;
    let ghost m = model_of(accounts@[pos as int].1);
    let (k, mut acct) = accounts.remove(pos);
    deduct_caller_inner(&mut acct, env, effective_gas_price, data_fee, cancun);
    let ghost new_model = model_of(acct);
    accounts.insert(pos, (k, acct));
    proof {
        assert(accounts@ =~= s_before.update(pos as int, (k, acct)));
        assert(model_pairs(accounts@) =~= pairs.update(pos as int, (key, new_model)));
        lemma_assoc_update(pairs, pos as int, new_model);
        assert(new_model == deducted_model(
            m,
            upfront_cost(env.tx.gas_limit, effective_gas_price, data_fee, cancun),
            env.tx.transact_to is Call,
        ));
    }
    Ok(())
}

/// Charges the caller for the gas of the transaction (see [`deduct_caller_inner`]), first
/// loading its account from the database where the journal (no address twice) lacks it (see
/// [`loads`]). An error of the database is the answer, and the journal stays.
pub fn deduct_caller<D: State>(
    accounts: &mut Vec<(ChainAddress, Account)>,
    db: &mut D,
    env: &Env,
    effective_gas_price: U256,
    data_fee: Option<U256>,
    cancun: bool,
) -> (r: Result<(), D::Error>)
    requires
        keys_distinct(model_pairs(old(accounts)@)),
        cancun ==> data_fee is Some,
    ensures
        keys_distinct(model_pairs(final(accounts)@)),
        r is Err ==> final(accounts)@ == old(accounts)@ && !models(old(accounts)@).contains_key(env.tx.caller),
        r is Ok ==> exists|m: Map<ChainAddress, AccountModel>|
            #[trigger] loads(models(old(accounts)@), m, env.tx.caller) && models(final(accounts)@) == m.insert(
                env.tx.caller,
                deducted_model(
                    m[env.tx.caller],
                    upfront_cost(env.tx.gas_limit, effective_gas_price, data_fee, cancun),
                    env.tx.transact_to is Call,
                ),
            ),
        r is Ok ==> exists|m: Map<ChainAddress, AccountModel>|
            #[trigger] loads_from(*old(db), *final(db), models(old(accounts)@), m, env.tx.caller) && models(
                final(accounts)@,
            ) == m.insert(
                env.tx.caller,
                deducted_model(
                    m[env.tx.caller],
                    upfront_cost(env.tx.gas_limit, effective_gas_price, data_fee, cancun),
                    env.tx.transact_to is Call,
                ),
            ),
{
    match load_account(accounts, db, env.tx.caller) {
        Ok(()) => {},
        Err(e) => {
            return Err(e);
        },
    }
    let ghost m = models(accounts@);
    proof {
        lemma_loads_keeps(models(old(accounts)@), m, env.tx.caller);
    }
    match deduct_loaded_caller(accounts, env, effective_gas_price, data_fee, cancun) {
        Ok(()) => {},
        Err(_) => {
            proof {
                assert(false);
            }
        },
    }
    proof {
        assert(loads(models(old(accounts)@), m, env.tx.caller));
        assert(loads_from(*old(db), *db, models(old(accounts)@), m, env.tx.caller));
    }
    Ok(())
}

/// The gas refunded per authority account that already existed: the cost of an empty
/// account less the base cost of an authorization.
pub open spec fn refund_per_existing_account() -> u64 {
    22500
}

/// The account an authorization is for: the authority on the chain of the authorization
/// (its lowest 64 bits).
pub open spec fn authority_account(auth: RecoveredAuthorization) -> ChainAddress {
    ChainAddress(auth.chain_id.l0, auth.authority.unwrap())
}

/// Whether the chain of an authorization is accepted: zero, or (by its lowest 64 bits) one
/// of the chains of the transaction.
pub open spec fn chain_accepted(auth: RecoveredAuthorization, chain_ids: Seq<u64>) -> bool {
    auth.chain_id.value() == 0 || chain_ids.contains(auth.chain_id.l0)
}

/// Whether an authority account may be delegated: its code is absent, empty or already a
/// delegation, and its nonce is the one the authorization names.
pub open spec fn account_accepts(m: AccountModel, auth: RecoveredAuthorization) -> bool {
    &&& match m.code {
        Some((bytes, is_delegation)) => bytes.len() == 0 || is_delegation,
        None => true,
    }
    &&& m.nonce == auth.nonce
}

/// The account after the delegation: code and hash of the designation to the authorized
/// address, nonce one higher (saturating), touched.
pub open spec fn delegated(m: AccountModel, auth: RecoveredAuthorization) -> AccountModel {
    let bytes = eip7702_magic() + auth.address.0@;
    AccountModel {
        code: Some((bytes, true)),
        code_hash: keccak256_of(bytes),
        nonce: if m.nonce < u64::MAX { (m.nonce + 1) as u64 } else { u64::MAX },
        status: m.status | flag_touched(),
        ..m
    }
}

/// An authorization whose signer is known, whose chain is zero or one of the transaction's,
/// and whose account is in the journal with the nonce it names and with no code, empty code,
/// or code that already designates a delegation, delegates that account anew: its code
/// becomes the designation (`0xef0100` and the address) to the authorized address, its nonce
/// goes up by one, its balance and storage stay, no other account changes, and a refund is
/// counted where the account was not empty.
pub proof fn lemma_authority_delegated(
    m: Map<ChainAddress, AccountModel>,
    n: nat,
    auth: RecoveredAuthorization,
    chain_ids: Seq<u64>,
)
    requires
        auth.authority is Some,
        auth.chain_id.value() == 0 || chain_ids.contains(auth.chain_id.l0),
        m.contains_key(ChainAddress(auth.chain_id.l0, auth.authority.unwrap())),
        ({
            let a = m[ChainAddress(auth.chain_id.l0, auth.authority.unwrap())];
            &&& a.nonce == auth.nonce
            &&& a.nonce < u64::MAX
            &&& match a.code {
                None => true,
                Some((bytes, is_designation)) => bytes.len() == 0 || is_designation,
            }
        }),
    ensures
        ({
            let k = ChainAddress(auth.chain_id.l0, auth.authority.unwrap());
            let a = m[k];
            &&& auth_step((m, n), auth, chain_ids) matches Some((m2, n2))
            &&& m2.dom() == m.dom()
            &&& m2[k].code == Some((seq![0xefu8, 0x01u8, 0x00u8] + auth.address.0@, true))
            &&& m2[k].nonce == a.nonce + 1
            &&& m2[k].balance == a.balance
            &&& m2[k].storage == a.storage
            &&& forall|j: ChainAddress| #[trigger] m.contains_key(j) && j != k ==> m2[j] == m[j]
            &&& n2 == if model_empty(a) { n } else { n + 1 }
        }),
{
    let k = ChainAddress(auth.chain_id.l0, auth.authority.unwrap());
    assert(authority_account(auth) == k);
    assert(eip7702_magic() == seq![0xefu8, 0x01u8, 0x00u8]);
    let (m2, n2) = auth_step((m, n), auth, chain_ids).unwrap();
    assert(m2.dom() =~= m.dom());
}

/// The accounts and the number of refunds after one authorization; `None` where the
/// account of an accepted authority is not in the journal.
pub open spec fn auth_step(
    st: (Map<ChainAddress, AccountModel>, nat),
    auth: RecoveredAuthorization,
    chain_ids: Seq<u64>,
) -> Option<(Map<ChainAddress, AccountModel>, nat)> {
    let (m, n) = st;
    if auth.authority is None || !chain_accepted(auth, chain_ids) {
        Some(st)
    } else if !m.contains_key(authority_account(auth)) {
        None
    } else {
        let a = m[authority_account(auth)];
        if !account_accepts(a, auth) {
            Some(st)
        } else {
            Some((m.insert(authority_account(auth), delegated(a, auth)), if model_empty(a) { n } else { n + 1 }))
        }
    }
}

/// The accounts and the number of refunds after the authorizations in order.
pub open spec fn auth_run(
    list: Seq<RecoveredAuthorization>,
    m: Map<ChainAddress, AccountModel>,
    chain_ids: Seq<u64>,
) -> Option<(Map<ChainAddress, AccountModel>, nat)>
    decreases list.len(),
{
    if list.len() == 0 {
        Some((m, 0))
    } else {
        match auth_run(list.drop_last(), m, chain_ids) {
            None => None,
            Some(st) => auth_step(st, list.last(), chain_ids),
        }
    }
}

/// Where the authorizations apply, so does any prefix of them.
pub proof fn lemma_auth_run_prefix(
    list: Seq<RecoveredAuthorization>,
    m: Map<ChainAddress, AccountModel>,
    chain_ids: Seq<u64>,
    i: int,
)
    requires
        auth_run(list, m, chain_ids) is Some,
        0 <= i <= list.len(),
    ensures
        auth_run(list.subrange(0, i), m, chain_ids) is Some,
    decreases list.len(),
{
    if i < list.len() {
        lemma_auth_run_prefix(list.drop_last(), m, chain_ids, i);
        assert(list.drop_last().subrange(0, i) == list.subrange(0, i));
    } else {
        assert(list.subrange(0, i) == list);
    }
}

/// Whether an authorization of the list names `k` as its authority's account.
pub open spec fn names_account(list: Seq<RecoveredAuthorization>, k: ChainAddress) -> bool {
    exists|i: int| 0 <= i < list.len() && list[i].authority is Some && #[trigger] authority_account(list[i]) == k
}

/// Applying an authorization list refunds at most once per authorization, keeps the set of
/// accounts, and leaves every account that no authorization names as it was.
pub proof fn lemma_auth_run_frame(
    list: Seq<RecoveredAuthorization>,
    m: Map<ChainAddress, AccountModel>,
    chain_ids: Seq<u64>,
)
    requires
        auth_run(list, m, chain_ids) is Some,
    ensures
        ({
            let (m2, n) = auth_run(list, m, chain_ids).unwrap();
            &&& n <= list.len()
            &&& m2.dom() == m.dom()
            &&& forall|k: ChainAddress| #[trigger] m.contains_key(k) && !names_account(list, k) ==> m2[k] == m[k]
        }),
    decreases list.len(),
{
    if list.len() > 0 {
        let prefix = list.drop_last();
        lemma_auth_run_frame(prefix, m, chain_ids);
        let (mp, np) = auth_run(prefix, m, chain_ids).unwrap();
        let (m2, n) = auth_run(list, m, chain_ids).unwrap();
        let auth = list.last();
        assert(m2.dom() =~= m.dom()) by {
            if auth.authority is Some && chain_accepted(auth, chain_ids) && mp.contains_key(authority_account(auth)) {
                assert(mp.insert(authority_account(auth), delegated(mp[authority_account(auth)], auth)).dom() =~= mp.dom());
            }
        }
        assert forall|k: ChainAddress| #[trigger] m.contains_key(k) && !names_account(list, k) implies m2[k] == m[k] by {
            assert(!names_account(prefix, k)) by {
                if names_account(prefix, k) {
                    let i = choose|i: int| 0 <= i < prefix.len() && prefix[i].authority is Some && #[trigger] authority_account(prefix[i]) == k;
                    assert(list[i] == prefix[i]);
                    assert(authority_account(list[i]) == k);
                }
            }
            if auth.authority is Some {
                assert(authority_account(list[list.len() - 1]) != k);
            }
        }
    }
}

/// Whether a chain id is among the given ones.
fn contains_chain(ids: &Vec<u64>, id: u64) -> (r: bool)
    ensures
        r == ids@.contains(id),
{
    let mut i: usize = 0;
    while i < ids.len()
        invariant
            0 <= i <= ids@.len(),
            forall|j: int| 0 <= j < i ==> ids@[j] != id,
        decreases ids@.len() - i,
    {
        if ids[i] == id {
            assert(ids@[i as int] == id);
            return true;
        }
        i += 1;
    }
    false
}

/// Applies the authorization list of EIP-7702 to the accounts of the journal (no address
/// twice) and returns the gas refunded for authorities that already existed.
///
/// Before Prague, or without a list, nothing happens and nothing is refunded. Otherwise each
/// authorization in order is skipped where its signer is unknown, its chain is not accepted,
/// or the account's code or nonce does not allow it; else the account's code becomes the
/// designation to the authorized address and its nonce goes up by one (see [`auth_step`]).
/// The chains of the transaction default to none. Where the account of an accepted
/// authority is not in the journal the answer is that error.
pub fn apply_auth_list_to_loaded(
    prague: bool,
    env: &Env,
    accounts: &mut Vec<(ChainAddress, Account)>,
) -> (r: Result<u64, AccountNotLoaded>)
    requires
        keys_distinct(model_pairs(old(accounts)@)),
        match env.tx.authorization_list {
            Some(l) => l@.len() * 22500 <= u64::MAX,
            None => true,
        },
    ensures
        keys_distinct(model_pairs(final(accounts)@)),
        !prague || env.tx.authorization_list is None ==> r == Ok::<u64, AccountNotLoaded>(0) && final(accounts)@ == old(accounts)@,
        prague && env.tx.authorization_list is Some ==> {
            let list = env.tx.authorization_list.unwrap()@;
            let ids = match env.tx.chain_ids {
                Some(v) => v@,
                None => Seq::empty(),
            };
            match auth_run(list, models(old(accounts)@), ids) {
                None => r is Err,
                Some((m, n)) => r is Ok && r.unwrap() == n * 22500 && models(final(accounts)@) == m,
            }
        },
{
    if !prague {
        return Ok(0);
    }
    let list = match &env.tx.authorization_list {
        Some(l) => l,
        None => {
            return Ok(0);
        },
    };
    let empty_ids: Vec<u64> = Vec::new();
    let ids = match &env.tx.chain_ids {
        Some(v) => v,
        None => &empty_ids,
    };
    let ghost m0 = models(accounts@);
    let mut refunded: u64 = 0;
    let mut i: usize = 0;
    proof {
        assert(list@.subrange(0, 0) =~= Seq::<RecoveredAuthorization>::empty());
    }
    while i < list.len()
        invariant
            0 <= i <= list@.len(),
            list@.len() * 22500 <= u64::MAX,
            prague,
            env.tx.authorization_list == Some(*list),
            ids@ == match env.tx.chain_ids {
                Some(v) => v@,
                None => Seq::<u64>::empty(),
            },
            m0 == models(old(accounts)@),
            keys_distinct(model_pairs(accounts@)),
            auth_run(list@.subrange(0, i as int), m0, ids@) == Some((models(accounts@), refunded as nat)),
            refunded <= i,
        decreases list@.len() - i,
    {
        proof {
            assert(list@.subrange(0, i + 1).drop_last() == list@.subrange(0, i as int));
            assert(list@.subrange(0, i + 1).last() == list@[i as int]);
        }
        let auth = list[i];
        let ghost st = (models(accounts@), refunded as nat);
        let authority = match auth.authority() {
            Some(a) => a,
            None => {
                i += 1;
                continue;
            },
        };
        let cid = auth.chain_id();
        if !cid.is_zero() && !contains_chain(ids, cid.l0) {
            i += 1;
            continue;
        }
        let key = ChainAddress(cid.l0, authority);
        let ghost pairs = model_pairs(accounts@);
        proof {
            lemma_assoc_contains(pairs, key);
        }
        let pos = match journal_position(accounts, key) {
            Some(p) => p,
            None => {
                proof {
                    assert(!models(accounts@).contains_key(key)) by {
                        if models(accounts@).contains_key(key) {
                            let j = choose|j: int| 0 <= j < pairs.len() && pairs[j].0 == key;
                            assert(accounts@[j].0 == key);
                        }
                    }
                    assert(auth_run(list@.subrange(0, i + 1), m0, ids@) is None);
                    if auth_run(list@, m0, ids@) is Some {
                        lemma_auth_run_prefix(list@, m0, ids@, i + 1);
                    }
                }
                return Err(AccountNotLoaded(key));
            },
        };
        proof {
            assert(pairs[pos as int].0 == key);
        }
        let ghost s_before = accounts@;
        let ghost acct_model = model_of(accounts@[pos as int].1);
        proof {
            assert(models(s_before)[key] == acct_model);
        }
        let (k, mut acct) = accounts.remove(pos);
        let code_ok = match &acct.info.code {
            Some(bytecode) => bytecode.is_empty() || bytecode.is_eip7702(),
            None => true,
        };
        if !code_ok || auth.nonce() != acct.info.nonce {
            accounts.insert(pos, (k, acct));
            proof {
                assert(accounts@ =~= s_before);
                assert(!account_accepts(acct_model, auth));
                assert(auth_step(st, auth, ids@) == Some(st));
            }
            i += 1;
            continue;
        }
        assert(account_accepts(acct_model, auth));
        assert(acct.info.empty() == model_empty(acct_model));
        if !acct.is_empty() {
            refunded = refunded + 1;
        }
        let bytecode = Bytecode::new_eip7702(auth.address);
        acct.info.code_hash = bytecode.hash_slow();
        acct.info.code = Some(bytecode);
        acct.info.nonce = acct.info.nonce.saturating_add(1);
        acct.mark_touch();
        let ghost new_model = model_of(acct);
        accounts.insert(pos, (k, acct));
        proof {
            assert(accounts@ =~= s_before.update(pos as int, (k, acct)));
            assert(model_pairs(accounts@) =~= pairs.update(pos as int, (key, new_model)));
            lemma_assoc_update(pairs, pos as int, new_model);
            assert(new_model == delegated(acct_model, auth));
        }
        i += 1;
    }
    proof {
        assert(list@.subrange(0, list@.len() as int) == list@);
        assert(refunded * 22500 <= list@.len() * 22500) by (nonlinear_arith)
            requires
                refunded <= list@.len(),
        ;
    }
    Ok(refunded * 22500)
}

/// The accounts that the authorizations of a list load, in order: that of each authorization
/// whose signer is known and whose chain is accepted.
pub open spec fn needed_accounts(list: Seq<RecoveredAuthorization>, chain_ids: Seq<u64>) -> Seq<ChainAddress>
    decreases list.len(),
{
    if list.len() == 0 {
        Seq::empty()
    } else {
        let p = needed_accounts(list.drop_last(), chain_ids);
        let a = list.last();
        if a.authority is Some && chain_accepted(a, chain_ids) {
            p.push(authority_account(a))
        } else {
            p
        }
    }
}

/// The journal `after` is `before` with the accounts of `keys` loaded in order (see
/// [`loads`]).
pub open spec fn loads_all(
    before: Map<ChainAddress, AccountModel>,
    after: Map<ChainAddress, AccountModel>,
    keys: Seq<ChainAddress>,
) -> bool
    decreases keys.len(),
{
    if keys.len() == 0 {
        after == before
    } else {
        exists|mid: Map<ChainAddress, AccountModel>| loads_all(before, mid, keys.drop_last()) && #[trigger] loads(
            mid,
            after,
            keys.last(),
        )
    }
}

/// After loading accounts, each is there and every account that was there stays.
pub proof fn lemma_loads_all_keeps(
    before: Map<ChainAddress, AccountModel>,
    after: Map<ChainAddress, AccountModel>,
    keys: Seq<ChainAddress>,
)
    requires
        loads_all(before, after, keys),
    ensures
        forall|i: int| 0 <= i < keys.len() ==> after.contains_key(#[trigger] keys[i]),
        forall|k: ChainAddress| #[trigger] before.contains_key(k) ==> after.contains_key(k) && after[k] == before[k],
    decreases keys.len(),
{
    if keys.len() > 0 {
        let mid = choose|mid: Map<ChainAddress, AccountModel>| loads_all(before, mid, keys.drop_last()) && #[trigger] loads(
            mid,
            after,
            keys.last(),
        );
        lemma_loads_all_keeps(before, mid, keys.drop_last());
        lemma_loads_keeps(mid, after, keys.last());
        assert forall|i: int| 0 <= i < keys.len() implies after.contains_key(#[trigger] keys[i]) by {
            if i < keys.len() - 1 {
                assert(keys.drop_last()[i] == keys[i]);
            }
        }
    }
}

/// Where every account that the list needs is in the journal, applying the list succeeds.
pub proof fn lemma_auth_run_loaded(
    list: Seq<RecoveredAuthorization>,
    m: Map<ChainAddress, AccountModel>,
    chain_ids: Seq<u64>,
)
    requires
        forall|i: int| 0 <= i < needed_accounts(list, chain_ids).len() ==> m.contains_key(
            #[trigger] needed_accounts(list, chain_ids)[i],
        ),
    ensures
        auth_run(list, m, chain_ids) is Some,
    decreases list.len(),
{
    if list.len() > 0 {
        let prefix = list.drop_last();
        let np = needed_accounts(prefix, chain_ids);
        let n = needed_accounts(list, chain_ids);
        assert forall|i: int| 0 <= i < np.len() implies m.contains_key(#[trigger] np[i]) by {
            assert(n[i] == np[i]);
        }
        lemma_auth_run_loaded(prefix, m, chain_ids);
        lemma_auth_run_frame(prefix, m, chain_ids);
        let a = list.last();
        if a.authority is Some && chain_accepted(a, chain_ids) {
            assert(n[n.len() - 1] == authority_account(a));
            assert(m.contains_key(authority_account(a)));
        }
    }
}

/// The journal `after` and refund `refund` are what applying the list gives (see
/// [`auth_run`]) once the accounts it needs are loaded into `before` (see [`loads_all`]).
pub open spec fn applied_after_loading(
    before: Map<ChainAddress, AccountModel>,
    after: Map<ChainAddress, AccountModel>,
    list: Seq<RecoveredAuthorization>,
    chain_ids: Seq<u64>,
    refund: nat,
) -> bool {
    exists|mid: Map<ChainAddress, AccountModel>| #[trigger] loads_all(before, mid, needed_accounts(list, chain_ids))
        && auth_run(list, mid, chain_ids) is Some && after == auth_run(list, mid, chain_ids).unwrap().0
        && refund == auth_run(list, mid, chain_ids).unwrap().1 * 22500
}

/// Whether the journal already holds every account that the list needs (see
/// [`needed_accounts`]).
pub open spec fn needed_present(m: Map<ChainAddress, AccountModel>, list: Seq<RecoveredAuthorization>, chain_ids: Seq<u64>) -> bool {
    forall|i: int| 0 <= i < needed_accounts(list, chain_ids).len() ==> m.contains_key(
        #[trigger] needed_accounts(list, chain_ids)[i],
    )
}

/// The accounts a prefix of the list needs are the first of those the list needs.
pub proof fn lemma_needed_prefix(list: Seq<RecoveredAuthorization>, chain_ids: Seq<u64>, i: int)
    requires
        0 <= i <= list.len(),
    ensures
        needed_accounts(list.subrange(0, i), chain_ids).len() <= needed_accounts(list, chain_ids).len(),
        forall|j: int| 0 <= j < needed_accounts(list.subrange(0, i), chain_ids).len() ==> #[trigger] needed_accounts(
            list.subrange(0, i),
            chain_ids,
        )[j] == needed_accounts(list, chain_ids)[j],
    decreases list.len(),
{
    if i == list.len() {
        assert(list.subrange(0, i) == list);
    } else {
        let d = list.drop_last();
        lemma_needed_prefix(d, chain_ids, i);
        assert(d.subrange(0, i) == list.subrange(0, i));
    }
}

/// Applies the authorization list of EIP-7702 (see [`apply_auth_list_to_loaded`]), first
/// loading from the database, in order, the account of each authorization whose signer is
/// known and whose chain is accepted (see [`needed_accounts`]), where the journal lacks it.
/// Before Prague, or without a list, nothing happens and nothing is refunded. Where the
/// journal already holds every account the list needs, no database call is made and the
/// answer is `Ok`. An error of the database is the answer; the accounts that were in the
/// journal then stay as they were.
pub fn apply_eip7702_auth_list<D: State>(
    prague: bool,
    env: &Env,
    accounts: &mut Vec<(ChainAddress, Account)>,
    db: &mut D,
) -> (r: Result<u64, D::Error>)
    requires
        keys_distinct(model_pairs(old(accounts)@)),
        match env.tx.authorization_list {
            Some(l) => l@.len() * 22500 <= u64::MAX,
            None => true,
        },
    ensures
        keys_distinct(model_pairs(final(accounts)@)),
        !prague || env.tx.authorization_list is None ==> r == Ok::<u64, D::Error>(0) && final(accounts)@ == old(accounts)@,
        r is Err ==> forall|k: ChainAddress| #[trigger] models(old(accounts)@).contains_key(k) ==> models(
            final(accounts)@,
        ).contains_key(k) && models(final(accounts)@)[k] == models(old(accounts)@)[k],
        prague && env.tx.authorization_list is Some && r is Ok ==> {
            let list = env.tx.authorization_list.unwrap()@;
            let ids = match env.tx.chain_ids {
                Some(v) => v@,
                None => Seq::empty(),
            };
            applied_after_loading(models(old(accounts)@), models(final(accounts)@), list, ids, r->Ok_0 as nat)
        },
        prague && env.tx.authorization_list is Some && needed_present(
            models(old(accounts)@),
            env.tx.authorization_list.unwrap()@,
            match env.tx.chain_ids {
                Some(v) => v@,
                None => Seq::empty(),
            },
        ) ==> r is Ok,
{
    if !prague {
        return Ok(0);
    }
    let list = match &env.tx.authorization_list {
        Some(l) => l,
        None => {
            return Ok(0);
        },
    };
    let empty_ids: Vec<u64> = Vec::new();
    let ids = match &env.tx.chain_ids {
        Some(v) => v,
        None => &empty_ids,
    };
    let ghost m0 = models(accounts@);
    let mut i: usize = 0;
    proof {
        assert(list@.subrange(0, 0) =~= Seq::<RecoveredAuthorization>::empty());
    }
    while i < list.len()
        invariant
            0 <= i <= list@.len(),
            ids@ == match env.tx.chain_ids {
                Some(v) => v@,
                None => Seq::<u64>::empty(),
            },
            m0 == models(old(accounts)@),
            prague,
            env.tx.authorization_list == Some(*list),
            keys_distinct(model_pairs(accounts@)),
            loads_all(m0, models(accounts@), needed_accounts(list@.subrange(0, i as int), ids@)),
            needed_present(m0, list@, ids@) ==> models(accounts@) == m0,
        decreases list@.len() - i,
    {
        proof {
            assert(list@.subrange(0, i + 1).drop_last() == list@.subrange(0, i as int));
            assert(list@.subrange(0, i + 1).last() == list@[i as int]);
        }
        let auth = list[i];
        let ghost before = models(accounts@);
        let ghost prev_keys = needed_accounts(list@.subrange(0, i as int), ids@);
        match auth.authority() {
            Some(authority) => {
                let cid = auth.chain_id();
                if cid.is_zero() || contains_chain(ids, cid.l0) {
                    let key = ChainAddress(cid.l0, authority);
                    proof {
                        let keys = needed_accounts(list@.subrange(0, i + 1), ids@);
                        assert(keys == prev_keys.push(key));
                        if needed_present(m0, list@, ids@) {
                            lemma_needed_prefix(list@, ids@, i + 1);
                            assert(keys[keys.len() - 1] == key);
                            assert(needed_accounts(list@, ids@)[keys.len() - 1] == key);
                            assert(m0.contains_key(key));
                        }
                    }
                    match load_account(accounts, db, key) {
                        Ok(()) => {},
                        Err(e) => {
                            proof {
                                lemma_loads_all_keeps(m0, before, prev_keys);
                            }
                            return Err(e);
                        },
                    }
                    proof {
                        let keys = needed_accounts(list@.subrange(0, i + 1), ids@);
                        assert(keys == prev_keys.push(key));
                        assert(keys.drop_last() == prev_keys);
                        assert(loads(before, models(accounts@), keys.last()));
                    }
                }
            },
            None => {},
        }
        i += 1;
    }
    proof {
        assert(list@.subrange(0, list@.len() as int) == list@);
        lemma_loads_all_keeps(m0, models(accounts@), needed_accounts(list@, ids@));
        lemma_auth_run_loaded(list@, models(accounts@), ids@);
    }
    let ghost mid = models(accounts@);
    match apply_auth_list_to_loaded(true, env, accounts) {
        Ok(n) => {
            proof {
                assert(loads_all(m0, mid, needed_accounts(list@, ids@)));
                assert(env.tx.authorization_list.unwrap()@ == list@);
                let (m, k) = auth_run(list@, mid, ids@).unwrap();
                assert(models(accounts@) == m);
                assert(n == k * 22500);
                let l2 = env.tx.authorization_list.unwrap()@;
                let ids2 = match &env.tx.chain_ids {
                    Some(v) => v@,
                    None => Seq::empty(),
                };
                assert(l2 == list@ && ids2 == ids@);
                assert(loads_all(models(old(accounts)@), mid, needed_accounts(l2, ids2)));
                assert(applied_after_loading(models(old(accounts)@), models(accounts@), l2, ids2, n as nat));
            }
            Ok(n)
        },
        Err(_) => {
            proof {
                assert(false);
            }
            Ok(0)
        },
    }
}

/// The sets of precompiles, by the hardfork that last changed them.
#[allow(non_camel_case_types)]
#[derive(Clone, Copy, Debug, PartialEq, Eq, Structural)]
pub enum PrecompileSpecId {
    HOMESTEAD,
    BYZANTIUM,
    ISTANBUL,
    BERLIN,
    CANCUN,
    PRAGUE,
    LATEST,
}

/// The set of precompiles a hardfork has.
pub open spec fn precompiles_of(spec_id: SpecId) -> PrecompileSpecId {
    match spec_id {
        SpecId::FRONTIER | SpecId::FRONTIER_THAWING | SpecId::HOMESTEAD | SpecId::DAO_FORK | SpecId::TANGERINE
        | SpecId::SPURIOUS_DRAGON => PrecompileSpecId::HOMESTEAD,
        SpecId::BYZANTIUM | SpecId::CONSTANTINOPLE | SpecId::PETERSBURG => PrecompileSpecId::BYZANTIUM,
        SpecId::ISTANBUL | SpecId::MUIR_GLACIER => PrecompileSpecId::ISTANBUL,
        SpecId::BERLIN | SpecId::LONDON | SpecId::ARROW_GLACIER | SpecId::GRAY_GLACIER | SpecId::MERGE
        | SpecId::SHANGHAI => PrecompileSpecId::BERLIN,
        SpecId::CANCUN => PrecompileSpecId::CANCUN,
        SpecId::PRAGUE | SpecId::PRAGUE_EOF => PrecompileSpecId::PRAGUE,
        SpecId::LATEST => PrecompileSpecId::LATEST,
    }
}

/// Every hardfork from Prague on, but the open-ended latest one, loads the Prague
/// precompiles; Cancun loads its own; Berlin up to Shanghai load Berlin's; Istanbul and Muir
/// Glacier Istanbul's; Byzantium up to Petersburg Byzantium's; the earlier ones Homestead's.
pub proof fn lemma_precompiles_by_hardfork(s: SpecId)
    ensures
        s.number() >= SpecId::PRAGUE.number() && s != SpecId::LATEST ==> precompiles_of(s) == PrecompileSpecId::PRAGUE,
        s == SpecId::LATEST ==> precompiles_of(s) == PrecompileSpecId::LATEST,
        SpecId::CANCUN.number() <= s.number() < SpecId::PRAGUE.number() ==> precompiles_of(s) == PrecompileSpecId::CANCUN,
        SpecId::BERLIN.number() <= s.number() < SpecId::CANCUN.number() ==> precompiles_of(s) == PrecompileSpecId::BERLIN,
        SpecId::ISTANBUL.number() <= s.number() < SpecId::BERLIN.number() ==> precompiles_of(s) == PrecompileSpecId::ISTANBUL,
        SpecId::BYZANTIUM.number() <= s.number() < SpecId::ISTANBUL.number() ==> precompiles_of(s)
            == PrecompileSpecId::BYZANTIUM,
        s.number() < SpecId::BYZANTIUM.number() ==> precompiles_of(s) == PrecompileSpecId::HOMESTEAD,
{
}

/// The precompiles to load for a hardfork.
pub fn load_precompiles(spec_id: SpecId) -> (r: PrecompileSpecId)
    ensures
        r == precompiles_of(spec_id),
{
    match spec_id {
        SpecId::FRONTIER | SpecId::FRONTIER_THAWING | SpecId::HOMESTEAD | SpecId::DAO_FORK | SpecId::TANGERINE
        | SpecId::SPURIOUS_DRAGON => PrecompileSpecId::HOMESTEAD,
        SpecId::BYZANTIUM | SpecId::CONSTANTINOPLE | SpecId::PETERSBURG => PrecompileSpecId::BYZANTIUM,
        SpecId::ISTANBUL | SpecId::MUIR_GLACIER => PrecompileSpecId::ISTANBUL,
        SpecId::BERLIN | SpecId::LONDON | SpecId::ARROW_GLACIER | SpecId::GRAY_GLACIER | SpecId::MERGE
        | SpecId::SHANGHAI => PrecompileSpecId::BERLIN,
        SpecId::CANCUN => PrecompileSpecId::CANCUN,
        SpecId::PRAGUE | SpecId::PRAGUE_EOF => PrecompileSpecId::PRAGUE,
        SpecId::LATEST => PrecompileSpecId::LATEST,
    }
}

/// Adds an address to a list without repeats, where it is not there yet.
fn insert_warm(warm: &mut Vec<ChainAddress>, a: ChainAddress)
    requires
        old(warm)@.no_duplicates(),
    ensures
        final(warm)@.no_duplicates(),
        final(warm)@.to_set() == old(warm)@.to_set().insert(a),
{
    let mut i: usize = 0;
    while i < warm.len()
        invariant
            0 <= i <= warm@.len(),
            warm@.no_duplicates(),
            forall|j: int| 0 <= j < i ==> warm@[j] != a,
        decreases warm@.len() - i,
    {
        if warm[i] == a {
            proof {
                assert(warm@.to_set().contains(a)) by {
                    assert(warm@.contains(a));
                }
                assert(warm@.to_set().insert(a) =~= warm@.to_set());
            }
            return;
        }
        i += 1;
    }
    let ghost before = warm@;
    warm.push(a);
    proof {
        assert(!before.contains(a));
        assert(warm@ == before.push(a));
        assert(warm@.to_set() =~= before.to_set().insert(a)) by {
            assert forall|x: ChainAddress| warm@.to_set().contains(x) <==> before.to_set().insert(a).contains(x) by {
                if x == a {
                    assert(warm@[before.len() as int] == a);
                } else if before.contains(x) {
                    let k = choose|k: int| 0 <= k < before.len() && before[k] == x;
                    assert(warm@[k] == x);
                } else if warm@.contains(x) {
                    let k = choose|k: int| 0 <= k < warm@.len() && warm@[k] == x;
                    assert(k < before.len());
                    assert(before[k] == x);
                }
            }
        }
        assert(warm@.no_duplicates()) by {
            assert forall|p: int, q: int| 0 <= p < warm@.len() && 0 <= q < warm@.len() && p != q implies warm@[p] != warm@[q] by {
                if p == before.len() as int {
                    assert(before[q] != a) by { assert(before.contains(before[q])); }
                } else if q == before.len() as int {
                    assert(before[p] != a) by { assert(before.contains(before[p])); }
                }
            }
        }
    }
}

/// The addresses warm before a transaction starts, as a set: the block's beneficiary from
/// Shanghai on (EIP-3651), and the block hash storage contract of the chain from Prague on
/// (EIP-2935).
pub open spec fn preloaded_warm(spec_id: SpecId, coinbase: ChainAddress, chain_id: u64, blockhash_storage: Address) -> Set<ChainAddress> {
    let s1 = if spec_id.number() >= SpecId::SHANGHAI.number() { set![coinbase] } else { Set::empty() };
    if spec_id.number() >= SpecId::PRAGUE.number() { s1.insert(ChainAddress(chain_id, blockhash_storage)) } else { s1 }
}

/// Whether the account `k` is named by an item of the access list, on chain `chain_id`.
pub open spec fn listed(list: Seq<AccessListItem>, chain_id: u64, k: ChainAddress) -> bool {
    exists|i: int| 0 <= i < list.len() && k == ChainAddress(chain_id, (#[trigger] list[i]).address)
}

/// The journal `m` is `m0` with the access list loaded on chain `chain_id`: every account
/// that `m0` holds is there with possibly more slots, every account of the list is there
/// with each of its listed slots, and no other account was added.
pub open spec fn access_list_loaded(
    m0: Map<ChainAddress, AccountModel>,
    m: Map<ChainAddress, AccountModel>,
    list: Seq<AccessListItem>,
    chain_id: u64,
) -> bool {
    &&& journal_grows(m0, m)
    &&& forall|i: int| 0 <= i < list.len() ==> {
        let k = ChainAddress(chain_id, (#[trigger] list[i]).address);
        &&& m.contains_key(k)
        &&& forall|j: int| 0 <= j < list[i].storage_keys@.len() ==> lookup_in(m[k].storage, #[trigger] list[i].storage_keys@[j])
    }
    &&& forall|k: ChainAddress| #[trigger] m.contains_key(k) ==> m0.contains_key(k) || listed(list, chain_id, k)
}

/// Whether the journal already holds every account of the access list on chain `chain_id`
/// with each of its listed slots.
pub open spec fn access_list_present(m: Map<ChainAddress, AccountModel>, list: Seq<AccessListItem>, chain_id: u64) -> bool {
    forall|i: int| 0 <= i < list.len() ==> {
        let k = ChainAddress(chain_id, (#[trigger] list[i]).address);
        &&& m.contains_key(k)
        &&& forall|j: int| 0 <= j < list[i].storage_keys@.len() ==> lookup_in(m[k].storage, #[trigger] list[i].storage_keys@[j])
    }
}

/// Loads the accounts and storage slots of the access list (EIP-2930) on chain `chain_id`
/// from the database where the journal (no address twice) lacks them (see [`load_account`],
/// [`load_slot`]). Where the journal already holds them all, no database call is made: the
/// answer is `Ok` and the journal stays. An error of the database is the answer; the accounts
/// of the journal then still hold what they held.
pub fn load_access_list<D: State>(
    accounts: &mut Vec<(ChainAddress, Account)>,
    db: &mut D,
    list: &Vec<AccessListItem>,
    chain_id: u64,
) -> (r: Result<(), D::Error>)
    requires
        keys_distinct(model_pairs(old(accounts)@)),
    ensures
        keys_distinct(model_pairs(final(accounts)@)),
        journal_grows(models(old(accounts)@), models(final(accounts)@)),
        access_list_present(models(old(accounts)@), list@, chain_id) ==> r is Ok && final(accounts)@ == old(accounts)@,
        r is Ok ==> access_list_loaded(models(old(accounts)@), models(final(accounts)@), list@, chain_id),
{
    let ghost m0 = models(accounts@);
    let ghost v0 = accounts@;
    proof {
        lemma_journal_grows_refl(m0);
    }
    let mut i: usize = 0;
    while i < list.len()
        invariant
            0 <= i <= list@.len(),
            m0 == models(old(accounts)@),
            v0 == old(accounts)@,
            keys_distinct(model_pairs(accounts@)),
            journal_grows(m0, models(accounts@)),
            access_list_present(m0, list@, chain_id) ==> accounts@ == v0,
            access_list_loaded(m0, models(accounts@), list@.subrange(0, i as int), chain_id),
        decreases list@.len() - i,
    {
        let key = ChainAddress(chain_id, list[i].address);
        let ghost before = models(accounts@);
        let ghost done = list@.subrange(0, i as int);
        match load_account(accounts, db, key) {
            Ok(()) => {},
            Err(e) => {
                return Err(e);
            },
        }
        proof {
            lemma_loads_keeps(before, models(accounts@), key);
            lemma_journal_grows(before, models(accounts@), models(accounts@), key);
            lemma_journal_grows(m0, before, models(accounts@), key);
        }
        let ghost loaded = models(accounts@);
        let keys = &list[i].storage_keys;
        let mut j: usize = 0;
        while j < keys.len()
            invariant
                0 <= j <= keys@.len(),
                i < list@.len(),
                m0 == models(old(accounts)@),
                v0 == old(accounts)@,
                access_list_present(m0, list@, chain_id) ==> accounts@ == v0 && loaded == m0,
                journal_grows(m0, loaded),
                keys@ == list@[i as int].storage_keys@,
                key == ChainAddress(chain_id, list@[i as int].address),
                keys_distinct(model_pairs(accounts@)),
                journal_grows(loaded, models(accounts@)),
                models(accounts@).dom() == loaded.dom(),
                loaded.contains_key(key),
                forall|t: int| 0 <= t < j ==> lookup_in(models(accounts@)[key].storage, #[trigger] keys@[t]),
            decreases keys@.len() - j,
        {
            let ghost cur = models(accounts@);
            match load_slot(accounts, db, key, keys[j]) {
                Ok(()) => {},
                Err(e) => {
                    proof {
                        lemma_journal_grows(m0, loaded, cur, key);
                    }
                    return Err(e);
                },
            }
            proof {
                lemma_journal_grows(loaded, cur, models(accounts@), key);
                assert forall|t: int| 0 <= t < j + 1 implies lookup_in(models(accounts@)[key].storage, #[trigger] keys@[t]) by {
                    if t < j {
                        assert(lookup_in(cur[key].storage, keys@[t]));
                        assert(model_grows(cur[key], models(accounts@)[key]));
                    }
                }
            }
            j += 1;
        }
        proof {
            let now = models(accounts@);
            lemma_journal_grows(before, loaded, now, key);
            lemma_journal_grows(m0, before, now, key);
            let done2 = list@.subrange(0, i + 1);
            assert forall|t: int| 0 <= t < done2.len() implies {
                let k = ChainAddress(chain_id, (#[trigger] done2[t]).address);
                &&& now.contains_key(k)
                &&& forall|u: int| 0 <= u < done2[t].storage_keys@.len() ==> lookup_in(now[k].storage, #[trigger] done2[t].storage_keys@[u])
            } by {
                if t < i {
                    assert(done2[t] == done[t]);
                    let k = ChainAddress(chain_id, done[t].address);
                    assert(before.contains_key(k));
                    assert(model_grows(before[k], now[k]));
                    assert forall|u: int| 0 <= u < done2[t].storage_keys@.len() implies lookup_in(now[k].storage, #[trigger] done2[t].storage_keys@[u]) by {
                        assert(lookup_in(before[k].storage, done[t].storage_keys@[u]));
                    }
                } else {
                    assert(done2[t] == list@[i as int]);
                    assert forall|u: int| 0 <= u < done2[t].storage_keys@.len() implies lookup_in(now[key].storage, #[trigger] done2[t].storage_keys@[u]) by {
                        assert(keys@[u] == done2[t].storage_keys@[u]);
                    }
                }
            }
            assert forall|k: ChainAddress| #[trigger] now.contains_key(k) implies m0.contains_key(k) || listed(done2, chain_id, k) by {
                if !m0.contains_key(k) {
                    if k == key {
                        assert(done2[i as int] == list@[i as int]);
                    } else {
                        assert(before.contains_key(k));
                        assert(listed(done, chain_id, k));
                        let t = choose|t: int| 0 <= t < done.len() && k == ChainAddress(chain_id, (#[trigger] done[t]).address);
                        assert(done2[t] == done[t]);
                    }
                }
            }
        }
        i += 1;
    }
    proof {
        assert(list@.subrange(0, list@.len() as int) == list@);
    }
    Ok(())
}

/// Prepares the journal for a transaction on chain `chain_id`: it follows `spec_id`, the
/// addresses of [`preloaded_warm`] are added to the warm ones (no address twice), and the
/// access list is loaded from the database (see [`load_access_list`]), whose error is the
/// answer; where the journal already holds the access list, no database call is made and the
/// answer is `Ok`. `blockhash_storage` is the address of the block hash storage contract.
pub fn load_accounts<D: State>(
    journaled_state: &mut JournaledState,
    db: &mut D,
    env: &Env,
    spec_id: SpecId,
    chain_id: u64,
    blockhash_storage: Address,
) -> (r: Result<(), D::Error>)
    requires
        old(journaled_state).warm_preloaded_addresses@.no_duplicates(),
        keys_distinct(model_pairs(old(journaled_state).state@)),
    ensures
        final(journaled_state).spec_id == spec_id,
        final(journaled_state).warm_preloaded_addresses@.no_duplicates(),
        final(journaled_state).warm_preloaded_addresses@.to_set() == old(journaled_state).warm_preloaded_addresses@.to_set().union(
            preloaded_warm(spec_id, env.block.coinbase, chain_id, blockhash_storage),
        ),
        final(journaled_state).state_changes == old(journaled_state).state_changes,
        keys_distinct(model_pairs(final(journaled_state).state@)),
        journal_grows(models(old(journaled_state).state@), models(final(journaled_state).state@)),
        access_list_present(models(old(journaled_state).state@), env.tx.access_list@, chain_id) ==> r is Ok
            && final(journaled_state).state@ == old(journaled_state).state@,
        r is Ok ==> access_list_loaded(
            models(old(journaled_state).state@),
            models(final(journaled_state).state@),
            env.tx.access_list@,
            chain_id,
        ),
{
    journaled_state.spec_id = spec_id;
    let ghost s0 = journaled_state.warm_preloaded_addresses@.to_set();
    if spec_id.is_enabled_in(SpecId::SHANGHAI) {
        insert_warm(&mut journaled_state.warm_preloaded_addresses, env.block.coinbase);
    }
    if spec_id.is_enabled_in(SpecId::PRAGUE) {
        insert_warm(&mut journaled_state.warm_preloaded_addresses, ChainAddress(chain_id, blockhash_storage));
    }
    proof {
        let p = preloaded_warm(spec_id, env.block.coinbase, chain_id, blockhash_storage);
        assert(journaled_state.warm_preloaded_addresses@.to_set() =~= s0.union(p));
    }
    load_access_list(&mut journaled_state.state, db, &env.tx.access_list, chain_id)
}

} // verus!
