//! Fee handling of Taiko: the anchor transaction pays nothing, and the base fee goes to the
//! treasury (Hekla) or is shared between treasury and coinbase (Ontake).
use crate::env::Env;
use crate::gas::{Gas, refund_as_u64, spent_of};
use crate::primitives::{U256, two256, u256_div, u256_wrapping_mul, u256_wrapping_sub};
use crate::assoc::keys_distinct;
use crate::db::State;
use crate::journaled::{AccountModel, credit_account, credited_model, lemma_loads_keeps, load_account, loads, loads_from, model_pairs, models};
use crate::state::{Account, ChainAddress};
use vstd::prelude::*;

verus! {

/// The gas the fee is charged on: spent gas less the refund.
pub open spec fn charged_gas(gas: crate::gas::GasView) -> int {
    spent_of(gas) - refund_as_u64(gas.refunded)
}

/// The total base fee of a transaction: the base fee times the charged gas, modulo 2^256.
pub open spec fn total_fee(basefee: U256, gas: crate::gas::GasView) -> nat {
    ((basefee.value() * charged_gas(gas)) % (two256() as int)) as nat
}

/// The coinbase's share of a total fee at `ratio` percent: the total times the ratio modulo
/// 2^256, divided by 100.
pub open spec fn coinbase_share(total: nat, ratio: u8) -> nat {
    ((((total * ratio) as int) % (two256() as int)) / 100) as nat
}

/// The total base fee of the transaction: the base fee times the spent gas less the refund.
fn base_fee_total(env: &Env, gas: &Gas) -> (r: U256)
    requires
        gas@.remaining <= gas@.limit,
        charged_gas(gas@) >= 0,
    ensures
        r.value() == total_fee(env.block.basefee, gas@),
{
    let refund = gas.refunded();
    let refund_u64: u64 = if refund >= 0 {
        refund as u64
    } else {
        (refund as i128 + 0x1_0000_0000_0000_0000i128) as u64
    };
    let used = gas.spent() - refund_u64;
    u256_wrapping_mul(env.block.basefee, U256::from_u64(used))
}

/// Splits a total fee under Ontake: the coinbase gets `basefee_ratio` percent (see
/// [`coinbase_share`]) and the treasury the rest, modulo 2^256. Returns (treasury, coinbase).
pub fn ontake_fee_split(total: U256, basefee_ratio: u8) -> (r: (U256, U256))
    ensures
        r.1.value() == coinbase_share(total.value(), basefee_ratio),
        r.0.value() == (total.value() - r.1.value() + two256()) % (two256() as int),
{
    let scaled = u256_wrapping_mul(total, U256::from_u64(basefee_ratio as u64));
    let fee_coinbase = u256_div(scaled, U256::from_u64(100));
    let fee_treasury = u256_wrapping_sub(total, fee_coinbase);
    (fee_treasury, fee_coinbase)
}

/// The journal `after` is `before` with the account of `key` loaded (see [`loads`]) and then
/// credited with `fee` (see [`credited_model`]).
pub open spec fn credited_after_loading(
    before: Map<ChainAddress, AccountModel>,
    after: Map<ChainAddress, AccountModel>,
    key: ChainAddress,
    fee: nat,
) -> bool {
    exists|m: Map<ChainAddress, AccountModel>| #[trigger] loads(before, m, key) && after == m.insert(key, credited_model(m[key], fee))
}

/// The journal `after` is `before` with the account of `key` loaded from the database, which
/// was `db0` and is left as `db1` (see [`loads_from`]), and then credited with `fee`.
pub open spec fn credited_from<D: State>(
    db0: D,
    db1: D,
    before: Map<ChainAddress, AccountModel>,
    after: Map<ChainAddress, AccountModel>,
    key: ChainAddress,
    fee: nat,
) -> bool {
    exists|m: Map<ChainAddress, AccountModel>| #[trigger] loads_from(db0, db1, before, m, key) && after == m.insert(
        key,
        credited_model(m[key], fee),
    )
}

/// Loads the account of `key` where the journal lacks it and credits it with `fee` (see
/// [`credit_account`]). Where the journal holds it, no database call is made and the answer
/// is `Ok`. An error of the database is the answer, and the journal stays.
fn load_and_credit<D: State>(
    accounts: &mut Vec<(ChainAddress, Account)>,
    db: &mut D,
    key: ChainAddress,
    fee: U256,
) -> (r: Result<(), D::Error>)
    requires
        keys_distinct(model_pairs(old(accounts)@)),
    ensures
        keys_distinct(model_pairs(final(accounts)@)),
        models(old(accounts)@).contains_key(key) ==> r is Ok,
        r is Err ==> final(accounts)@ == old(accounts)@,
        r is Ok ==> credited_after_loading(models(old(accounts)@), models(final(accounts)@), key, fee.value()),
        r is Ok ==> credited_from(*old(db), *final(db), models(old(accounts)@), models(final(accounts)@), key, fee.value()),
        r is Ok ==> forall|k: ChainAddress| #[trigger] models(old(accounts)@).contains_key(k) ==> models(final(accounts)@).contains_key(k),
{
    match load_account(accounts, db, key) {
        Ok(()) => {},
        Err(e) => {
            return Err(e);
        },
    }
    let ghost m = models(accounts@);
    proof {
        lemma_loads_keeps(models(old(accounts)@), m, key);
    }
    match credit_account(accounts, key, fee) {
        Ok(()) => {},
        Err(_) => {
            proof {
                assert(false);
            }
        },
    }
    proof {
        assert(loads(models(old(accounts)@), m, key));
        assert(loads_from(*old(db), *db, models(old(accounts)@), m, key));
    }
    Ok(())
}

/// Rewards the treasury under Hekla: it is loaded from the database where the journal lacks
/// it, touched, and receives the whole base fee (see [`total_fee`]). Gas whose refund exceeds
/// the spent gas is out of scope (the subtraction underflows). Where the journal holds the
/// treasury, no database call is made and the answer is `Ok`. An error of the database is the
/// answer, and the journal stays.
pub fn reward_beneficiary_hekla<D: State>(
    accounts: &mut Vec<(ChainAddress, Account)>,
    db: &mut D,
    env: &Env,
    gas: &Gas,
) -> (r: Result<(), D::Error>)
    requires
        keys_distinct(model_pairs(old(accounts)@)),
        gas@.remaining <= gas@.limit,
        charged_gas(gas@) >= 0,
    ensures
        keys_distinct(model_pairs(final(accounts)@)),
        models(old(accounts)@).contains_key(env.tx.taiko.treasury) ==> r is Ok,
        r is Err ==> final(accounts)@ == old(accounts)@,
        r is Ok ==> credited_after_loading(
            models(old(accounts)@),
            models(final(accounts)@),
            env.tx.taiko.treasury,
            total_fee(env.block.basefee, gas@),
        ),
        r is Ok ==> credited_from(
            *old(db),
            *final(db),
            models(old(accounts)@),
            models(final(accounts)@),
            env.tx.taiko.treasury,
            total_fee(env.block.basefee, gas@),
        ),
{
    let total = base_fee_total(env, gas);
    load_and_credit(accounts, db, env.tx.taiko.treasury, total)
}

/// The treasury's share of a total fee under Ontake: the total less the coinbase's share,
/// modulo 2^256.
pub open spec fn treasury_share(total: nat, ratio: u8) -> nat {
    ((total - coinbase_share(total, ratio) + two256()) % (two256() as int)) as nat
}

/// Rewards treasury and coinbase under Ontake: the treasury is loaded where the journal lacks
/// it, touched and receives the base fee less the coinbase's share; then the coinbase is
/// loaded, touched and receives its share (see [`ontake_fee_split`]). An error of the
/// database is the answer: where loading the treasury fails the journal stays, where loading
/// the coinbase fails the treasury has been paid. Where the journal holds both, no database
/// call is made and the answer is `Ok`.
#[verifier::rlimit(40)]
pub fn reward_beneficiary_ontake<D: State>(
    accounts: &mut Vec<(ChainAddress, Account)>,
    db: &mut D,
    env: &Env,
    gas: &Gas,
) -> (r: Result<(), D::Error>)
    requires
        keys_distinct(model_pairs(old(accounts)@)),
        gas@.remaining <= gas@.limit,
        charged_gas(gas@) >= 0,
    ensures
        keys_distinct(model_pairs(final(accounts)@)),
        ({
            let total = total_fee(env.block.basefee, gas@);
            let cb = coinbase_share(total, env.tx.taiko.basefee_ratio);
            let tr = treasury_share(total, env.tx.taiko.basefee_ratio);
            let m0 = models(old(accounts)@);
            let mf = models(final(accounts)@);
            &&& r is Ok ==> exists|m1: Map<ChainAddress, AccountModel>| #[trigger] credited_after_loading(m0, m1, env.tx.taiko.treasury, tr)
                && credited_after_loading(m1, mf, env.block.coinbase, cb)
            &&& r is Err ==> final(accounts)@ == old(accounts)@ || credited_after_loading(m0, mf, env.tx.taiko.treasury, tr)
            &&& m0.contains_key(env.tx.taiko.treasury) && m0.contains_key(env.block.coinbase) ==> r is Ok
            &&& r is Ok ==> exists|d: D, m1: Map<ChainAddress, AccountModel>| #[trigger] credited_from(*old(db), d, m0, m1, env.tx.taiko.treasury, tr)
                && credited_from(d, *final(db), m1, mf, env.block.coinbase, cb)
        }),
{
    let total = base_fee_total(env, gas);
    let (fee_treasury, fee_coinbase) = ontake_fee_split(total, env.tx.taiko.basefee_ratio);
    let ghost tr = treasury_share(total_fee(env.block.basefee, gas@), env.tx.taiko.basefee_ratio);
    let ghost cb = coinbase_share(total_fee(env.block.basefee, gas@), env.tx.taiko.basefee_ratio);
    assert(fee_coinbase.value() == cb);
    assert(fee_treasury.value() == tr);
    match load_and_credit(accounts, db, env.tx.taiko.treasury, fee_treasury) {
        Ok(()) => {},
        Err(e) => {
            return Err(e);
        },
    }
    let ghost m1 = models(accounts@);
    let ghost d = *db;
    let r = load_and_credit(accounts, db, env.block.coinbase, fee_coinbase);
    proof {
        if r is Ok {
            assert(credited_from(d, *db, m1, models(accounts@), env.block.coinbase, fee_coinbase.value()));
            assert(credited_after_loading(m1, models(accounts@), env.block.coinbase, fee_coinbase.value()));
        }
    }
    r
}

/// The Taiko credits of a transaction that is not the anchor one, once the mainnet reward
/// succeeded, from journal `m0` to journal `mf` (`same` where the journal stayed as it was),
/// the answer being `Ok` where `ok`. From Ontake on, the treasury gets its share and then the
/// coinbase its own; on an error the journal stays or only the treasury was credited. Before,
/// the treasury gets the whole base fee; on an error the journal stays. Where the journal holds
/// the accounts credited, the answer is `Ok`.
pub open spec fn taiko_rewarded(
    m0: Map<ChainAddress, AccountModel>,
    mf: Map<ChainAddress, AccountModel>,
    same: bool,
    env: Env,
    gas: crate::gas::GasView,
    ontake: bool,
    ok: bool,
) -> bool {
    let total = total_fee(env.block.basefee, gas);
    let cb = coinbase_share(total, env.tx.taiko.basefee_ratio);
    let tr = treasury_share(total, env.tx.taiko.basefee_ratio);
    if ontake {
        &&& ok ==> exists|m1: Map<ChainAddress, AccountModel>| #[trigger] credited_after_loading(m0, m1, env.tx.taiko.treasury, tr)
            && credited_after_loading(m1, mf, env.block.coinbase, cb)
        &&& !ok ==> same || credited_after_loading(m0, mf, env.tx.taiko.treasury, tr)
        &&& m0.contains_key(env.tx.taiko.treasury) && m0.contains_key(env.block.coinbase) ==> ok
    } else {
        &&& ok ==> credited_after_loading(m0, mf, env.tx.taiko.treasury, total)
        &&& !ok ==> same
        &&& m0.contains_key(env.tx.taiko.treasury) ==> ok
    }
}

/// The Taiko reward of a transaction, given `mainnet`, the outcome of the mainnet reward of the
/// block's beneficiary that runs first for any transaction but the anchor one. For the anchor
/// transaction: `Ok`, and the journal stays. Where the mainnet reward failed: its error, and no
/// Taiko credit. Otherwise, from Ontake on, the base fee shared between treasury and coinbase
/// (see [`reward_beneficiary_ontake`]); before, the whole base fee to the treasury (see
/// [`reward_beneficiary_hekla`]). Where the journal holds the accounts credited, the answer is
/// then `Ok`.
pub fn reward_beneficiary<D: State>(
    accounts: &mut Vec<(ChainAddress, Account)>,
    db: &mut D,
    env: &Env,
    gas: &Gas,
    ontake_enabled: bool,
    mainnet: Result<(), D::Error>,
) -> (r: Result<(), D::Error>)
    requires
        keys_distinct(model_pairs(old(accounts)@)),
        gas@.remaining <= gas@.limit,
        charged_gas(gas@) >= 0,
    ensures
        keys_distinct(model_pairs(final(accounts)@)),
        env.tx.taiko.is_anchor ==> r is Ok && final(accounts)@ == old(accounts)@,
        !env.tx.taiko.is_anchor && mainnet is Err ==> r == mainnet && final(accounts)@ == old(accounts)@,
        !env.tx.taiko.is_anchor && mainnet is Ok ==> taiko_rewarded(
            models(old(accounts)@),
            models(final(accounts)@),
            final(accounts)@ == old(accounts)@,
            *env,
            gas@,
            ontake_enabled,
            r is Ok,
        ),
{
    match reward_rule(env, ontake_enabled) {
        TaikoReward::Skip => Ok(()),
        TaikoReward::Ontake => {
            match mainnet {
                Ok(()) => reward_beneficiary_ontake(accounts, db, env, gas),
                Err(e) => Err(e),
            }
        },
        TaikoReward::Hekla => {
            match mainnet {
                Ok(()) => reward_beneficiary_hekla(accounts, db, env, gas),
                Err(e) => Err(e),
            }
        },
    }
}

/// Which fee rule applies after the mainnet reward.
#[derive(Clone, Copy, Debug, PartialEq, Eq, Structural)]
pub enum TaikoReward {
    /// The anchor transaction: no reward at all.
    Skip,
    /// The whole base fee to the treasury.
    Hekla,
    /// The base fee shared between treasury and coinbase.
    Ontake,
}

/// Chooses the reward: none for the anchor transaction, else sharing from Ontake on and the
/// treasury alone before.
pub fn reward_rule(env: &Env, ontake_enabled: bool) -> (r: TaikoReward)
    ensures
        r == if env.tx.taiko.is_anchor {
            TaikoReward::Skip
        } else if ontake_enabled {
            TaikoReward::Ontake
        } else {
            TaikoReward::Hekla
        },
{
    if env.tx.taiko.is_anchor {
        TaikoReward::Skip
    } else if ontake_enabled {
        TaikoReward::Ontake
    } else {
        TaikoReward::Hekla
    }
}

/// Whether the caller is reimbursed for unused gas: always but for the anchor transaction.
pub fn reimburses(env: &Env) -> (r: bool)
    ensures
        r == !env.tx.taiko.is_anchor,
{
    !env.tx.taiko.is_anchor
}

/// The Taiko reimbursement of the caller, given `mainnet`, the outcome of the mainnet
/// reimbursement, which runs for any transaction but the anchor one (see [`reimburses`]): for
/// the anchor transaction `Ok`, else that outcome.
pub fn reimburse_caller<E>(env: &Env, mainnet: Result<(), E>) -> (r: Result<(), E>)
    ensures
        env.tx.taiko.is_anchor ==> r is Ok,
        !env.tx.taiko.is_anchor ==> r == mainnet,
{
    if reimburses(env) {
        mainnet
    } else {
        Ok(())
    }
}

/// The Taiko steps after execution, in the order a transaction runs them: the caller is
/// reimbursed (see [`reimburse_caller`]), then the block's beneficiary is rewarded (see
/// [`reward_beneficiary`]). `mainnet_reimbursement` and `mainnet_reward` are the outcomes of
/// the mainnet steps that each of them follows. The first error is the answer, and no later
/// step runs.
pub fn reimburse_and_reward<D: State>(
    accounts: &mut Vec<(ChainAddress, Account)>,
    db: &mut D,
    env: &Env,
    gas: &Gas,
    ontake_enabled: bool,
    mainnet_reimbursement: Result<(), D::Error>,
    mainnet_reward: Result<(), D::Error>,
) -> (r: Result<(), D::Error>)
    requires
        keys_distinct(model_pairs(old(accounts)@)),
        gas@.remaining <= gas@.limit,
        charged_gas(gas@) >= 0,
    ensures
        keys_distinct(model_pairs(final(accounts)@)),
        env.tx.taiko.is_anchor ==> r is Ok && final(accounts)@ == old(accounts)@,
        !env.tx.taiko.is_anchor && mainnet_reimbursement is Err ==> r == mainnet_reimbursement && final(accounts)@
            == old(accounts)@,
        !env.tx.taiko.is_anchor && mainnet_reimbursement is Ok && mainnet_reward is Err ==> r == mainnet_reward
            && final(accounts)@ == old(accounts)@,
        !env.tx.taiko.is_anchor && mainnet_reimbursement is Ok && mainnet_reward is Ok ==> taiko_rewarded(
            models(old(accounts)@),
            models(final(accounts)@),
            final(accounts)@ == old(accounts)@,
            *env,
            gas@,
            ontake_enabled,
            r is Ok,
        ),
{
    match reimburse_caller(env, mainnet_reimbursement) {
        Ok(()) => {},
        Err(e) => {
            return Err(e);
        },
    }
    reward_beneficiary(accounts, db, env, gas, ontake_enabled, mainnet_reward)
}

/// Which implementation a step of the handler runs.
#[derive(Clone, Copy, Debug, PartialEq, Eq, Structural)]
pub enum StepRule {
    /// The rule of the Ethereum mainnet.
    Mainnet,
    /// The rule of Taiko.
    Taiko,
}

/// The steps of a handler that Taiko replaces, and the rule each runs.
#[derive(Clone, Copy, Debug)]
pub struct HandlerSteps {
    pub deduct_caller: StepRule,
    pub reimburse_caller: StepRule,
    pub reward_beneficiary: StepRule,
}

/// Makes a handler follow Taiko: charging the caller, reimbursing it and rewarding the
/// beneficiary all run the Taiko rules.
pub fn taiko_handle_register(handler: &mut HandlerSteps)
    ensures
        final(handler).deduct_caller == StepRule::Taiko,
        final(handler).reimburse_caller == StepRule::Taiko,
        final(handler).reward_beneficiary == StepRule::Taiko,
{
    handler.deduct_caller = StepRule::Taiko;
    handler.reimburse_caller = StepRule::Taiko;
    handler.reward_beneficiary = StepRule::Taiko;
}

/// Under Ontake the shares add up to the total fee modulo 2^256; with a ratio of at most 100
/// percent and no wrap of the scaled total, they add up exactly, and the coinbase's share is
/// at most the total.
pub proof fn lemma_ontake_split_conserves(total: nat, ratio: u8)
    requires
        total < two256(),
    ensures
        ((total - coinbase_share(total, ratio) + two256()) % (two256() as int) + coinbase_share(total, ratio))
            % (two256() as int) == total,
        ratio <= 100 && total * ratio < two256() ==> coinbase_share(total, ratio) <= total && (total
            - coinbase_share(total, ratio) + two256()) % (two256() as int) + coinbase_share(total, ratio) == total,
{
    let cb = coinbase_share(total, ratio);
    let m = two256() as int;
    assert(cb < m) by {
        assert(((total * ratio) as int) % (two256() as int) < two256()) by (nonlinear_arith)
            requires
                two256() > 0,
        ;
    }
    let t = (total - cb + m) % m;
    assert((t + cb) % m == total) by (nonlinear_arith)
        requires
            0 <= total < m,
            0 <= cb < m,
            t == (total - cb + m) % m,
            m > 0,
    ;
    if ratio <= 100 && total * ratio < two256() {
        assert(((total * ratio) as int) % (two256() as int) == total * ratio) by (nonlinear_arith)
            requires
                0 <= total * ratio < two256(),
        ;
        assert(cb <= total) by (nonlinear_arith)
            requires
                cb == (total * ratio) / 100,
                ratio <= 100,
                total >= 0,
        ;
        assert(t == total - cb) by (nonlinear_arith)
            requires
                0 <= total - cb < m,
                t == (total - cb + m) % m,
                m > 0,
        ;
    }
}

} // verus!
