//! Gas accounting of one call frame.
use std::collections::HashMap;
use vstd::prelude::*;

verus! {

broadcast use vstd::std_specs::hash::group_hash_axioms;

/// What a [`Gas`] holds, as plain values.
pub struct GasView {
    /// The gas limit, constant through execution.
    pub limit: u64,
    /// The gas still available.
    pub remaining: u64,
    /// The refund recorded so far.
    pub refunded: i64,
    /// Gas used per chain id.
    pub used: Map<u64, u64>,
}

/// The state of gas during execution.
#[derive(Debug)]
pub struct Gas {
    limit: u64,
    remaining: u64,
    refunded: i64,
    used: HashMap<u64, u64>,
}

impl View for Gas {
    type V = GasView;

    closed spec fn view(&self) -> GasView {
        GasView { limit: self.limit, remaining: self.remaining, refunded: self.refunded, used: self.used@ }
    }
}

/// The divisor that caps the final refund: 5 from London on (EIP-3529), 2 before.
pub open spec fn max_refund_quotient(is_london: bool) -> u64 {
    if is_london { 5 } else { 2 }
}

/// The refund as the unsigned word it is reinterpreted as: a negative refund wraps to a
/// large number.
pub open spec fn refund_as_u64(refunded: i64) -> int {
    if refunded >= 0 { refunded as int } else { refunded + 0x1_0000_0000_0000_0000 }
}

/// The final refund: the recorded refund capped at the spent gas divided by the quotient.
pub open spec fn final_refund(refunded: i64, spent: int, is_london: bool) -> int {
    let cap = spent / (max_refund_quotient(is_london) as int);
    if refund_as_u64(refunded) <= cap { refund_as_u64(refunded) } else { cap }
}

/// Gas spent so far.
pub open spec fn spent_of(g: GasView) -> int {
    g.limit - g.remaining
}

/// The gas used so far on chain `chain_id`: its entry, or zero where it has none.
pub open spec fn used_on(used: Map<u64, u64>, chain_id: u64) -> nat {
    if used.contains_key(chain_id) { used[chain_id] as nat } else { 0 }
}

/// Whether recording `cost` on chain `chain_id` keeps the chain's count of used gas within
/// 64 bits (a cost that does not fit records nothing).
pub open spec fn record_cost_fits(g: GasView, chain_id: u64, cost: u64) -> bool {
    cost <= g.remaining ==> used_on(g.used, chain_id) + cost <= u64::MAX
}

/// The state after recording a cost of `cost` on chain `chain_id`, and whether it fit: where
/// it fits, the remaining gas loses the cost and the chain's used gas gains it.
pub open spec fn record_cost_result(g: GasView, chain_id: u64, cost: u64) -> (GasView, bool) {
    if cost <= g.remaining {
        (
            GasView {
                remaining: (g.remaining - cost) as u64,
                used: g.used.insert(chain_id, (used_on(g.used, chain_id) + cost) as u64),
                ..g
            },
            true,
        )
    } else {
        (g, false)
    }
}

/// The state after giving back `returned` gas.
pub open spec fn erase_cost_result(g: GasView, returned: u64) -> GasView {
    GasView { remaining: (g.remaining + returned) as u64, ..g }
}

impl Clone for Gas {
    fn clone(&self) -> (r: Gas)
        ensures
            r@ == self@,
    {
        Gas { limit: self.limit, remaining: self.remaining, refunded: self.refunded, used: self.used.clone() }
    }
}

impl Default for Gas {
    fn default() -> (r: Gas)
        ensures
            r@.limit == 0,
            r@.remaining == 0,
            r@.refunded == 0,
            r@.used == Map::<u64, u64>::empty(),
    {
        Gas { limit: 0, remaining: 0, refunded: 0, used: HashMap::new() }
    }
}

impl Gas {
    /// Creates a gas state with the given limit, all of it remaining.
    pub fn new(limit: u64) -> (r: Gas)
        ensures
            r@.limit == limit,
            r@.remaining == limit,
            r@.refunded == 0,
            r@.used == Map::<u64, u64>::empty(),
    {
        Gas { limit, remaining: limit, refunded: 0, used: HashMap::new() }
    }

    /// Creates a gas state with the given limit and nothing remaining.
    pub fn new_spent(limit: u64) -> (r: Gas)
        ensures
            r@.limit == limit,
            r@.remaining == 0,
            r@.refunded == 0,
            r@.used == Map::<u64, u64>::empty(),
    {
        Gas { limit, remaining: 0, refunded: 0, used: HashMap::new() }
    }

    /// The gas limit.
    pub fn limit(&self) -> (r: u64)
        ensures
            r == self@.limit,
    {
        self.limit
    }

    /// The last memory expansion cost, which is no longer tracked: always zero.
    pub fn memory(&self) -> (r: u64)
        ensures
            r == 0,
    {
        0
    }

    /// The refund recorded so far.
    pub fn refunded(&self) -> (r: i64)
        ensures
            r == self@.refunded,
    {
        self.refunded
    }

    /// The gas spent: the limit less what remains.
    pub fn spent(&self) -> (r: u64)
        requires
            self@.remaining <= self@.limit,
        ensures
            r == spent_of(self@),
    {
        self.limit - self.remaining
    }

    /// The gas remaining.
    pub fn remaining(&self) -> (r: u64)
        ensures
            r == self@.remaining,
    {
        self.remaining
    }

    /// The remaining gas less its 64th part (the gas a call may forward, EIP-150).
    pub fn remaining_63_of_64_parts(&self) -> (r: u64)
        ensures
            r == self@.remaining - self@.remaining / 64,
    {
        self.remaining - self.remaining / 64
    }

    /// Gives back gas that an earlier cost took.
    pub fn erase_cost(&mut self, returned: u64)
        requires
            old(self)@.remaining + returned <= u64::MAX,
        ensures
            final(self)@ == erase_cost_result(old(self)@, returned),
    {
        self.remaining = self.remaining + returned;
    }

    /// Replaces the record of gas used per chain.
    pub fn track_used_per_chain(&mut self, used: HashMap<u64, u64>)
        ensures
            final(self)@ == (GasView { used: used@, ..old(self)@ }),
    {
        self.used = used;
    }

    /// Spends all remaining gas.
    pub fn spend_all(&mut self)
        ensures
            final(self)@ == (GasView { remaining: 0, ..old(self)@ }),
    {
        self.remaining = 0;
    }

    /// Adds `refund` (which may be negative) to the recorded refund.
    pub fn record_refund(&mut self, refund: i64)
        requires
            i64::MIN <= old(self)@.refunded + refund <= i64::MAX,
        ensures
            final(self)@ == (GasView { refunded: (old(self)@.refunded + refund) as i64, ..old(self)@ }),
    {
        self.refunded = self.refunded + refund;
    }

    /// Caps the refund for the end of the transaction at the spent gas divided by 5 from London
    /// on, by 2 before (EIP-3529).
    pub fn set_final_refund(&mut self, is_london: bool)
        requires
            old(self)@.remaining <= old(self)@.limit,
        ensures
            final(self)@ == (GasView {
                refunded: final_refund(old(self)@.refunded, spent_of(old(self)@), is_london) as i64,
                ..old(self)@
            }),
    {
        let max_refund_quotient: u64 = if is_london { 5 } else { 2 };
        let as_unsigned: u64 = if self.refunded >= 0 {
            self.refunded as u64
        } else {
            (self.refunded as i128 + 0x1_0000_0000_0000_0000i128) as u64
        };
        let cap = self.spent() / max_refund_quotient;
        let capped = if as_unsigned <= cap { as_unsigned } else { cap };
        self.refunded = capped as i64;
    }

    /// Sets the refund, overriding the recorded one.
    pub fn set_refund(&mut self, refund: i64)
        ensures
            final(self)@ == (GasView { refunded: refund, ..old(self)@ }),
    {
        self.refunded = refund;
    }

    /// Records a cost on chain `chain_id`. Returns `false`, and changes nothing, where the
    /// cost exceeds the remaining gas; else takes the cost from the remaining gas and adds it
    /// to the gas used on the chain. The count of a chain overflowing 64 bits is out of scope.
    pub fn record_cost(&mut self, chain_id: u64, cost: u64) -> (r: bool)
        requires
            record_cost_fits(old(self)@, chain_id, cost),
        ensures
            (final(self)@, r) == record_cost_result(old(self)@, chain_id, cost),
    {
        if cost <= self.remaining {
            self.remaining = self.remaining - cost;
            let before: u64 = match self.used.get(&chain_id) {
                Some(v) => *v,
                None => 0,
            };
            self.used.insert(chain_id, before + cost);
            true
        } else {
            false
        }
    }

    /// A copy of the record of gas used per chain.
    pub fn used_per_chain(&self) -> (r: HashMap<u64, u64>)
        ensures
            r@ == self@.used,
    {
        self.used.clone()
    }
}

/// A fresh gas state has spent nothing, and spending all of it spends exactly the limit.
pub proof fn lemma_new_then_spend_all(limit: u64)
    ensures
        spent_of(GasView { limit, remaining: limit, refunded: 0, used: Map::empty() }) == 0,
        spent_of(GasView { limit, remaining: 0, refunded: 0, used: Map::empty() }) == limit,
{
}

/// A cost that fits is spent exactly: the spent gas grows by the cost, the gas used on the
/// chain grows by the cost, other chains and the limit stay; a cost that does not fit leaves
/// the state as it was.
pub proof fn lemma_record_cost_spends_exactly(g: GasView, chain_id: u64, cost: u64)
    ensures
        record_cost_result(g, chain_id, cost).1 <==> cost <= g.remaining,
        record_cost_result(g, chain_id, cost).1 ==> spent_of(record_cost_result(g, chain_id, cost).0)
            == spent_of(g) + cost,
        record_cost_result(g, chain_id, cost).0.limit == g.limit,
        !record_cost_result(g, chain_id, cost).1 ==> record_cost_result(g, chain_id, cost).0 == g,
        record_cost_result(g, chain_id, cost).1 ==> record_cost_result(g, chain_id, cost).0.used.contains_key(chain_id),
        record_cost_result(g, chain_id, cost).1 && record_cost_fits(g, chain_id, cost) ==> used_on(
            record_cost_result(g, chain_id, cost).0.used,
            chain_id,
        ) == used_on(g.used, chain_id) + cost,
        forall|other: u64| other != chain_id ==> used_on(record_cost_result(g, chain_id, cost).0.used, other)
            == #[trigger] used_on(g.used, other),
{
}

/// Giving back a cost that was recorded restores the remaining gas.
pub proof fn lemma_erase_undoes_record(g: GasView, chain_id: u64, cost: u64)
    requires
        cost <= g.remaining,
    ensures
        erase_cost_result(record_cost_result(g, chain_id, cost).0, cost).remaining == g.remaining,
{
}

/// Recording costs keeps the remaining gas within the limit.
pub proof fn lemma_record_cost_keeps_within_limit(g: GasView, chain_id: u64, cost: u64)
    requires
        g.remaining <= g.limit,
    ensures
        record_cost_result(g, chain_id, cost).0.remaining <= g.limit,
{
}

/// The final refund never exceeds the cap of the fork and is never negative.
pub proof fn lemma_final_refund_bounded(refunded: i64, spent: int, is_london: bool)
    requires
        0 <= spent <= u64::MAX,
    ensures
        0 <= final_refund(refunded, spent, is_london) <= spent / (max_refund_quotient(is_london) as int),
        refunded >= 0 && refunded <= spent / (max_refund_quotient(is_london) as int) ==> final_refund(
            refunded,
            spent,
            is_london,
        ) == refunded,
{
}


/// An operation on a gas state, as the methods of [`Gas`] perform it.
pub enum GasOp {
    RecordCost { chain_id: u64, cost: u64 },
    EraseCost { returned: u64 },
    SpendAll,
    RecordRefund { refund: i64 },
    SetRefund { refund: i64 },
    SetFinalRefund { is_london: bool },
    TrackUsedPerChain { used: Map<u64, u64> },
}

/// The state after an operation, as the method's contract gives it.
pub open spec fn apply_gas_op(g: GasView, op: GasOp) -> GasView {
    match op {
        GasOp::RecordCost { chain_id, cost } => record_cost_result(g, chain_id, cost).0,
        GasOp::EraseCost { returned } => erase_cost_result(g, returned),
        GasOp::SpendAll => GasView { remaining: 0, ..g },
        GasOp::RecordRefund { refund } => GasView { refunded: (g.refunded + refund) as i64, ..g },
        GasOp::SetRefund { refund } => GasView { refunded: refund, ..g },
        GasOp::SetFinalRefund { is_london } => GasView {
            refunded: final_refund(g.refunded, spent_of(g), is_london) as i64,
            ..g
        },
        GasOp::TrackUsedPerChain { used } => GasView { used, ..g },
    }
}

/// The state after the operations in order.
pub open spec fn apply_gas_ops(g: GasView, ops: Seq<GasOp>) -> GasView
    decreases ops.len(),
{
    if ops.len() == 0 {
        g
    } else {
        apply_gas_op(apply_gas_ops(g, ops.drop_last()), ops.last())
    }
}

/// Whether every gas returned by an operation of the list was spent when it is returned.
pub open spec fn returns_only_spent(g: GasView, ops: Seq<GasOp>) -> bool
    decreases ops.len(),
{
    if ops.len() == 0 {
        true
    } else {
        &&& returns_only_spent(g, ops.drop_last())
        &&& (ops.last() matches GasOp::EraseCost { returned } ==> returned <= spent_of(
            apply_gas_ops(g, ops.drop_last()),
        ))
    }
}

/// Over any sequence of operations the limit stays fixed; and where no operation gives back
/// more gas than was spent, the remaining gas stays within the limit.
pub proof fn lemma_gas_ops_keep_limit(g: GasView, ops: Seq<GasOp>)
    ensures
        apply_gas_ops(g, ops).limit == g.limit,
        g.remaining <= g.limit && returns_only_spent(g, ops) ==> apply_gas_ops(g, ops).remaining <= g.limit,
    decreases ops.len(),
{
    if ops.len() > 0 {
        lemma_gas_ops_keep_limit(g, ops.drop_last());
    }
}

/// The record of gas used per chain after it is replaced is the map given, and recording a
/// cost afterwards adds it to its chain's count alone.
pub proof fn lemma_used_per_chain_after_track(g: GasView, used: Map<u64, u64>, chain_id: u64, cost: u64)
    ensures
        apply_gas_op(g, GasOp::TrackUsedPerChain { used }).used == used,
        ({
            let u = apply_gas_op(apply_gas_op(g, GasOp::TrackUsedPerChain { used }), GasOp::RecordCost { chain_id, cost }).used;
            let fits = cost <= g.remaining && used_on(used, chain_id) + cost <= u64::MAX;
            &&& fits ==> used_on(u, chain_id) == used_on(used, chain_id) + cost
            &&& forall|k: u64| k != chain_id ==> #[trigger] used_on(u, k) == used_on(used, k)
            &&& cost > g.remaining ==> u == used
        }),
{
}

} // verus!
