//! The state diff of a chain: what a run of transactions changed on the selected chain,
//! read from the journal, and the calls it made from that chain to others.
use crate::assoc::{assoc_map, keys_distinct, lemma_assoc_contains, lemma_assoc_push, lemma_assoc_update};
use crate::env::TransactTo;
use crate::journal::{JournalEntry, StateChanges, XCallData, XCallDataView, XCallInput, XCallInputView, XCallOutput, XCallOutputView};
use crate::primitives::{I256, U256, fits_i256, two255, two256};
use crate::state::ChainAddress;
use vstd::prelude::*;

verus! {

/// The changes to one account, as plain values.
pub struct DiffAccountView {
    /// Storage values written, by key.
    pub storage: Map<U256, U256>,
    /// The change of the balance.
    pub balance_delta: int,
}

/// An entry of a state diff, as plain values.
pub enum DiffEntryView {
    /// Changes to accounts, by address.
    Diff { accounts: Map<ChainAddress, DiffAccountView> },
    /// A call into the selected chain.
    XCall { call: XCallDataView },
}

/// A state diff, as plain values.
pub struct StateDiffView {
    pub entries: Seq<DiffEntryView>,
    pub outputs: Seq<XCallDataView>,
}

/// The state of the reading of a journal: the diff so far, the calls out of the selected
/// chain so far, and the stack of cross-chain calls, each as (depth, chain id, native).
pub struct DiffState {
    pub entries: Seq<DiffEntryView>,
    pub outputs: Seq<XCallDataView>,
    pub call_stack: Seq<(usize, u64, bool)>,
}

/// The signed number that the bits of `u` stand for in two's complement.
pub open spec fn signed_of(u: U256) -> int {
    if u.value() < two255() {
        u.value() as int
    } else {
        u.value() - two256()
    }
}

/// The changes of an account not seen yet: none.
pub open spec fn no_change() -> DiffAccountView {
    DiffAccountView { storage: Map::empty(), balance_delta: 0 }
}

/// The changes recorded for `a`, or none.
pub open spec fn account_or_default(accounts: Map<ChainAddress, DiffAccountView>, a: ChainAddress) -> DiffAccountView {
    if accounts.contains_key(a) {
        accounts[a]
    } else {
        no_change()
    }
}

/// The entries with a `Diff` entry last: the same entries where the last one is a `Diff`,
/// else with an empty `Diff` appended.
pub open spec fn with_open_diff(entries: Seq<DiffEntryView>) -> Seq<DiffEntryView> {
    if entries.len() == 0 || !(entries.last() is Diff) {
        entries.push(DiffEntryView::Diff { accounts: Map::empty() })
    } else {
        entries
    }
}

/// The accounts of the last entry, where it is a `Diff`.
pub open spec fn last_accounts(entries: Seq<DiffEntryView>) -> Map<ChainAddress, DiffAccountView> {
    match entries.last() {
        DiffEntryView::Diff { accounts } => accounts,
        DiffEntryView::XCall { .. } => Map::empty(),
    }
}

/// The entries with the accounts of the last one replaced.
pub open spec fn set_last_accounts(
    entries: Seq<DiffEntryView>,
    accounts: Map<ChainAddress, DiffAccountView>,
) -> Seq<DiffEntryView> {
    entries.update(entries.len() - 1, DiffEntryView::Diff { accounts })
}

/// The accounts after adding `d` to the balance change of `a`; `None` where the sum
/// leaves the signed 256-bit range.
pub open spec fn credit(accounts: Map<ChainAddress, DiffAccountView>, a: ChainAddress, d: int) -> Option<
    Map<ChainAddress, DiffAccountView>,
> {
    let acct = account_or_default(accounts, a);
    if fits_i256(acct.balance_delta + d) {
        Some(accounts.insert(a, DiffAccountView { balance_delta: acct.balance_delta + d, ..acct }))
    } else {
        None
    }
}

/// The accounts after a transfer of `v` from `from` to `to`, counting only the sides on
/// the selected chain, the sender first; `None` on overflow.
pub open spec fn transfer(
    accounts: Map<ChainAddress, DiffAccountView>,
    from: ChainAddress,
    to: ChainAddress,
    v: int,
    sel: u64,
) -> Option<Map<ChainAddress, DiffAccountView>> {
    let after_from = if from.0 == sel { credit(accounts, from, -v) } else { Some(accounts) };
    match after_from {
        None => None,
        Some(m) => if to.0 == sel { credit(m, to, v) } else { Some(m) },
    }
}

/// The call into `to` that a transaction makes, as a cross-chain call with an empty output.
pub open spec fn tx_call(tx: crate::env::TxEnv, to: ChainAddress) -> XCallDataView {
    XCallDataView {
        input: XCallInputView {
            input: tx.data@,
            gas_limit: tx.gas_limit,
            bytecode_address: to,
            target_address: to,
            caller: tx.caller,
            value: tx.value,
            is_static: false,
            is_eof: false,
        },
        output: XCallOutputView { revert: false, output: Seq::empty(), gas: 0 },
    }
}

/// The state after reading one journal entry; `None` where the reading fails (an empty
/// call stack where its top is needed, a frame of another chain where a change on the
/// selected chain is tracked, more than one frame at a new transaction, or a balance
/// change out of the signed 256-bit range).
pub open spec fn diff_step(s: DiffState, e: JournalEntry, sel: u64) -> Option<DiffState> {
    match e {
        JournalEntry::StorageChanged { address, key, new, .. } => {
            if address.0 != sel {
                Some(s)
            } else if s.call_stack.len() == 0 {
                None
            } else if s.call_stack.last().2 {
                Some(s)
            } else if s.call_stack.last().1 != sel {
                None
            } else {
                let es = with_open_diff(s.entries);
                let accts = last_accounts(es);
                let acct = account_or_default(accts, address);
                let changed = DiffAccountView { storage: acct.storage.insert(key, new), ..acct };
                Some(DiffState { entries: set_last_accounts(es, accts.insert(address, changed)), ..s })
            }
        },
        JournalEntry::BalanceTransfer { from, to, balance } => {
            if from.0 != sel && to.0 != sel {
                Some(s)
            } else if s.call_stack.len() == 0 {
                None
            } else if s.call_stack.last().2 {
                Some(s)
            } else if s.call_stack.last().1 != sel {
                None
            } else {
                let es = with_open_diff(s.entries);
                match transfer(last_accounts(es), from, to, signed_of(balance), sel) {
                    None => None,
                    Some(m) => Some(DiffState { entries: set_last_accounts(es, m), ..s }),
                }
            }
        },
        JournalEntry::CallBegin { depth, data, delta, .. } => {
            if data.input.target_address.0 == data.input.caller.0 {
                Some(s)
            } else if data.input.caller.0 == sel && s.call_stack.len() == 0 {
                None
            } else {
                let outputs = if data.input.caller.0 == sel && s.call_stack.last().2 {
                    s.outputs.push(data@)
                } else {
                    s.outputs
                };
                Some(
                    DiffState {
                        outputs,
                        call_stack: s.call_stack.push((depth, data.input.target_address.0, delta)),
                        ..s
                    },
                )
            }
        },
        JournalEntry::CallEnd { depth } => {
            if s.call_stack.len() == 0 {
                None
            } else if s.call_stack.last().0 == depth {
                Some(DiffState { call_stack: s.call_stack.drop_last(), ..s })
            } else {
                Some(s)
            }
        },
        JournalEntry::TxBegin { tx } => {
            if s.call_stack.len() > 1 {
                None
            } else {
                let entries = match tx.transact_to {
                    TransactTo::Call(to) => if to.0 == sel {
                        s.entries.push(DiffEntryView::XCall { call: tx_call(tx, to) })
                    } else {
                        s.entries
                    },
                    TransactTo::Create => s.entries,
                };
                Some(
                    DiffState {
                        entries,
                        outputs: s.outputs,
                        call_stack: seq![(0usize, tx.caller.0, tx.caller.0 == sel)],
                    },
                )
            }
        },
        _ => Some(s),
    }
}

/// The state before any entry is read.
pub open spec fn diff_start() -> DiffState {
    DiffState { entries: Seq::empty(), outputs: Seq::empty(), call_stack: Seq::empty() }
}

/// The state after reading the journal entries in order; `None` where a step fails.
pub open spec fn diff_run(journal: Seq<JournalEntry>, sel: u64) -> Option<DiffState>
    decreases journal.len(),
{
    if journal.len() == 0 {
        Some(diff_start())
    } else {
        match diff_run(journal.drop_last(), sel) {
            None => None,
            Some(s) => diff_step(s, journal.last(), sel),
        }
    }
}

/// Where reading a journal succeeds, reading any prefix of it succeeds too.
pub proof fn lemma_run_prefix(journal: Seq<JournalEntry>, sel: u64, i: int)
    requires
        diff_run(journal, sel) is Some,
        0 <= i <= journal.len(),
    ensures
        diff_run(journal.subrange(0, i), sel) is Some,
    decreases journal.len(),
{
    if i < journal.len() {
        lemma_run_prefix(journal.drop_last(), sel, i);
        assert(journal.drop_last().subrange(0, i) == journal.subrange(0, i));
    } else {
        assert(journal.subrange(0, i) == journal);
    }
}

/// A storage slot of a state diff: its key and its value.
#[derive(Clone, Copy, Debug, PartialEq, Eq, Structural)]
pub struct StateDiffStorageSlot {
    key: U256,
    value: U256,
}

/// The changes to one account in a state diff.
#[derive(Debug)]
pub struct StateDiffAccount {
    storage: Vec<(U256, U256)>,
    balance_delta: I256,
}

impl View for StateDiffAccount {
    type V = DiffAccountView;

    closed spec fn view(&self) -> DiffAccountView {
        DiffAccountView { storage: assoc_map(self.storage@), balance_delta: self.balance_delta.value() }
    }
}

impl StateDiffAccount {
    /// No key of the storage occurs twice.
    pub closed spec fn wf(&self) -> bool {
        keys_distinct(self.storage@)
    }

    /// The storage values written, by key.
    pub fn storage(&self) -> (r: &Vec<(U256, U256)>)
        ensures
            assoc_map(r@) == self@.storage,
    {
        &self.storage
    }

    /// The change of the balance.
    pub fn balance_delta(&self) -> (r: I256)
        ensures
            r.value() == self@.balance_delta,
    {
        self.balance_delta
    }
}

impl Default for StateDiffAccount {
    fn default() -> (r: StateDiffAccount)
        ensures
            r@ == no_change(),
            r.wf(),
    {
        StateDiffAccount { storage: Vec::new(), balance_delta: I256::zero() }
    }
}

/// An entry of a state diff.
#[derive(Debug)]
pub enum StateDiffEntry {
    /// Changes to accounts on the selected chain, by address.
    Diff { accounts: Vec<(ChainAddress, StateDiffAccount)> },
    /// A call into the selected chain.
    XCall { call: XCallData },
}

/// The accounts as pairs of address and plain changes.
pub open spec fn account_pairs(s: Seq<(ChainAddress, StateDiffAccount)>) -> Seq<(ChainAddress, DiffAccountView)> {
    s.map_values(|p: (ChainAddress, StateDiffAccount)| (p.0, p.1@))
}

/// The accounts as a map.
pub open spec fn accounts_map(s: Seq<(ChainAddress, StateDiffAccount)>) -> Map<ChainAddress, DiffAccountView> {
    assoc_map(account_pairs(s))
}

/// No address occurs twice and every account is well formed.
pub open spec fn accounts_wf(s: Seq<(ChainAddress, StateDiffAccount)>) -> bool {
    &&& keys_distinct(account_pairs(s))
    &&& forall|i: int| 0 <= i < s.len() ==> (#[trigger] s[i]).1.wf()
}

impl View for StateDiffEntry {
    type V = DiffEntryView;

    open spec fn view(&self) -> DiffEntryView {
        match self {
            StateDiffEntry::Diff { accounts } => DiffEntryView::Diff { accounts: accounts_map(accounts@) },
            StateDiffEntry::XCall { call } => DiffEntryView::XCall { call: call@ },
        }
    }
}

/// The entries as plain values.
pub open spec fn entries_view(s: Seq<StateDiffEntry>) -> Seq<DiffEntryView> {
    s.map_values(|e: StateDiffEntry| e@)
}

/// Every `Diff` entry is well formed.
pub open spec fn entries_wf(s: Seq<StateDiffEntry>) -> bool {
    forall|i: int| 0 <= i < s.len() ==> match #[trigger] s[i] {
        StateDiffEntry::Diff { accounts } => accounts_wf(accounts@),
        StateDiffEntry::XCall { .. } => true,
    }
}

/// The calls as plain values.
pub open spec fn calls_view(s: Seq<XCallData>) -> Seq<XCallDataView> {
    s.map_values(|c: XCallData| c@)
}

/// The state diff of the selected chain.
#[derive(Debug)]
pub struct StateDiff {
    /// Changes and incoming calls, in the order they happened.
    pub entries: Vec<StateDiffEntry>,
    /// Calls made from the selected chain, natively, to other chains.
    pub outputs: Vec<XCallData>,
}

impl View for StateDiff {
    type V = StateDiffView;

    open spec fn view(&self) -> StateDiffView {
        StateDiffView { entries: entries_view(self.entries@), outputs: calls_view(self.outputs@) }
    }
}

/// The index of the account with the given address, if any.
fn account_position(s: &Vec<(ChainAddress, StateDiffAccount)>, k: ChainAddress) -> (r: Option<usize>)
    ensures
        match r {
            Some(i) => i < s@.len() && s@[i as int].0 == k,
            None => forall|i: int| 0 <= i < s@.len() ==> s@[i].0 != k,
        },
{
    let mut i: usize = 0;
    while i < s.len()
        invariant
            0 <= i <= s@.len(),
            forall|j: int| 0 <= j < i ==> s@[j].0 != k,
        decreases s@.len() - i,
    {
        if s[i].0 == k {
            return Some(i);
        }
        i += 1;
    }
    None
}

/// The index of the storage value with the given key, if any.
fn key_position(s: &Vec<(U256, U256)>, k: U256) -> (r: Option<usize>)
    ensures
        match r {
            Some(i) => i < s@.len() && s@[i as int].0 == k,
            None => forall|i: int| 0 <= i < s@.len() ==> s@[i].0 != k,
        },
{
    let mut i: usize = 0;
    while i < s.len()
        invariant
            0 <= i <= s@.len(),
            forall|j: int| 0 <= j < i ==> s@[j].0 != k,
        decreases s@.len() - i,
    {
        if s[i].0 == k {
            return Some(i);
        }
        i += 1;
    }
    None
}

impl StateDiffAccount {
    /// Records that slot `key` now holds `value`.
    fn set_slot(&mut self, key: U256, value: U256)
        requires
            old(self).wf(),
        ensures
            final(self).wf(),
            final(self)@ == (DiffAccountView { storage: old(self)@.storage.insert(key, value), ..old(self)@ }),
    {
        let ghost s0 = self.storage@;
        match key_position(&self.storage, key) {
            Some(i) => {
                self.storage.set(i, (key, value));
                proof {
                    lemma_assoc_update(s0, i as int, value);
                }
            },
            None => {
                proof {
                    lemma_assoc_contains(s0, key);
                    lemma_assoc_push(s0, key, value);
                }
                self.storage.push((key, value));
            },
        }
    }

    /// Adds `amount`, or with `negate` subtracts it, to the balance change.
    fn add_delta(&mut self, amount: I256, negate: bool)
        requires
            old(self).wf(),
            fits_i256(old(self)@.balance_delta + if negate { -amount.value() } else { amount.value() }),
        ensures
            final(self).wf(),
            final(self)@ == (DiffAccountView {
                balance_delta: old(self)@.balance_delta + if negate { -amount.value() } else { amount.value() },
                ..old(self)@
            }),
    {
        let r = if negate {
            crate::primitives::i256_checked_sub(self.balance_delta, amount)
        } else {
            crate::primitives::i256_checked_add(self.balance_delta, amount)
        };
        match r {
            Some(d) => {
                self.balance_delta = d;
            },
            None => {},
        }
    }
}

/// Makes sure the account of `address` is in the list; returns its index.
fn ensure_account(accts: &mut Vec<(ChainAddress, StateDiffAccount)>, address: ChainAddress) -> (pos: usize)
    requires
        accounts_wf(old(accts)@),
    ensures
        accounts_wf(final(accts)@),
        pos < final(accts)@.len(),
        final(accts)@[pos as int].0 == address,
        final(accts)@[pos as int].1@ == account_or_default(accounts_map(old(accts)@), address),
        accounts_map(final(accts)@) == if accounts_map(old(accts)@).contains_key(address) {
            accounts_map(old(accts)@)
        } else {
            accounts_map(old(accts)@).insert(address, no_change())
        },
{
    let ghost s0 = accts@;
    proof {
        lemma_assoc_contains(account_pairs(s0), address);
    }
    match account_position(accts, address) {
        Some(i) => {
            proof {
                assert(account_pairs(s0)[i as int].0 == address);
            }
            i
        },
        None => {
            let d = StateDiffAccount::default();
            accts.push((address, d));
            proof {
                assert(!accounts_map(s0).contains_key(address)) by {
                    if accounts_map(s0).contains_key(address) {
                        let j = choose|j: int| 0 <= j < account_pairs(s0).len() && account_pairs(s0)[j].0 == address;
                        assert(s0[j].0 == address);
                    }
                }
                assert(account_pairs(accts@) == account_pairs(s0).push((address, no_change())));
                lemma_assoc_push(account_pairs(s0), address, no_change());
            }
            accts.len() - 1
        },
    }
}

/// Replaces the account at `pos`.
fn replace_account(accts: &mut Vec<(ChainAddress, StateDiffAccount)>, pos: usize, a: StateDiffAccount)
    requires
        accounts_wf(old(accts)@),
        pos < old(accts)@.len(),
        a.wf(),
    ensures
        accounts_wf(final(accts)@),
        final(accts)@.len() == old(accts)@.len(),
        accounts_map(final(accts)@) == accounts_map(old(accts)@).insert(old(accts)@[pos as int].0, a@),
{
    let ghost s0 = accts@;
    let k = accts[pos].0;
    accts.set(pos, (k, a));
    proof {
        assert(account_pairs(accts@) == account_pairs(s0).update(pos as int, (account_pairs(s0)[pos as int].0, a@)));
        lemma_assoc_update(account_pairs(s0), pos as int, a@);
        assert forall|i: int| 0 <= i < accts@.len() implies (#[trigger] accts@[i]).1.wf() by {
            if i != pos {
                assert(accts@[i] == s0[i]);
            }
        }
    }
}

/// Takes the account at `pos` out, leaving an empty one in its place.
fn take_account(accts: &mut Vec<(ChainAddress, StateDiffAccount)>, pos: usize) -> (a: StateDiffAccount)
    requires
        accounts_wf(old(accts)@),
        pos < old(accts)@.len(),
    ensures
        a == old(accts)@[pos as int].1,
        a.wf(),
        accounts_wf(final(accts)@),
        final(accts)@.len() == old(accts)@.len(),
        final(accts)@[pos as int].0 == old(accts)@[pos as int].0,
        accounts_map(final(accts)@) == accounts_map(old(accts)@).insert(old(accts)@[pos as int].0, no_change()),
{
    let ghost s0 = accts@;
    let (k, a) = accts.remove(pos);
    let d = StateDiffAccount::default();
    accts.insert(pos, (k, d));
    proof {
        assert(accts@ =~= s0.update(pos as int, (k, d)));
        assert(account_pairs(accts@) == account_pairs(s0).update(pos as int, (account_pairs(s0)[pos as int].0, no_change())));
        lemma_assoc_update(account_pairs(s0), pos as int, no_change());
        assert forall|i: int| 0 <= i < accts@.len() implies (#[trigger] accts@[i]).1.wf() by {
            if i != pos {
                assert(accts@[i] == s0[i]);
            }
        }
    }
    a
}

/// The entries after the accounts of the last one, a `Diff`, are set to `m`.
proof fn lemma_set_last(
    old_entries: Seq<StateDiffEntry>,
    accounts: Vec<(ChainAddress, StateDiffAccount)>,
)
    requires
        old_entries.len() > 0,
        entries_wf(old_entries),
        accounts_wf(accounts@),
    ensures
        entries_view(old_entries.drop_last().push(StateDiffEntry::Diff { accounts })) == set_last_accounts(
            entries_view(old_entries),
            accounts_map(accounts@),
        ),
        entries_wf(old_entries.drop_last().push(StateDiffEntry::Diff { accounts })),
{
    let n = old_entries.drop_last().push(StateDiffEntry::Diff { accounts });
    assert(entries_view(n) =~= set_last_accounts(entries_view(old_entries), accounts_map(accounts@)));
    assert forall|i: int| 0 <= i < n.len() implies match #[trigger] n[i] {
        StateDiffEntry::Diff { accounts } => accounts_wf(accounts@),
        StateDiffEntry::XCall { .. } => true,
    } by {
        if i < n.len() - 1 {
            assert(n[i] == old_entries[i]);
        }
    }
}

/// Makes the last entry a `Diff`, appending an empty one where needed.
fn open_diff(entries: &mut Vec<StateDiffEntry>)
    requires
        entries_wf(old(entries)@),
    ensures
        entries_wf(final(entries)@),
        entries_view(final(entries)@) == with_open_diff(entries_view(old(entries)@)),
        final(entries)@.len() > 0,
        final(entries)@.last() is Diff,
{
    let n = entries.len();
    let need = if n == 0 {
        true
    } else {
        match &entries[n - 1] {
            StateDiffEntry::Diff { .. } => false,
            StateDiffEntry::XCall { .. } => true,
        }
    };
    let ghost e0 = entries@;
    if need {
        entries.push(StateDiffEntry::Diff { accounts: Vec::new() });
        proof {
            let acc: Seq<(ChainAddress, StateDiffAccount)> = Seq::empty();
            assert(account_pairs(acc) =~= Seq::empty());
            assert(accounts_map(acc) == Map::<ChainAddress, DiffAccountView>::empty());
            assert(entries_view(entries@) =~= entries_view(e0).push(DiffEntryView::Diff { accounts: Map::empty() }));
            assert forall|i: int| 0 <= i < entries@.len() implies match #[trigger] entries@[i] {
                StateDiffEntry::Diff { accounts } => accounts_wf(accounts@),
                StateDiffEntry::XCall { .. } => true,
            } by {
                if i < e0.len() {
                    assert(entries@[i] == e0[i]);
                } else {
                    assert(account_pairs(entries@[i]->accounts@) =~= Seq::empty());
                }
            }
        }
    } else {
        proof {
            assert(entries_view(e0).last() == e0.last()@);
        }
    }
}

/// Records, in the last entry, that slot `key` of `address` now holds `new`.
fn record_slot(entries: &mut Vec<StateDiffEntry>, address: ChainAddress, key: U256, new: U256)
    requires
        entries_wf(old(entries)@),
        old(entries)@.len() > 0,
        old(entries)@.last() is Diff,
    ensures
        entries_wf(final(entries)@),
        entries_view(final(entries)@) == ({
            let v = entries_view(old(entries)@);
            let accts = last_accounts(v);
            let acct = account_or_default(accts, address);
            set_last_accounts(v, accts.insert(address, DiffAccountView { storage: acct.storage.insert(key, new), ..acct }))
        }),
{
    let ghost e0 = entries@;
    let last = entries.pop().unwrap();
    match last {
        StateDiffEntry::Diff { mut accounts } => {
            proof {
                assert(e0[e0.len() - 1] == e0.last());
                assert(entries_view(e0).last() == e0.last()@);
            }
            let ghost m0 = accounts_map(accounts@);
            let pos = ensure_account(&mut accounts, address);
            let mut a = take_account(&mut accounts, pos);
            a.set_slot(key, new);
            replace_account(&mut accounts, pos, a);
            proof {
                assert(accounts_map(accounts@) =~= m0.insert(address, DiffAccountView {
                    storage: account_or_default(m0, address).storage.insert(key, new),
                    ..account_or_default(m0, address)
                }));
            }
            entries.push(StateDiffEntry::Diff { accounts });
            proof {
                lemma_set_last(e0, accounts);
            }
        },
        StateDiffEntry::XCall { call } => {
            entries.push(StateDiffEntry::XCall { call });
        },
    }
}

/// Adds `amount`, or with `negate` subtracts it, to the balance change of `address` in the
/// last entry.
fn record_delta(entries: &mut Vec<StateDiffEntry>, address: ChainAddress, amount: I256, negate: bool)
    requires
        entries_wf(old(entries)@),
        old(entries)@.len() > 0,
        old(entries)@.last() is Diff,
        credit(
            last_accounts(entries_view(old(entries)@)),
            address,
            if negate { -amount.value() } else { amount.value() },
        ) is Some,
    ensures
        entries_wf(final(entries)@),
        final(entries)@.len() > 0,
        final(entries)@.last() is Diff,
        entries_view(final(entries)@) == set_last_accounts(
            entries_view(old(entries)@),
            credit(
                last_accounts(entries_view(old(entries)@)),
                address,
                if negate { -amount.value() } else { amount.value() },
            ).unwrap(),
        ),
{
    let ghost e0 = entries@;
    let last = entries.pop().unwrap();
    match last {
        StateDiffEntry::Diff { mut accounts } => {
            proof {
                assert(e0[e0.len() - 1] == e0.last());
                assert(entries_view(e0).last() == e0.last()@);
            }
            let ghost m0 = accounts_map(accounts@);
            let pos = ensure_account(&mut accounts, address);
            let mut a = take_account(&mut accounts, pos);
            a.add_delta(amount, negate);
            replace_account(&mut accounts, pos, a);
            proof {
                assert(accounts_map(accounts@) =~= credit(m0, address, if negate { -amount.value() } else { amount.value() }).unwrap());
            }
            entries.push(StateDiffEntry::Diff { accounts });
            proof {
                lemma_set_last(e0, accounts);
            }
        },
        StateDiffEntry::XCall { call } => {
            entries.push(StateDiffEntry::XCall { call });
        },
    }
}

/// Setting the accounts of the last entry and reading them back gives them; setting them
/// twice keeps the second.
proof fn lemma_last_accounts(v: Seq<DiffEntryView>, m1: Map<ChainAddress, DiffAccountView>, m2: Map<ChainAddress, DiffAccountView>)
    requires
        v.len() > 0,
    ensures
        last_accounts(set_last_accounts(v, m1)) == m1,
        set_last_accounts(v, m1).len() == v.len(),
        set_last_accounts(set_last_accounts(v, m1), m2) == set_last_accounts(v, m2),
        set_last_accounts(v, m1).last() is Diff,
{
    assert(set_last_accounts(set_last_accounts(v, m1), m2) =~= set_last_accounts(v, m2));
}

/// Whether adding `amount` (with `negate`, subtracting it) to the balance change of `address`
/// in the last entry, a `Diff`, stays within the signed 256-bit range.
fn delta_fits(entries: &Vec<StateDiffEntry>, address: ChainAddress, amount: I256, negate: bool) -> (r: bool)
    requires
        entries_wf(entries@),
        entries@.len() > 0,
        entries@.last() is Diff,
    ensures
        r == credit(
            last_accounts(entries_view(entries@)),
            address,
            if negate { -amount.value() } else { amount.value() },
        ) is Some,
{
    let n = entries.len();
    proof {
        assert(entries@[n - 1] == entries@.last());
        assert(entries_view(entries@).last() == entries@.last()@);
        assert(entries_wf(entries@) ==> match entries@[n - 1] {
            StateDiffEntry::Diff { accounts } => accounts_wf(accounts@),
            StateDiffEntry::XCall { .. } => true,
        });
    }
    match &entries[n - 1] {
        StateDiffEntry::Diff { accounts } => {
            proof {
                lemma_assoc_contains(account_pairs(accounts@), address);
            }
            let current = match account_position(accounts, address) {
                Some(i) => {
                    proof {
                        assert(account_pairs(accounts@)[i as int].0 == address);
                    }
                    accounts[i].1.balance_delta()
                },
                None => {
                    proof {
                        if accounts_map(accounts@).contains_key(address) {
                            let j = choose|j: int| 0 <= j < account_pairs(accounts@).len() && account_pairs(accounts@)[j].0 == address;
                            assert(accounts@[j].0 == address);
                        }
                    }
                    I256::zero()
                },
            };
            let sum = if negate {
                crate::primitives::i256_checked_sub(current, amount)
            } else {
                crate::primitives::i256_checked_add(current, amount)
            };
            sum.is_some()
        },
        StateDiffEntry::XCall { .. } => false,
    }
}

/// Reads one entry of the journal into the state diff being built (`entries`, `outputs` and
/// the stack of cross-chain frames), as [`diff_step`] says; `false` where the reading does not
/// accept the entry, and then what the three hold is left unsaid.
fn apply_entry(
    entries: &mut Vec<StateDiffEntry>,
    outputs: &mut Vec<XCallData>,
    call_stack: &mut Vec<(usize, u64, bool)>,
    e: &JournalEntry,
    sel: u64,
) -> (ok: bool)
    requires
        entries_wf(old(entries)@),
    ensures
        ok == diff_step(
            DiffState { entries: entries_view(old(entries)@), outputs: calls_view(old(outputs)@), call_stack: old(call_stack)@ },
            *e,
            sel,
        ) is Some,
        ok ==> entries_wf(final(entries)@) && diff_step(
            DiffState { entries: entries_view(old(entries)@), outputs: calls_view(old(outputs)@), call_stack: old(call_stack)@ },
            *e,
            sel,
        ) == Some(DiffState { entries: entries_view(final(entries)@), outputs: calls_view(final(outputs)@), call_stack: final(call_stack)@ }),
{
    let ghost st = DiffState { entries: entries_view(entries@), outputs: calls_view(outputs@), call_stack: call_stack@ };
    match e {
        JournalEntry::StorageChanged { address, key, new, .. } => {
            if address.0 == sel {
                if call_stack.len() == 0 {
                    return false;
                }
                let top = call_stack[call_stack.len() - 1];
                if !top.2 {
                    if top.1 != sel {
                        return false;
                    }
                    open_diff(entries);
                    record_slot(entries, *address, *key, *new);
                }
            }
        },
        JournalEntry::BalanceTransfer { from, to, balance } => {
            if from.0 == sel || to.0 == sel {
                if call_stack.len() == 0 {
                    return false;
                }
                let top = call_stack[call_stack.len() - 1];
                if !top.2 {
                    if top.1 != sel {
                        return false;
                    }
                    open_diff(entries);
                    let ghost v1 = entries_view(entries@);
                    let amount = I256::from_limbs_of(*balance);
                    if from.0 == sel {
                        if !delta_fits(entries, *from, amount, true) {
                            return false;
                        }
                        record_delta(entries, *from, amount, true);
                        proof {
                            lemma_last_accounts(v1, credit(last_accounts(v1), *from, -amount.value()).unwrap(), Map::empty());
                        }
                    }
                    let ghost v2 = entries_view(entries@);
                    if to.0 == sel {
                        if !delta_fits(entries, *to, amount, false) {
                            return false;
                        }
                        record_delta(entries, *to, amount, false);
                        proof {
                            if from.0 == sel {
                                lemma_last_accounts(v1, last_accounts(v2), last_accounts(entries_view(entries@)));
                            }
                        }
                    }
                    proof {
                        let m = transfer(last_accounts(v1), *from, *to, signed_of(*balance), sel).unwrap();
                        if to.0 != sel {
                            if from.0 == sel {
                                assert(entries_view(entries@) == set_last_accounts(v1, m));
                            } else {
                                assert(m == last_accounts(v1));
                                assert(set_last_accounts(v1, last_accounts(v1)) =~= v1);
                            }
                        } else {
                            if from.0 != sel {
                                assert(v2 == v1);
                            }
                            lemma_last_accounts(v1, last_accounts(v2), m);
                        }
                    }
                }
            }
        },
        JournalEntry::CallBegin { depth, data, delta, .. } => {
            if data.input.target_address.0 != data.input.caller.0 {
                if data.input.caller.0 == sel && call_stack.len() == 0 {
                    return false;
                }
                if data.input.caller.0 == sel && call_stack[call_stack.len() - 1].2 {
                    let c = data.clone();
                    outputs.push(c);
                    proof {
                        assert(calls_view(outputs@) =~= st.outputs.push(data@));
                    }
                }
                call_stack.push((*depth, data.input.target_address.0, *delta));
            }
        },
        JournalEntry::CallEnd { depth } => {
            if call_stack.len() == 0 {
                return false;
            }
            if call_stack[call_stack.len() - 1].0 == *depth {
                call_stack.pop();
            }
        },
        JournalEntry::TxBegin { tx } => {
            if call_stack.len() > 1 {
                return false;
            }
            *call_stack = Vec::new();
            call_stack.push((0usize, tx.caller.0, tx.caller.0 == sel));
            proof {
                assert(call_stack@ =~= seq![(0usize, tx.caller.0, tx.caller.0 == sel)]);
            }
            match tx.transact_to.to() {
                Some(to) => {
                    if to.0 == sel {
                        let call = XCallData {
                            input: XCallInput {
                                input: tx.data.clone(),
                                gas_limit: tx.gas_limit,
                                bytecode_address: to,
                                target_address: to,
                                caller: tx.caller,
                                value: tx.value,
                                is_static: false,
                                is_eof: false,
                            },
                            output: XCallOutput { revert: false, output: Vec::new(), gas: 0 },
                        };
                        let ghost e0 = entries@;
                        entries.push(StateDiffEntry::XCall { call });
                        proof {
                            assert(call@ == tx_call(*tx, to));
                            assert(entries_view(entries@) =~= entries_view(e0).push(DiffEntryView::XCall { call: tx_call(*tx, to) }));
                            assert forall|j: int| 0 <= j < entries@.len() implies match #[trigger] entries@[j] {
                                StateDiffEntry::Diff { accounts } => accounts_wf(accounts@),
                                StateDiffEntry::XCall { .. } => true,
                            } by {
                                if j < e0.len() {
                                    assert(entries@[j] == e0[j]);
                                }
                            }
                        }
                    }
                },
                None => {},
            }
        },
        _ => {},
    }
    true
}

/// Reads the journal and returns the state diff of the chain `selected_chain_id`.
///
/// Storage writes and balance transfers on the selected chain are collected into `Diff`
/// entries while the innermost cross-chain frame is not native to the selected chain; a
/// transaction that calls into the selected chain adds an `XCall` entry; and calls made
/// natively from the selected chain to another chain are collected as outputs. The
/// journal must be one that the reading accepts (see [`diff_step`]); the others are not
/// well-formed journals of a run (see [`try_create_state_diff`] for a reading that tells).
pub fn create_state_diff(state_changes: StateChanges, selected_chain_id: u64) -> (r: StateDiff)
    requires
        diff_run(state_changes.entries@, selected_chain_id) is Some,
    ensures
        r@.entries == diff_run(state_changes.entries@, selected_chain_id).unwrap().entries,
        r@.outputs == diff_run(state_changes.entries@, selected_chain_id).unwrap().outputs,
{
    let sel = selected_chain_id;
    let mut entries: Vec<StateDiffEntry> = Vec::new();
    let mut outputs: Vec<XCallData> = Vec::new();
    let mut call_stack: Vec<(usize, u64, bool)> = Vec::new();
    let journal = &state_changes.entries;
    let n = journal.len();
    let mut i: usize = 0;
    proof {
        assert(journal@.subrange(0, 0) =~= Seq::<JournalEntry>::empty());
        assert(entries_view(entries@) =~= Seq::<DiffEntryView>::empty());
        assert(calls_view(outputs@) =~= Seq::<XCallDataView>::empty());
    }
    while i < n
        invariant
            n == journal@.len(),
            0 <= i <= n,
            diff_run(journal@, sel) is Some,
            entries_wf(entries@),
            diff_run(journal@.subrange(0, i as int), sel) == Some(
                DiffState { entries: entries_view(entries@), outputs: calls_view(outputs@), call_stack: call_stack@ },
            ),
        decreases n - i,
    {
        proof {
            lemma_run_prefix(journal@, sel, i + 1);
            assert(journal@.subrange(0, i + 1).drop_last() == journal@.subrange(0, i as int));
            assert(journal@.subrange(0, i + 1).last() == journal@[i as int]);
        }
        // The reading accepts every entry of this journal, so the step always succeeds.
        apply_entry(&mut entries, &mut outputs, &mut call_stack, &journal[i], sel);
        i += 1;
    }
    proof {
        assert(journal@.subrange(0, n as int) == journal@);
    }
    StateDiff { entries, outputs }
}

/// The state diff of the chain `selected_chain_id` (see [`create_state_diff`]) where the
/// reading accepts the journal, else `None`.
pub fn try_create_state_diff(state_changes: StateChanges, selected_chain_id: u64) -> (r: Option<StateDiff>)
    ensures
        r is Some <==> diff_run(state_changes.entries@, selected_chain_id) is Some,
        r matches Some(d) ==> d@.entries == diff_run(state_changes.entries@, selected_chain_id).unwrap().entries
            && d@.outputs == diff_run(state_changes.entries@, selected_chain_id).unwrap().outputs,
{
    let sel = selected_chain_id;
    let mut entries: Vec<StateDiffEntry> = Vec::new();
    let mut outputs: Vec<XCallData> = Vec::new();
    let mut call_stack: Vec<(usize, u64, bool)> = Vec::new();
    let journal = &state_changes.entries;
    let n = journal.len();
    let mut i: usize = 0;
    proof {
        assert(journal@.subrange(0, 0) =~= Seq::<JournalEntry>::empty());
        assert(entries_view(entries@) =~= Seq::<DiffEntryView>::empty());
        assert(calls_view(outputs@) =~= Seq::<XCallDataView>::empty());
    }
    while i < n
        invariant
            n == journal@.len(),
            journal@ == state_changes.entries@,
            sel == selected_chain_id,
            0 <= i <= n,
            entries_wf(entries@),
            diff_run(journal@.subrange(0, i as int), sel) == Some(
                DiffState { entries: entries_view(entries@), outputs: calls_view(outputs@), call_stack: call_stack@ },
            ),
        decreases n - i,
    {
        proof {
            assert(journal@.subrange(0, i + 1).drop_last() == journal@.subrange(0, i as int));
            assert(journal@.subrange(0, i + 1).last() == journal@[i as int]);
        }
        let ghost st = DiffState { entries: entries_view(entries@), outputs: calls_view(outputs@), call_stack: call_stack@ };
        let ok = apply_entry(&mut entries, &mut outputs, &mut call_stack, &journal[i], sel);
        if !ok {
            proof {
                assert(diff_step(st, journal@[i as int], sel) is None);
                assert(diff_run(journal@.subrange(0, i + 1), sel) is None);
                if diff_run(journal@, sel) is Some {
                    lemma_run_prefix(journal@, sel, i + 1);
                }
            }
            return None;
        }
        i += 1;
    }
    proof {
        assert(journal@.subrange(0, n as int) == journal@);
    }
    Some(StateDiff { entries, outputs })
}

/// Only a call between chains made from the selected chain while the innermost
/// cross-chain frame is native to the selected chain is an output: reading such a call
/// appends exactly it to the outputs, and reading any other entry, a call made from a frame
/// that runs on behalf of another chain among them, leaves the outputs as they were.
pub proof fn lemma_outputs_are_native_calls(s: DiffState, e: JournalEntry, sel: u64)
    requires
        diff_step(s, e, sel) is Some,
    ensures
        ({
            let t = diff_step(s, e, sel).unwrap();
            match e {
                JournalEntry::CallBegin { data, .. } => if data.input.target_address.0 != data.input.caller.0
                    && data.input.caller.0 == sel && s.call_stack[s.call_stack.len() - 1].2 {
                    t.outputs == s.outputs.push(data@)
                } else {
                    t.outputs == s.outputs
                },
                _ => t.outputs == s.outputs,
            }
        }),
{
}

/// What every state diff satisfies: each output is a call from the selected chain to
/// another chain; each `XCall` entry is a call into the selected chain; each `Diff` entry
/// holds at least one account and only accounts of the selected chain; and no two `Diff`
/// entries are adjacent.
pub open spec fn diff_well_formed(entries: Seq<DiffEntryView>, outputs: Seq<XCallDataView>, sel: u64) -> bool {
    &&& forall|i: int| 0 <= i < outputs.len() ==> (#[trigger] outputs[i]).input.caller.0 == sel
        && outputs[i].input.target_address.0 != sel
    &&& forall|i: int| 0 <= i < entries.len() ==> match #[trigger] entries[i] {
        DiffEntryView::XCall { call } => call.input.target_address.0 == sel,
        DiffEntryView::Diff { accounts } => accounts.dom().len() > 0 && accounts.dom().finite()
            && forall|a: ChainAddress| #[trigger] accounts.contains_key(a) ==> a.0 == sel,
    }
    &&& forall|i: int| 0 <= i < entries.len() - 1 ==> !((#[trigger] entries[i]) is Diff && entries[i + 1] is Diff)
}

/// Reading one more entry keeps the state diff well formed.
proof fn lemma_step_well_formed(s: DiffState, e: JournalEntry, sel: u64)
    requires
        diff_well_formed(s.entries, s.outputs, sel),
        diff_step(s, e, sel) is Some,
    ensures
        diff_well_formed(diff_step(s, e, sel).unwrap().entries, diff_step(s, e, sel).unwrap().outputs, sel),
{
    let t = diff_step(s, e, sel).unwrap();
    let es = with_open_diff(s.entries);
    match e {
        JournalEntry::StorageChanged { address, key, new, .. } => {
            if address.0 == sel && !s.call_stack.last().2 {
                let accts = last_accounts(es);
                let acct = account_or_default(accts, address);
                let changed = DiffAccountView { storage: acct.storage.insert(key, new), ..acct };
                lemma_open_diff_facts(s.entries, sel);
                let m = accts.insert(address, changed);
                assert(m.contains_key(address));
                assert(m.dom().len() > 0) by {
                    assert(m.dom().contains(address));
                    vstd::set_lib::lemma_set_empty_equivalency_len(m.dom());
                }
                assert forall|i: int| 0 <= i < t.entries.len() implies match #[trigger] t.entries[i] {
                    DiffEntryView::XCall { call } => call.input.target_address.0 == sel,
                    DiffEntryView::Diff { accounts } => accounts.dom().len() > 0 && accounts.dom().finite()
                        && forall|a: ChainAddress| #[trigger] accounts.contains_key(a) ==> a.0 == sel,
                } by {
                    if i < es.len() - 1 {
                        assert(t.entries[i] == es[i]);
                    }
                }
                assert forall|i: int| 0 <= i < t.entries.len() - 1 implies !((#[trigger] t.entries[i]) is Diff && t.entries[i + 1] is Diff) by {
                    assert(t.entries[i] == es[i]);
                }
            }
        },
        JournalEntry::BalanceTransfer { from, to, balance } => {
            if (from.0 == sel || to.0 == sel) && !s.call_stack.last().2 {
                lemma_open_diff_facts(s.entries, sel);
                let accts = last_accounts(es);
                let v = signed_of(balance);
                let m = transfer(accts, from, to, v, sel).unwrap();
                let after_from = if from.0 == sel { credit(accts, from, -v) } else { Some(accts) };
                let m1 = after_from.unwrap();
                assert(forall|a: ChainAddress| #[trigger] m1.contains_key(a) ==> a.0 == sel);
                assert(m1.dom().finite());
                assert(forall|a: ChainAddress| #[trigger] m.contains_key(a) ==> a.0 == sel);
                assert(m.dom().finite());
                let w = if from.0 == sel { from } else { to };
                assert(m.contains_key(w));
                assert(m.dom().len() > 0) by {
                    assert(m.dom().contains(w));
                    vstd::set_lib::lemma_set_empty_equivalency_len(m.dom());
                }
                assert forall|i: int| 0 <= i < t.entries.len() implies match #[trigger] t.entries[i] {
                    DiffEntryView::XCall { call } => call.input.target_address.0 == sel,
                    DiffEntryView::Diff { accounts } => accounts.dom().len() > 0 && accounts.dom().finite()
                        && forall|a: ChainAddress| #[trigger] accounts.contains_key(a) ==> a.0 == sel,
                } by {
                    if i < es.len() - 1 {
                        assert(t.entries[i] == es[i]);
                    }
                }
                assert forall|i: int| 0 <= i < t.entries.len() - 1 implies !((#[trigger] t.entries[i]) is Diff && t.entries[i + 1] is Diff) by {
                    assert(t.entries[i] == es[i]);
                }
            }
        },
        JournalEntry::CallBegin { depth, data, delta, .. } => {
            assert forall|i: int| 0 <= i < t.outputs.len() implies (#[trigger] t.outputs[i]).input.caller.0 == sel
                && t.outputs[i].input.target_address.0 != sel by {
                if i < s.outputs.len() {
                    assert(t.outputs[i] == s.outputs[i]);
                }
            }
        },
        JournalEntry::TxBegin { tx } => {
            assert forall|i: int| 0 <= i < t.entries.len() implies match #[trigger] t.entries[i] {
                DiffEntryView::XCall { call } => call.input.target_address.0 == sel,
                DiffEntryView::Diff { accounts } => accounts.dom().len() > 0 && accounts.dom().finite()
                    && forall|a: ChainAddress| #[trigger] accounts.contains_key(a) ==> a.0 == sel,
            } by {
                if i < s.entries.len() {
                    assert(t.entries[i] == s.entries[i]);
                }
            }
            assert forall|i: int| 0 <= i < t.entries.len() - 1 implies !((#[trigger] t.entries[i]) is Diff && t.entries[i + 1] is Diff) by {
                assert(t.entries[i] == s.entries[i]);
            }
        },
        _ => {},
    }
}

/// The facts about opening a `Diff` entry that the step lemma needs.
proof fn lemma_open_diff_facts(entries: Seq<DiffEntryView>, sel: u64)
    requires
        diff_well_formed(entries, Seq::empty(), sel),
    ensures
        with_open_diff(entries).len() > 0,
        with_open_diff(entries).last() is Diff,
        forall|a: ChainAddress| #[trigger] last_accounts(with_open_diff(entries)).contains_key(a) ==> a.0 == sel,
        last_accounts(with_open_diff(entries)).dom().finite(),
        forall|i: int| 0 <= i < with_open_diff(entries).len() - 1 ==> with_open_diff(entries)[i] == entries[i],
        with_open_diff(entries).len() - 1 <= entries.len(),
        with_open_diff(entries).len() >= 2 ==> !(with_open_diff(entries)[with_open_diff(entries).len() - 2] is Diff)
            || with_open_diff(entries).len() - 1 < entries.len(),
        with_open_diff(entries).len() == entries.len() ==> entries.len() > 0 && entries.last() is Diff,
{
    let es = with_open_diff(entries);
    if entries.len() == 0 || !(entries.last() is Diff) {
        assert(last_accounts(es) == Map::<ChainAddress, DiffAccountView>::empty());
    } else {
        assert(entries[entries.len() - 1] == entries.last());
    }
}

/// Every journal that the reading accepts gives a well-formed state diff (see
/// [`diff_well_formed`]).
pub proof fn lemma_state_diff_well_formed(journal: Seq<JournalEntry>, sel: u64)
    requires
        diff_run(journal, sel) is Some,
    ensures
        diff_well_formed(diff_run(journal, sel).unwrap().entries, diff_run(journal, sel).unwrap().outputs, sel),
    decreases journal.len(),
{
    if journal.len() > 0 {
        lemma_run_prefix(journal, sel, journal.len() - 1);
        assert(journal.subrange(0, journal.len() - 1) == journal.drop_last());
        lemma_state_diff_well_formed(journal.drop_last(), sel);
        lemma_step_well_formed(diff_run(journal.drop_last(), sel).unwrap(), journal.last(), sel);
    }
}


/// The number of `XCall` entries.
pub open spec fn count_xcalls(es: Seq<DiffEntryView>) -> nat
    decreases es.len(),
{
    if es.len() == 0 {
        0
    } else {
        count_xcalls(es.drop_last()) + if es.last() is XCall { 1nat } else { 0nat }
    }
}

/// Whether a journal entry begins a transaction that calls into chain `sel`.
pub open spec fn calls_into(e: JournalEntry, sel: u64) -> bool {
    e matches JournalEntry::TxBegin { tx } && tx.transact_to matches TransactTo::Call(c) && c.0 == sel
}

/// The number of transactions of the journal that call into chain `sel`.
pub open spec fn count_calls_into(journal: Seq<JournalEntry>, sel: u64) -> nat
    decreases journal.len(),
{
    if journal.len() == 0 {
        0
    } else {
        count_calls_into(journal.drop_last(), sel) + if calls_into(journal.last(), sel) { 1nat } else { 0nat }
    }
}

/// Opening a diff and replacing its accounts adds no `XCall` entry.
proof fn lemma_count_open_diff(es: Seq<DiffEntryView>, m: Map<ChainAddress, DiffAccountView>)
    ensures
        count_xcalls(set_last_accounts(with_open_diff(es), m)) == count_xcalls(es),
{
    let w = with_open_diff(es);
    if es.len() == 0 || !(es.last() is Diff) {
        assert(w.drop_last() =~= es);
    }
    assert(set_last_accounts(w, m).drop_last() =~= w.drop_last());
    if !(es.len() == 0 || !(es.last() is Diff)) {
        assert(w == es);
    }
}

/// One step adds an `XCall` entry exactly when the entry begins a transaction calling into
/// the selected chain.
proof fn lemma_step_count(s: DiffState, e: JournalEntry, sel: u64)
    requires
        diff_step(s, e, sel) is Some,
    ensures
        count_xcalls(diff_step(s, e, sel).unwrap().entries) == count_xcalls(s.entries) + if calls_into(e, sel) {
            1nat
        } else {
            0nat
        },
{
    match e {
        JournalEntry::StorageChanged { address, key, new, .. } => {
            if address.0 == sel && s.call_stack.len() > 0 && !s.call_stack.last().2 && s.call_stack.last().1 == sel {
                let es = with_open_diff(s.entries);
                let accts = last_accounts(es);
                let acct = account_or_default(accts, address);
                let changed = DiffAccountView { storage: acct.storage.insert(key, new), ..acct };
                lemma_count_open_diff(s.entries, accts.insert(address, changed));
            }
        },
        JournalEntry::BalanceTransfer { from, to, balance } => {
            if (from.0 == sel || to.0 == sel) && s.call_stack.len() > 0 && !s.call_stack.last().2
                && s.call_stack.last().1 == sel {
                let es = with_open_diff(s.entries);
                let m = transfer(last_accounts(es), from, to, signed_of(balance), sel).unwrap();
                lemma_count_open_diff(s.entries, m);
            }
        },
        JournalEntry::TxBegin { tx } => {
            match tx.transact_to {
                TransactTo::Call(to) => {
                    if to.0 == sel {
                        let pushed = s.entries.push(DiffEntryView::XCall { call: tx_call(tx, to) });
                        assert(pushed.drop_last() =~= s.entries);
                    }
                },
                TransactTo::Create => {},
            }
        },
        _ => {},
    }
}

/// The state diff has one `XCall` entry for each transaction of the journal that calls into
/// the selected chain, and no other.
pub proof fn lemma_xcalls_match_transactions(journal: Seq<JournalEntry>, sel: u64)
    requires
        diff_run(journal, sel) is Some,
    ensures
        count_xcalls(diff_run(journal, sel).unwrap().entries) == count_calls_into(journal, sel),
    decreases journal.len(),
{
    if journal.len() > 0 {
        lemma_run_prefix(journal, sel, journal.len() - 1);
        assert(journal.subrange(0, journal.len() - 1) == journal.drop_last());
        lemma_xcalls_match_transactions(journal.drop_last(), sel);
        lemma_step_count(diff_run(journal.drop_last(), sel).unwrap(), journal.last(), sel);
    }
}


/// The sum of the balance changes of the accounts of a finite map.
pub open spec fn delta_sum(m: Map<ChainAddress, DiffAccountView>) -> int
    decreases m.dom().len(),
    when m.dom().finite()
{
    if m.dom().len() == 0 {
        0
    } else {
        let k = m.dom().choose();
        m[k].balance_delta + delta_sum(m.remove(k))
    }
}

/// The sum may take out any account first.
pub proof fn lemma_delta_sum_remove(m: Map<ChainAddress, DiffAccountView>, k: ChainAddress)
    requires
        m.dom().finite(),
        m.contains_key(k),
    ensures
        delta_sum(m) == m[k].balance_delta + delta_sum(m.remove(k)),
    decreases m.dom().len(),
{
    let c = m.dom().choose();
    assert(m.dom().contains(c));
    if c != k {
        let mc = m.remove(c);
        let mk = m.remove(k);
        assert(mc.dom() =~= m.dom().remove(c));
        assert(mk.dom() =~= m.dom().remove(k));
        lemma_delta_sum_remove(mc, k);
        lemma_delta_sum_remove(mk, c);
        assert(mc.remove(k) =~= mk.remove(c));
    }
}

/// The sum after setting the account of `k`: the old change of `k`, if any, is replaced by
/// the new one.
pub proof fn lemma_delta_sum_insert(m: Map<ChainAddress, DiffAccountView>, k: ChainAddress, v: DiffAccountView)
    requires
        m.dom().finite(),
    ensures
        m.insert(k, v).dom().finite(),
        delta_sum(m.insert(k, v)) == delta_sum(m) - (if m.contains_key(k) { m[k].balance_delta } else { 0 })
            + v.balance_delta,
{
    let n = m.insert(k, v);
    assert(n.dom() =~= m.dom().insert(k));
    lemma_delta_sum_remove(n, k);
    if m.contains_key(k) {
        assert(n.remove(k) =~= m.remove(k));
        lemma_delta_sum_remove(m, k);
    } else {
        assert(n.remove(k) =~= m);
    }
}

/// Whether a journal entry moves balance either within the selected chain or outside it,
/// never across its border.
pub open spec fn transfer_within(e: JournalEntry, sel: u64) -> bool {
    e matches JournalEntry::BalanceTransfer { from, to, .. } ==> ((from.0 == sel) == (to.0 == sel))
}

/// Every `Diff` entry holds finitely many accounts whose balance changes sum to zero.
pub open spec fn diffs_balanced(es: Seq<DiffEntryView>) -> bool {
    forall|i: int| 0 <= i < es.len() ==> (#[trigger] es[i] matches DiffEntryView::Diff { accounts } ==> accounts.dom().finite()
        && delta_sum(accounts) == 0)
}

/// Opening a diff keeps the diffs balanced, and the open diff is the last entry.
proof fn lemma_open_diff_balanced(es: Seq<DiffEntryView>)
    requires
        diffs_balanced(es),
    ensures
        diffs_balanced(with_open_diff(es)),
        with_open_diff(es).len() > 0,
        with_open_diff(es).last() is Diff,
        last_accounts(with_open_diff(es)).dom().finite(),
        delta_sum(last_accounts(with_open_diff(es))) == 0,
{
    let w = with_open_diff(es);
    if es.len() == 0 || !(es.last() is Diff) {
        let e = Map::<ChainAddress, DiffAccountView>::empty();
        assert(e.dom() =~= Set::empty());
        assert forall|i: int| 0 <= i < w.len() implies (#[trigger] w[i] matches DiffEntryView::Diff { accounts } ==> accounts.dom().finite()
            && delta_sum(accounts) == 0) by {
            if i < es.len() {
                assert(w[i] == es[i]);
            }
        }
    } else {
        assert(es[es.len() - 1] == es.last());
    }
}

/// Replacing the accounts of the last entry, a diff, by balanced ones keeps the diffs balanced.
proof fn lemma_set_last_balanced(es: Seq<DiffEntryView>, m: Map<ChainAddress, DiffAccountView>)
    requires
        diffs_balanced(es),
        es.len() > 0,
        m.dom().finite(),
        delta_sum(m) == 0,
    ensures
        diffs_balanced(set_last_accounts(es, m)),
{
}

/// A balance-preserving step keeps the diffs balanced.
proof fn lemma_step_balanced(s: DiffState, e: JournalEntry, sel: u64)
    requires
        diff_step(s, e, sel) is Some,
        diffs_balanced(s.entries),
        transfer_within(e, sel),
    ensures
        diffs_balanced(diff_step(s, e, sel).unwrap().entries),
{
    match e {
        JournalEntry::StorageChanged { address, key, new, .. } => {
            if address.0 == sel && s.call_stack.len() > 0 && !s.call_stack.last().2 && s.call_stack.last().1 == sel {
                let es = with_open_diff(s.entries);
                lemma_open_diff_balanced(s.entries);
                let accts = last_accounts(es);
                let acct = account_or_default(accts, address);
                let changed = DiffAccountView { storage: acct.storage.insert(key, new), ..acct };
                lemma_delta_sum_insert(accts, address, changed);
                lemma_set_last_balanced(es, accts.insert(address, changed));
            }
        },
        JournalEntry::BalanceTransfer { from, to, balance } => {
            if (from.0 == sel || to.0 == sel) && s.call_stack.len() > 0 && !s.call_stack.last().2
                && s.call_stack.last().1 == sel {
                let es = with_open_diff(s.entries);
                lemma_open_diff_balanced(s.entries);
                let a0 = last_accounts(es);
                let v = signed_of(balance);
                let fa = account_or_default(a0, from);
                let a1 = a0.insert(from, DiffAccountView { balance_delta: fa.balance_delta - v, ..fa });
                lemma_delta_sum_insert(a0, from, DiffAccountView { balance_delta: fa.balance_delta - v, ..fa });
                let ta = account_or_default(a1, to);
                let a2 = a1.insert(to, DiffAccountView { balance_delta: ta.balance_delta + v, ..ta });
                lemma_delta_sum_insert(a1, to, DiffAccountView { balance_delta: ta.balance_delta + v, ..ta });
                let m = transfer(a0, from, to, v, sel).unwrap();
                assert(m == a2);
                lemma_set_last_balanced(es, m);
            }
        },
        JournalEntry::TxBegin { tx } => {
            match tx.transact_to {
                TransactTo::Call(to) => {
                    if to.0 == sel {
                        let pushed = s.entries.push(DiffEntryView::XCall { call: tx_call(tx, to) });
                        assert forall|i: int| 0 <= i < pushed.len() implies (#[trigger] pushed[i] matches DiffEntryView::Diff { accounts } ==> accounts.dom().finite()
                            && delta_sum(accounts) == 0) by {
                            if i < s.entries.len() {
                                assert(pushed[i] == s.entries[i]);
                            }
                        }
                    }
                },
                TransactTo::Create => {},
            }
        },
        _ => {},
    }
}

/// Where no balance moves across the border of the selected chain, the balance changes
/// inside each `Diff` entry of the state diff sum to zero.
pub proof fn lemma_diff_balances_sum_to_zero(journal: Seq<JournalEntry>, sel: u64)
    requires
        diff_run(journal, sel) is Some,
        forall|i: int| 0 <= i < journal.len() ==> transfer_within(#[trigger] journal[i], sel),
    ensures
        diffs_balanced(diff_run(journal, sel).unwrap().entries),
    decreases journal.len(),
{
    if journal.len() > 0 {
        lemma_run_prefix(journal, sel, journal.len() - 1);
        assert(journal.subrange(0, journal.len() - 1) == journal.drop_last());
        assert forall|i: int| 0 <= i < journal.drop_last().len() implies transfer_within(#[trigger] journal.drop_last()[i], sel) by {
            assert(journal.drop_last()[i] == journal[i]);
        }
        lemma_diff_balances_sum_to_zero(journal.drop_last(), sel);
        assert(transfer_within(journal[journal.len() - 1], sel));
        lemma_step_balanced(diff_run(journal.drop_last(), sel).unwrap(), journal.last(), sel);
    }
}

} // verus!
