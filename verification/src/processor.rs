//! Applying transactions to the records, one at a time.
use crate::amount::{add_fits, sub_fits, AmountModel};
use crate::bankrecords::{BankingRecords, RecordsView};
use crate::client::{
    law_balance_kept, law_chargeback_withdraws_and_locks, law_deposit_credits, law_dispute_holds,
    law_resolve_releases, law_withdrawal_debits, lemma_exact_fits, lemma_new_client_balanced, new_client_view, transact_exact,
    transact_fits, transact_spec,
};
use crate::errors::TransactionError;
use crate::transaction::{Transaction, TransactionType};
use vstd::prelude::*;

verus! {

/// The check that a transaction must pass before it reaches an account, against the
/// transactions on file: `Some` names why it fails.
pub open spec fn screen(v: RecordsView, t: Transaction) -> Option<TransactionError> {
    let known = v.transactions.contains_key(t.tx);
    match t.type_ {
        TransactionType::Deposit | TransactionType::Withdrawal => if known {
            Some(TransactionError::TransactionAlreadyCompleted(t.tx))
        } else {
            None
        },
        TransactionType::Dispute => if !known {
            Some(TransactionError::ReferencedTransactionMissing(t.tx))
        } else if v.disputed.contains(t.tx) || v.resolved.contains(t.tx) {
            Some(TransactionError::AlreadyDisputed(t.tx))
        } else {
            None
        },
        TransactionType::Chargeback => if !known {
            Some(TransactionError::ReferencedTransactionMissing(t.tx))
        } else if !v.disputed.contains(t.tx) || v.resolved.contains(t.tx) {
            Some(TransactionError::NotYetDisputed(t.tx))
        } else {
            None
        },
        TransactionType::Resolve => if !known {
            Some(TransactionError::ReferencedTransactionMissing(t.tx))
        } else if v.resolved.contains(t.tx) {
            Some(TransactionError::AlreadyResolved(t.tx))
        } else if !v.disputed.contains(t.tx) {
            Some(TransactionError::NotYetDisputed(t.tx))
        } else {
            None
        },
    }
}

/// The amount a transaction moves: that of the transaction on file with its id, where there
/// is one, else its own.
pub open spec fn effective_amount(v: RecordsView, t: Transaction) -> AmountModel {
    if v.transactions.contains_key(t.tx) {
        v.transactions[t.tx].amount@
    } else {
        t.amount@
    }
}

/// What processing a transaction does to the records, and what it answers.
pub open spec fn process_spec(v: RecordsView, t: Transaction) -> (RecordsView, Result<
    (),
    TransactionError,
>) {
    match screen(v, t) {
        Some(e) => (v, Err(e)),
        None => {
            let c = v.client_or_new(t.client);
            let opened = RecordsView { clients: v.clients.insert(t.client, c), ..v };
            if c.locked {
                (opened, Err(TransactionError::TransactionSkippedAccountLocked(t.tx, t.client)))
            } else {
                match transact_spec(c, t.type_, effective_amount(v, t)) {
                    Err(e) => (opened, Err(e)),
                    Ok(c2) => {
                        let moved = RecordsView { clients: v.clients.insert(t.client, c2), ..v };
                        let after = match t.type_ {
                            TransactionType::Dispute => RecordsView {
                                disputed: v.disputed.insert(t.tx),
                                ..moved
                            },
                            TransactionType::Resolve | TransactionType::Chargeback => RecordsView {
                                disputed: v.disputed.remove(t.tx),
                                resolved: v.resolved.insert(t.tx),
                                ..moved
                            },
                            TransactionType::Deposit | TransactionType::Withdrawal => RecordsView {
                                transactions: v.transactions.insert(t.tx, t),
                                ..moved
                            },
                        };
                        (after, Ok(()))
                    },
                }
            }
        },
    }
}

/// No decimal operation that processing the transaction performs overflows (an overflowing
/// `+` or `-` of `rust_decimal` panics).
pub open spec fn process_fits(v: RecordsView, t: Transaction) -> bool {
    screen(v, t) is None && !v.client_or_new(t.client).locked ==> transact_fits(
        v.client_or_new(t.client),
        t.type_,
        effective_amount(v, t),
    )
}

/// Every decimal operation that processing the transaction performs is exact (nothing is
/// rounded).
pub open spec fn process_exact(v: RecordsView, t: Transaction) -> bool {
    screen(v, t) is None && !v.client_or_new(t.client).locked ==> transact_exact(
        v.client_or_new(t.client),
        t.type_,
        effective_amount(v, t),
    )
}

/// Every account's total is what is available plus what is held.
pub open spec fn all_balanced(v: RecordsView) -> bool {
    forall|k: u16| #[trigger] v.clients.contains_key(k) ==> v.clients[k].balanced()
}

/// What processing the transactions in order does to the records, and what each answered.
pub open spec fn run_spec(v: RecordsView, ts: Seq<Transaction>) -> (RecordsView, Seq<
    Result<(), TransactionError>,
>)
    decreases ts.len(),
{
    if ts.len() == 0 {
        (v, Seq::empty())
    } else {
        let (v1, answers) = run_spec(v, ts.drop_last());
        let (v2, answer) = process_spec(v1, ts.last());
        (v2, answers.push(answer))
    }
}

/// No decimal operation of the run overflows.
pub open spec fn run_fits(v: RecordsView, ts: Seq<Transaction>) -> bool
    decreases ts.len(),
{
    ts.len() == 0 || (run_fits(v, ts.drop_last()) && process_fits(
        run_spec(v, ts.drop_last()).0,
        ts.last(),
    ))
}

/// Every decimal operation of the run is exact.
pub open spec fn run_exact(v: RecordsView, ts: Seq<Transaction>) -> bool
    decreases ts.len(),
{
    ts.len() == 0 || (run_exact(v, ts.drop_last()) && process_exact(
        run_spec(v, ts.drop_last()).0,
        ts.last(),
    ))
}

/// Processing a transaction keeps the records well formed: accounts filed under
/// their ids, and every transaction under dispute or settled a known one, never both.
pub proof fn law_process_keeps_wf(v: RecordsView, t: Transaction)
    requires
        v.wf(),
        t.amount@.wf(),
        process_fits(v, t),
    ensures
        process_spec(v, t).0.wf(),
{
    if screen(v, t) is None {
        let c = v.client_or_new(t.client);
        if !c.locked {
            law_balance_kept(c, t.type_, effective_amount(v, t));
        }
        let r = process_spec(v, t).0;
        assert forall|k: u32| #[trigger] r.disputed.contains(k) implies r.transactions.contains_key(
            k,
        ) && !r.resolved.contains(k) by {
            assert(v.disputed.contains(k) || k == t.tx);
        }
    }
}

/// A deposit or withdrawal whose id already ran is refused, and changes nothing.
pub proof fn law_repeated_id_refused(v: RecordsView, t: Transaction)
    requires
        t.type_ == TransactionType::Deposit || t.type_ == TransactionType::Withdrawal,
        v.transactions.contains_key(t.tx),
    ensures
        process_spec(v, t) == (v, Err::<(), TransactionError>(
            TransactionError::TransactionAlreadyCompleted(t.tx),
        )),
{
}

/// A locked account never changes: whatever transaction is processed, it stays as it was.
pub proof fn law_locked_account_frozen(v: RecordsView, t: Transaction, id: u16)
    requires
        v.clients.contains_key(id),
        v.clients[id].locked,
    ensures
        process_spec(v, t).0.clients.contains_key(id),
        process_spec(v, t).0.clients[id] == v.clients[id],
{
}

/// Processing a transaction touches no account but that of the client it names: every other
/// account is there, and as it was, exactly where it was before.
pub proof fn law_other_accounts_untouched(v: RecordsView, t: Transaction, id: u16)
    requires
        id != t.client,
    ensures
        process_spec(v, t).0.clients.contains_key(id) == v.clients.contains_key(id),
        v.clients.contains_key(id) ==> process_spec(v, t).0.clients[id] == v.clients[id],
{
}

/// A refused or skipped transaction leaves the transactions on file and their dispute state
/// as they were; at most it opens the named client's account, with zero funds.
pub proof fn law_refusal_changes_nothing_else(v: RecordsView, t: Transaction)
    requires
        process_spec(v, t).1 is Err,
    ensures
        process_spec(v, t).0.transactions == v.transactions,
        process_spec(v, t).0.disputed == v.disputed,
        process_spec(v, t).0.resolved == v.resolved,
        process_spec(v, t).0.clients == v.clients || (!v.clients.contains_key(t.client)
            && process_spec(v, t).0.clients == v.clients.insert(
            t.client,
            new_client_view(t.client),
        )),
{
    if screen(v, t) is None && v.clients.contains_key(t.client) {
        assert(v.clients.insert(t.client, v.clients[t.client]) =~= v.clients);
    }
}

/// A settled transaction stays settled and is never disputed again.
pub proof fn law_settled_stays_settled(v: RecordsView, t: Transaction, id: u32)
    requires
        v.wf(),
        v.resolved.contains(id),
    ensures
        process_spec(v, t).0.resolved.contains(id),
        !process_spec(v, t).0.disputed.contains(id),
{
}

/// A deposit or withdrawal that goes through is filed, and a transaction it names can then
/// be disputed; a dispute that goes through puts the transaction under dispute, and a
/// resolution or chargeback that goes through settles it.
pub proof fn law_accepted_transitions(v: RecordsView, t: Transaction)
    requires
        process_spec(v, t).1 is Ok,
    ensures
        (t.type_ == TransactionType::Deposit || t.type_ == TransactionType::Withdrawal) ==> (
        process_spec(v, t).0.transactions == v.transactions.insert(t.tx, t)),
        t.type_ == TransactionType::Dispute ==> process_spec(v, t).0.disputed.contains(t.tx),
        (t.type_ == TransactionType::Resolve || t.type_ == TransactionType::Chargeback) ==> (
        process_spec(v, t).0.resolved.contains(t.tx) && !process_spec(
            v,
            t,
        ).0.disputed.contains(t.tx)),
{
}

/// Where its arithmetic is exact, processing a transaction keeps every account's total equal
/// to what is available plus what is held.
pub proof fn law_process_keeps_balance(v: RecordsView, t: Transaction)
    requires
        v.wf(),
        t.amount@.wf(),
        all_balanced(v),
        process_exact(v, t),
    ensures
        all_balanced(process_spec(v, t).0),
{
    if screen(v, t) is None {
        let c = v.client_or_new(t.client);
        lemma_new_client_balanced(t.client);
        if !c.locked {
            lemma_exact_fits(c, t.type_, effective_amount(v, t));
            law_balance_kept(c, t.type_, effective_amount(v, t));
        }
    }
}

/// The answers of a run are as many as its transactions.
pub proof fn lemma_run_answers(v: RecordsView, ts: Seq<Transaction>)
    ensures
        run_spec(v, ts).1.len() == ts.len(),
    decreases ts.len(),
{
    if ts.len() > 0 {
        lemma_run_answers(v, ts.drop_last());
    }
}

/// A run whose arithmetic does not overflow keeps the records well formed.
pub proof fn law_run_keeps_wf(v: RecordsView, ts: Seq<Transaction>)
    requires
        v.wf(),
        forall|i: int| 0 <= i < ts.len() ==> (#[trigger] ts[i]).amount@.wf(),
        run_fits(v, ts),
    ensures
        run_spec(v, ts).0.wf(),
    decreases ts.len(),
{
    if ts.len() > 0 {
        law_run_keeps_wf(v, ts.drop_last());
        assert(ts.last() == ts[ts.len() - 1]);
        law_process_keeps_wf(run_spec(v, ts.drop_last()).0, ts.last());
    }
}

/// A run whose arithmetic is exact keeps every account's total equal to what is available
/// plus what is held.
pub proof fn law_run_keeps_balance(v: RecordsView, ts: Seq<Transaction>)
    requires
        v.wf(),
        all_balanced(v),
        forall|i: int| 0 <= i < ts.len() ==> (#[trigger] ts[i]).amount@.wf(),
        run_fits(v, ts),
        run_exact(v, ts),
    ensures
        run_spec(v, ts).0.wf(),
        all_balanced(run_spec(v, ts).0),
    decreases ts.len(),
{
    if ts.len() > 0 {
        law_run_keeps_balance(v, ts.drop_last());
        assert(ts.last() == ts[ts.len() - 1]);
        law_process_keeps_wf(run_spec(v, ts.drop_last()).0, ts.last());
        law_process_keeps_balance(run_spec(v, ts.drop_last()).0, ts.last());
    }
}

/// An account whose client no transaction of a run names is, after the run, there exactly
/// where it was before, and as it was.
pub proof fn law_run_other_accounts_untouched(v: RecordsView, ts: Seq<Transaction>, id: u16)
    requires
        forall|i: int| 0 <= i < ts.len() ==> (#[trigger] ts[i]).client != id,
    ensures
        run_spec(v, ts).0.clients.contains_key(id) == v.clients.contains_key(id),
        v.clients.contains_key(id) ==> run_spec(v, ts).0.clients[id] == v.clients[id],
    decreases ts.len(),
{
    if ts.len() > 0 {
        law_run_other_accounts_untouched(v, ts.drop_last(), id);
        assert(ts.last() == ts[ts.len() - 1]);
        law_other_accounts_untouched(run_spec(v, ts.drop_last()).0, ts.last(), id);
    }
}

/// A locked account stays, through any run, as it was: it is neither changed nor unlocked.
pub proof fn law_run_locked_account_frozen(v: RecordsView, ts: Seq<Transaction>, id: u16)
    requires
        v.clients.contains_key(id),
        v.clients[id].locked,
    ensures
        run_spec(v, ts).0.clients.contains_key(id),
        run_spec(v, ts).0.clients[id] == v.clients[id],
    decreases ts.len(),
{
    if ts.len() > 0 {
        law_run_locked_account_frozen(v, ts.drop_last(), id);
        law_locked_account_frozen(run_spec(v, ts.drop_last()).0, ts.last(), id);
    }
}

/// The dispute state is enforced: a dispute, resolution or chargeback that refers to no
/// transaction on file, a dispute of a transaction already under dispute or settled, and a
/// resolution or chargeback of a transaction not under dispute are all refused, with their
/// reason, and leave the records exactly as they were.
pub proof fn law_dispute_state_enforced(v: RecordsView, t: Transaction)
    requires
        v.wf(),
    ensures
        t.type_ != TransactionType::Deposit && t.type_ != TransactionType::Withdrawal
            && !v.transactions.contains_key(t.tx) ==> process_spec(v, t) == (v, Err::<
            (),
            TransactionError,
        >(TransactionError::ReferencedTransactionMissing(t.tx))),
        t.type_ == TransactionType::Dispute && v.transactions.contains_key(t.tx) && (
        v.disputed.contains(t.tx) || v.resolved.contains(t.tx)) ==> process_spec(v, t) == (v, Err::<
            (),
            TransactionError,
        >(TransactionError::AlreadyDisputed(t.tx))),
        t.type_ == TransactionType::Chargeback && v.transactions.contains_key(t.tx)
            && !v.disputed.contains(t.tx) ==> process_spec(v, t) == (v, Err::<
            (),
            TransactionError,
        >(TransactionError::NotYetDisputed(t.tx))),
        t.type_ == TransactionType::Resolve && v.transactions.contains_key(t.tx)
            && !v.disputed.contains(t.tx) ==> process_spec(v, t) == (v, Err::<
            (),
            TransactionError,
        >(
            if v.resolved.contains(t.tx) {
                TransactionError::AlreadyResolved(t.tx)
            } else {
                TransactionError::NotYetDisputed(t.tx)
            },
        )),
{
}

/// A deposit with a new id to an account that is not locked is filed and credits the
/// account's available and total funds with its amount, in value (where exact).
pub proof fn law_new_deposit_applied(v: RecordsView, t: Transaction)
    requires
        v.wf(),
        t.amount@.wf(),
        t.type_ == TransactionType::Deposit,
        !v.transactions.contains_key(t.tx),
        !v.client_or_new(t.client).locked,
        add_fits(v.client_or_new(t.client).available, t.amount@),
        add_fits(v.client_or_new(t.client).total, t.amount@),
    ensures
        ({
            let (w, r) = process_spec(v, t);
            let c = v.client_or_new(t.client);
            &&& r is Ok
            &&& w.transactions == v.transactions.insert(t.tx, t)
            &&& w.disputed == v.disputed && w.resolved == v.resolved
            &&& w.clients.contains_key(t.client)
            &&& w.clients[t.client].available.units() == c.available.units() + t.amount@.units()
            &&& w.clients[t.client].total.units() == c.total.units() + t.amount@.units()
            &&& w.clients[t.client].held == c.held
        }),
{
    lemma_new_client_balanced(t.client);
    law_deposit_credits(v.client_or_new(t.client), t.amount@);
}

/// A withdrawal with a new id from an account that is not locked is refused, and not filed,
/// where less is available than its amount; otherwise it is filed and debits the available
/// and total funds by its amount, in value (where exact).
pub proof fn law_new_withdrawal_applied(v: RecordsView, t: Transaction)
    requires
        v.wf(),
        t.amount@.wf(),
        t.type_ == TransactionType::Withdrawal,
        !v.transactions.contains_key(t.tx),
        !v.client_or_new(t.client).locked,
    ensures
        ({
            let (w, r) = process_spec(v, t);
            let c = v.client_or_new(t.client);
            &&& c.available.units() < t.amount@.units() ==> r == Err::<(), TransactionError>(
                TransactionError::NotEnoughFunds,
            ) && w.transactions == v.transactions && w.clients.contains_key(t.client)
                && w.clients[t.client] == c
            &&& c.available.units() >= t.amount@.units() && sub_fits(c.available, t.amount@)
                && sub_fits(c.total, t.amount@) ==> r is Ok && w.transactions
                == v.transactions.insert(t.tx, t) && w.clients.contains_key(t.client)
                && w.clients[t.client].available.units() == c.available.units()
                - t.amount@.units() && w.clients[t.client].total.units() == c.total.units()
                - t.amount@.units() && w.clients[t.client].held == c.held
        }),
{
    lemma_new_client_balanced(t.client);
    law_withdrawal_debits(v.client_or_new(t.client), t.amount@);
}

/// A dispute of a transaction on file, neither under dispute nor settled, for an account
/// that is not locked, puts the transaction under dispute and moves its amount (the filed
/// one, whatever amount the dispute carries), in value, from the available to the held funds
/// (where exact).
pub proof fn law_dispute_applied(v: RecordsView, t: Transaction)
    requires
        v.wf(),
        t.type_ == TransactionType::Dispute,
        v.transactions.contains_key(t.tx),
        !v.disputed.contains(t.tx),
        !v.resolved.contains(t.tx),
        !v.client_or_new(t.client).locked,
        sub_fits(v.client_or_new(t.client).available, v.transactions[t.tx].amount@),
        add_fits(v.client_or_new(t.client).held, v.transactions[t.tx].amount@),
    ensures
        ({
            let (w, r) = process_spec(v, t);
            let c = v.client_or_new(t.client);
            let a = v.transactions[t.tx].amount@;
            &&& r is Ok
            &&& w.disputed == v.disputed.insert(t.tx) && w.resolved == v.resolved
            &&& w.transactions == v.transactions
            &&& w.clients.contains_key(t.client)
            &&& w.clients[t.client].available.units() == c.available.units() - a.units()
            &&& w.clients[t.client].held.units() == c.held.units() + a.units()
            &&& w.clients[t.client].total == c.total
        }),
{
    lemma_new_client_balanced(t.client);
    law_dispute_holds(v.client_or_new(t.client), v.transactions[t.tx].amount@);
}

/// A resolution of a transaction under dispute, for an account that is not locked, settles
/// the transaction and moves its filed amount, in value, from the held back to the available
/// funds (where exact), keeping the total.
pub proof fn law_resolve_applied(v: RecordsView, t: Transaction)
    requires
        v.wf(),
        t.type_ == TransactionType::Resolve,
        v.disputed.contains(t.tx),
        !v.client_or_new(t.client).locked,
        add_fits(v.client_or_new(t.client).available, v.transactions[t.tx].amount@),
        sub_fits(v.client_or_new(t.client).held, v.transactions[t.tx].amount@),
    ensures
        ({
            let (w, r) = process_spec(v, t);
            let c = v.client_or_new(t.client);
            let a = v.transactions[t.tx].amount@;
            &&& r is Ok
            &&& !w.disputed.contains(t.tx) && w.resolved.contains(t.tx)
            &&& w.disputed == v.disputed.remove(t.tx) && w.resolved == v.resolved.insert(t.tx)
            &&& w.transactions == v.transactions
            &&& w.clients.contains_key(t.client)
            &&& w.clients[t.client].available.units() == c.available.units() + a.units()
            &&& w.clients[t.client].held.units() == c.held.units() - a.units()
            &&& w.clients[t.client].total == c.total
        }),
{
    lemma_new_client_balanced(t.client);
    law_resolve_releases(v.client_or_new(t.client), v.transactions[t.tx].amount@);
}

/// A chargeback of a transaction under dispute, for an account that is not locked, is refused
/// where the total is less than the filed amount; otherwise it settles the transaction, takes
/// the amount, in value, from the held and the total funds (where exact), and locks the
/// account.
pub proof fn law_chargeback_applied(v: RecordsView, t: Transaction)
    requires
        v.wf(),
        t.type_ == TransactionType::Chargeback,
        v.disputed.contains(t.tx),
        !v.client_or_new(t.client).locked,
    ensures
        ({
            let (w, r) = process_spec(v, t);
            let c = v.client_or_new(t.client);
            let a = v.transactions[t.tx].amount@;
            &&& c.total.units() < a.units() ==> r == Err::<(), TransactionError>(
                TransactionError::NotEnoughFunds,
            ) && w.disputed == v.disputed && w.resolved == v.resolved
            &&& c.total.units() >= a.units() && sub_fits(c.held, a) && sub_fits(c.total, a)
                ==> r is Ok && w.disputed == v.disputed.remove(t.tx) && w.resolved
                == v.resolved.insert(t.tx) && w.clients.contains_key(t.client)
                && w.clients[t.client].locked && w.clients[t.client].held.units()
                == c.held.units() - a.units() && w.clients[t.client].total.units()
                == c.total.units() - a.units() && w.clients[t.client].available == c.available
        }),
{
    lemma_new_client_balanced(t.client);
    law_chargeback_withdraws_and_locks(v.client_or_new(t.client), v.transactions[t.tx].amount@);
}

/// The answers of a shorter run of the same transactions are the first answers of the
/// longer one.
proof fn lemma_run_prefix(v: RecordsView, ts: Seq<Transaction>, j: int)
    requires
        0 <= j <= ts.len(),
    ensures
        run_spec(v, ts.take(j)).1 == run_spec(v, ts).1.take(j),
    decreases ts.len(),
{
    lemma_run_answers(v, ts);
    if j == ts.len() {
        assert(ts.take(j) =~= ts);
        assert(run_spec(v, ts).1.take(j) =~= run_spec(v, ts).1);
    } else {
        let p = ts.drop_last();
        lemma_run_prefix(v, p, j);
        assert(p.take(j) =~= ts.take(j));
        lemma_run_answers(v, p);
        assert(run_spec(v, ts).1.take(j) =~= run_spec(v, p).1.take(j));
    }
}

/// A run processes each of its transactions in turn: the records after the first `i + 1`
/// transactions are what processing the `i`-th gives on the records after the first `i`, and
/// the `i`-th answer is what that processing answers.
pub proof fn law_run_processes_each(v: RecordsView, ts: Seq<Transaction>, i: int)
    requires
        0 <= i < ts.len(),
    ensures
        run_spec(v, ts.take(i + 1)).0 == process_spec(run_spec(v, ts.take(i)).0, ts[i]).0,
        run_spec(v, ts).1.len() == ts.len(),
        run_spec(v, ts).1[i] == process_spec(run_spec(v, ts.take(i)).0, ts[i]).1,
{
    let q = ts.take(i + 1);
    assert(q.drop_last() =~= ts.take(i));
    assert(q.last() == ts[i]);
    lemma_run_prefix(v, ts, i + 1);
    lemma_run_answers(v, ts);
    lemma_run_answers(v, q);
    assert(run_spec(v, q).1[i] == run_spec(v, ts).1.take(i + 1)[i]);
}

pub struct TransactionProcessor {}

impl TransactionProcessor {
    /// Processes one transaction: refuses it where it repeats an id that ran, refers to a
    /// missing transaction, or does not fit the dispute state of the transaction it refers
    /// to; skips it where the client's account is locked; else applies it to the client's
    /// account (opened where needed) and, where that succeeds, records it.
    pub fn process_transaction(records: &mut BankingRecords, transaction: Transaction) -> (r:
        Result<(), TransactionError>)
        requires
            old(records)@.wf(),
            process_fits(old(records)@, transaction),
        ensures
            final(records)@.wf(),
            (final(records)@, r) == process_spec(old(records)@, transaction),
    {
        let tx = transaction.tx;
        let prev_amount = match records.get_transaction(tx) {
            Some(t) => Some(t.amount),
            None => None,
        };
        match transaction.type_ {
            TransactionType::Deposit | TransactionType::Withdrawal => {
                if prev_amount.is_some() {
                    return Err(TransactionError::TransactionAlreadyCompleted(tx));
                }
            },
            _ => {
                if prev_amount.is_none() {
                    return Err(TransactionError::ReferencedTransactionMissing(tx));
                }
            },
        }
        match transaction.type_ {
            TransactionType::Deposit | TransactionType::Withdrawal => {},
            TransactionType::Dispute => {
                if records.is_disputed(tx) || records.is_resolved(tx) {
                    return Err(TransactionError::AlreadyDisputed(tx));
                }
            },
            TransactionType::Chargeback => {
                if !records.is_disputed(tx) || records.is_resolved(tx) {
                    return Err(TransactionError::NotYetDisputed(tx));
                }
            },
            TransactionType::Resolve => {
                if records.is_resolved(tx) {
                    return Err(TransactionError::AlreadyResolved(tx));
                }
                if !records.is_disputed(tx) {
                    return Err(TransactionError::NotYetDisputed(tx));
                }
            },
        }
        let ghost v0 = records@;
        let mut client = *records.get_client(transaction.client);
        if client.is_locked() {
            return Err(TransactionError::TransactionSkippedAccountLocked(tx, transaction.client));
        }
        let amount = match prev_amount {
            Some(a) => a,
            None => transaction.amount,
        };
        let result = client.transact(&transaction.type_, amount);
        if let Err(e) = result {
            return Err(e);
        }
        records.set_client(client);
        match transaction.type_ {
            TransactionType::Dispute => records.dispute(tx),
            TransactionType::Resolve | TransactionType::Chargeback => records.resolve(tx),
            TransactionType::Deposit | TransactionType::Withdrawal => records.set_transaction(
                transaction,
            ),
        }
        assert(records@.clients =~= v0.clients.insert(transaction.client, client@));
        Ok(())
    }

    /// Whether processing the transaction is free of decimal overflow (see [`process_fits`]).
    pub fn can_process(records: &BankingRecords, transaction: &Transaction) -> (r: bool)
        requires
            records@.wf(),
        ensures
            r == process_fits(records@, *transaction),
    {
        let tx = transaction.tx;
        let prev_amount = match records.get_transaction(tx) {
            Some(t) => Some(t.amount),
            None => None,
        };
        let screened = match transaction.type_ {
            TransactionType::Deposit | TransactionType::Withdrawal => prev_amount.is_none(),
            TransactionType::Dispute => prev_amount.is_some() && !records.is_disputed(tx)
                && !records.is_resolved(tx),
            TransactionType::Chargeback => prev_amount.is_some() && records.is_disputed(tx)
                && !records.is_resolved(tx),
            TransactionType::Resolve => prev_amount.is_some() && !records.is_resolved(tx)
                && records.is_disputed(tx),
        };
        if !screened {
            return true;
        }
        let amount = match prev_amount {
            Some(a) => a,
            None => transaction.amount,
        };
        match records.client(transaction.client) {
            Some(c) => c.is_locked() || c.can_transact(&transaction.type_, amount),
            None => {
                let c = crate::client::Client::new(transaction.client);
                c.can_transact(&transaction.type_, amount)
            },
        }
    }

    /// Processes the transactions in order, stopping before the first one whose decimal
    /// arithmetic would overflow; gives the answer to each transaction processed.
    pub fn process_all(records: &mut BankingRecords, transactions: &[Transaction]) -> (r: Vec<
        Result<(), TransactionError>,
    >)
        requires
            old(records)@.wf(),
        ensures
            final(records)@.wf(),
            r@.len() <= transactions@.len(),
            run_fits(old(records)@, transactions@.take(r@.len() as int)),
            (final(records)@, r@) == run_spec(old(records)@, transactions@.take(r@.len() as int)),
            r@.len() < transactions@.len() ==> !process_fits(
                final(records)@,
                transactions@[r@.len() as int],
            ),
    {
        let mut answers: Vec<Result<(), TransactionError>> = Vec::new();
        let mut i: usize = 0;
        while i < transactions.len()
            invariant
                i <= transactions@.len(),
                answers@.len() == i,
                records@.wf(),
                run_fits(old(records)@, transactions@.take(i as int)),
                (records@, answers@) == run_spec(old(records)@, transactions@.take(i as int)),
            decreases transactions@.len() - i,
        {
            let t = transactions[i];
            if !Self::can_process(records, &t) {
                return answers;
            }
            let ghost prefix = transactions@.take(i as int);
            assert(transactions@.take(i + 1).drop_last() =~= prefix);
            assert(transactions@.take(i + 1).last() == t);
            let answer = Self::process_transaction(records, t);
            answers.push(answer);
            i = i + 1;
        }
        assert(transactions@.take(i as int) =~= transactions@);
        answers
    }
}

} // verus!
