//! A client's account: available, held and total funds, and whether it is locked.
use crate::amount::{
    add_fits, add_ok, add_spec, checked_add_spec, checked_sub_spec, decimal_add, decimal_lt,
    decimal_sub, difference_of, lemma_add_units, lemma_lt_units, lemma_sub_units, lt_spec, pow10,
    same_value, sub_fits, sub_ok, sub_spec, sum_of, zero_model, Amount, AmountModel, MAX_SCALE,
};
use crate::errors::TransactionError;
use crate::transaction::TransactionType;
use vstd::prelude::*;

verus! {

/// The mathematical content of a [`Client`].
pub struct ClientView {
    pub client: u16,
    pub available: AmountModel,
    pub held: AmountModel,
    pub total: AmountModel,
    pub locked: bool,
}

impl ClientView {
    /// The amounts are well formed.
    pub open spec fn wf(self) -> bool {
        &&& self.available.wf()
        &&& self.held.wf()
        &&& self.total.wf()
    }

    /// The total is what is available plus what is held.
    pub open spec fn balanced(self) -> bool {
        self.total.units() == self.available.units() + self.held.units()
    }
}

/// A new client's account: all funds zero, not locked.
pub open spec fn new_client_view(client_id: u16) -> ClientView {
    ClientView {
        client: client_id,
        available: zero_model(),
        held: zero_model(),
        total: zero_model(),
        locked: false,
    }
}

/// What a transaction of the given kind and amount does to an account (where its arithmetic
/// does not overflow, see [`transact_fits`]).
pub open spec fn transact_spec(
    c: ClientView,
    kind: TransactionType,
    amount: AmountModel,
) -> Result<ClientView, TransactionError> {
    match kind {
        TransactionType::Deposit => Ok(
            ClientView {
                available: sum_of(c.available, amount),
                total: sum_of(c.total, amount),
                ..c
            },
        ),
        TransactionType::Withdrawal => if lt_spec(c.available, amount) {
            Err(TransactionError::NotEnoughFunds)
        } else {
            Ok(
                ClientView {
                    available: difference_of(c.available, amount),
                    total: difference_of(c.total, amount),
                    ..c
                },
            )
        },
        TransactionType::Dispute => Ok(
            ClientView {
                available: difference_of(c.available, amount),
                held: sum_of(c.held, amount),
                ..c
            },
        ),
        TransactionType::Resolve => Ok(
            ClientView {
                available: sum_of(c.available, amount),
                held: difference_of(c.held, amount),
                ..c
            },
        ),
        TransactionType::Chargeback => if lt_spec(c.total, amount) {
            Err(TransactionError::NotEnoughFunds)
        } else {
            Ok(
                ClientView {
                    held: difference_of(c.held, amount),
                    total: difference_of(c.total, amount),
                    locked: true,
                    ..c
                },
            )
        },
    }
}

/// No decimal operation that a transaction of the given kind and amount performs on the
/// account overflows (an overflowing `+` or `-` of `rust_decimal` panics).
pub open spec fn transact_fits(c: ClientView, kind: TransactionType, amount: AmountModel) -> bool {
    match kind {
        TransactionType::Deposit => add_ok(c.available, amount) && add_ok(c.total, amount),
        TransactionType::Withdrawal => lt_spec(c.available, amount) || (sub_ok(
            c.available,
            amount,
        ) && sub_ok(c.total, amount)),
        TransactionType::Dispute => sub_ok(c.available, amount) && add_ok(c.held, amount),
        TransactionType::Resolve => add_ok(c.available, amount) && sub_ok(c.held, amount),
        TransactionType::Chargeback => lt_spec(c.total, amount) || (sub_ok(c.held, amount)
            && sub_ok(c.total, amount)),
    }
}

/// Every decimal operation that a transaction of the given kind and amount performs on the
/// account is exact: it fits in 96 bits at the larger scale of its operands, so that nothing
/// is rounded.
pub open spec fn transact_exact(c: ClientView, kind: TransactionType, amount: AmountModel) -> bool {
    match kind {
        TransactionType::Deposit => add_fits(c.available, amount) && add_fits(c.total, amount),
        TransactionType::Withdrawal => lt_spec(c.available, amount) || (sub_fits(
            c.available,
            amount,
        ) && sub_fits(c.total, amount)),
        TransactionType::Dispute => sub_fits(c.available, amount) && add_fits(c.held, amount),
        TransactionType::Resolve => add_fits(c.available, amount) && sub_fits(c.held, amount),
        TransactionType::Chargeback => lt_spec(c.total, amount) || (sub_fits(c.held, amount)
            && sub_fits(c.total, amount)),
    }
}

/// A client's account.
#[derive(Clone, Copy, Debug)]
pub struct Client {
    client: u16,
    available: Amount,
    held: Amount,
    total: Amount,
    locked: bool,
}

impl View for Client {
    type V = ClientView;

    closed spec fn view(&self) -> ClientView {
        ClientView {
            client: self.client,
            available: self.available@,
            held: self.held@,
            total: self.total@,
            locked: self.locked,
        }
    }
}

impl Client {
    /// A new account for the client: all funds zero, not locked.
    pub fn new(client_id: u16) -> (r: Client)
        ensures
            r@ == new_client_view(client_id),
            r@.wf(),
            r@.balanced(),
    {
        let r = Client {
            client: client_id,
            available: Amount::zero(),
            held: Amount::zero(),
            total: Amount::zero(),
            locked: false,
        };
        proof {
            lemma_zero_model_units();
        }
        r
    }

    pub fn is_locked(&self) -> (r: bool)
        ensures
            r == self@.locked,
    {
        self.locked
    }

    pub fn client_id(&self) -> (r: u16)
        ensures
            r == self@.client,
    {
        self.client
    }

    pub fn available(&self) -> (r: Amount)
        ensures
            r@ == self@.available,
    {
        self.available
    }

    pub fn held(&self) -> (r: Amount)
        ensures
            r@ == self@.held,
    {
        self.held
    }

    pub fn total(&self) -> (r: Amount)
        ensures
            r@ == self@.total,
    {
        self.total
    }

    /// Applies a transaction of the given kind and amount to the account. Where every
    /// operation is exact, the total stays what is available plus what is held.
    pub fn transact(&mut self, transaction_type: &TransactionType, amount: Amount) -> (r: Result<
        (),
        TransactionError,
    >)
        requires
            old(self)@.wf(),
            transact_fits(old(self)@, *transaction_type, amount@),
        ensures
            final(self)@.wf(),
            match transact_spec(old(self)@, *transaction_type, amount@) {
                Ok(c) => r is Ok && final(self)@ == c,
                Err(e) => r == Err::<(), TransactionError>(e) && final(self)@ == old(self)@,
            },
            old(self)@.balanced() && transact_exact(old(self)@, *transaction_type, amount@)
                ==> final(self)@.balanced(),
    {
        amount.check_wf();
        proof {
            law_balance_kept(self@, *transaction_type, amount@);
        }
        match transaction_type {
            TransactionType::Deposit => self.deposit(amount),
            TransactionType::Withdrawal => self.withdrawal(amount),
            TransactionType::Dispute => self.dispute(amount),
            TransactionType::Chargeback => self.chargeback(amount),
            TransactionType::Resolve => self.resolve(amount),
        }
    }

    /// Adds the amount to the available and the total funds.
    pub fn deposit(&mut self, amount: Amount) -> (r: Result<(), TransactionError>)
        requires
            old(self)@.wf(),
            transact_fits(old(self)@, TransactionType::Deposit, amount@),
        ensures
            final(self)@.wf(),
            r is Ok,
            transact_spec(old(self)@, TransactionType::Deposit, amount@) == Ok::<
                ClientView,
                TransactionError,
            >(final(self)@),
    {
        amount.check_wf();
        self.available = decimal_add(self.available, amount).unwrap();
        self.total = decimal_add(self.total, amount).unwrap();
        Ok(())
    }

    /// Takes the amount from the available and the total funds, where enough is available.
    pub fn withdrawal(&mut self, amount: Amount) -> (r: Result<(), TransactionError>)
        requires
            old(self)@.wf(),
            transact_fits(old(self)@, TransactionType::Withdrawal, amount@),
        ensures
            final(self)@.wf(),
            match transact_spec(old(self)@, TransactionType::Withdrawal, amount@) {
                Ok(c) => r is Ok && final(self)@ == c,
                Err(e) => r == Err::<(), TransactionError>(e) && final(self)@ == old(self)@,
            },
    {
        amount.check_wf();
        if decimal_lt(self.available, amount) {
            return Err(TransactionError::NotEnoughFunds);
        }
        self.available = decimal_sub(self.available, amount).unwrap();
        self.total = decimal_sub(self.total, amount).unwrap();
        Ok(())
    }

    /// Moves the amount from the available to the held funds. The available funds may
    /// become negative.
    pub fn dispute(&mut self, amount: Amount) -> (r: Result<(), TransactionError>)
        requires
            old(self)@.wf(),
            transact_fits(old(self)@, TransactionType::Dispute, amount@),
        ensures
            final(self)@.wf(),
            r is Ok,
            transact_spec(old(self)@, TransactionType::Dispute, amount@) == Ok::<
                ClientView,
                TransactionError,
            >(final(self)@),
    {
        amount.check_wf();
        self.available = decimal_sub(self.available, amount).unwrap();
        self.held = decimal_add(self.held, amount).unwrap();
        Ok(())
    }

    /// Moves the amount from the held back to the available funds.
    pub fn resolve(&mut self, amount: Amount) -> (r: Result<(), TransactionError>)
        requires
            old(self)@.wf(),
            transact_fits(old(self)@, TransactionType::Resolve, amount@),
        ensures
            final(self)@.wf(),
            r is Ok,
            transact_spec(old(self)@, TransactionType::Resolve, amount@) == Ok::<
                ClientView,
                TransactionError,
            >(final(self)@),
    {
        amount.check_wf();
        self.available = decimal_add(self.available, amount).unwrap();
        self.held = decimal_sub(self.held, amount).unwrap();
        Ok(())
    }

    /// Takes the amount from the held and the total funds and locks the account, where the
    /// total covers the amount.
    pub fn chargeback(&mut self, amount: Amount) -> (r: Result<(), TransactionError>)
        requires
            old(self)@.wf(),
            transact_fits(old(self)@, TransactionType::Chargeback, amount@),
        ensures
            final(self)@.wf(),
            match transact_spec(old(self)@, TransactionType::Chargeback, amount@) {
                Ok(c) => r is Ok && final(self)@ == c,
                Err(e) => r == Err::<(), TransactionError>(e) && final(self)@ == old(self)@,
            },
    {
        amount.check_wf();
        if decimal_lt(self.total, amount) {
            return Err(TransactionError::NotEnoughFunds);
        }
        self.held = decimal_sub(self.held, amount).unwrap();
        self.total = decimal_sub(self.total, amount).unwrap();
        self.locked = true;
        Ok(())
    }

    /// Whether no decimal operation of a transaction of the given kind and amount overflows
    /// (see [`transact_fits`]).
    pub fn can_transact(&self, transaction_type: &TransactionType, amount: Amount) -> (r: bool)
        requires
            self@.wf(),
        ensures
            r == transact_fits(self@, *transaction_type, amount@),
    {
        amount.check_wf();
        match transaction_type {
            TransactionType::Deposit => decimal_add(self.available, amount).is_some()
                && decimal_add(self.total, amount).is_some(),
            TransactionType::Withdrawal => decimal_lt(self.available, amount) || (decimal_sub(
                self.available,
                amount,
            ).is_some() && decimal_sub(self.total, amount).is_some()),
            TransactionType::Dispute => decimal_sub(self.available, amount).is_some()
                && decimal_add(self.held, amount).is_some(),
            TransactionType::Resolve => decimal_add(self.available, amount).is_some()
                && decimal_sub(self.held, amount).is_some(),
            TransactionType::Chargeback => decimal_lt(self.total, amount) || (decimal_sub(
                self.held,
                amount,
            ).is_some() && decimal_sub(self.total, amount).is_some()),
        }
    }
}

/// Exact arithmetic on well-formed amounts does not overflow, gives the exact result, and
/// that result is well formed.
pub proof fn lemma_exact_ok(a: AmountModel, b: AmountModel)
    requires
        a.wf(),
        b.wf(),
    ensures
        add_fits(a, b) ==> add_ok(a, b) && sum_of(a, b) == add_spec(a, b),
        sub_fits(a, b) ==> sub_ok(a, b) && difference_of(a, b) == sub_spec(a, b),
{
    lemma_add_units(a, b);
    lemma_sub_units(a, b);
    assert(add_fits(a, b) ==> checked_add_spec(a, b) == Some(add_spec(a, b)));
    assert(sub_fits(a, b) ==> checked_sub_spec(a, b) == Some(sub_spec(a, b)));
}

/// Exact operations do not overflow.
pub proof fn lemma_exact_fits(c: ClientView, kind: TransactionType, amount: AmountModel)
    requires
        c.wf(),
        amount.wf(),
        transact_exact(c, kind, amount),
    ensures
        transact_fits(c, kind, amount),
{
    lemma_exact_ok(c.available, amount);
    lemma_exact_ok(c.held, amount);
    lemma_exact_ok(c.total, amount);
}

/// Every account operation keeps the account well formed; where its arithmetic is exact, it
/// also keeps the total equal to what is available plus what is held. (Where `rust_decimal`
/// rounds, the balance can be lost: with 1 available, 10^-28 held and a total of
/// 1.0000000000000000000000000001, a deposit of 7 rounds the total to 8.)
pub proof fn law_balance_kept(c: ClientView, kind: TransactionType, amount: AmountModel)
    requires
        c.wf(),
        amount.wf(),
    ensures
        transact_fits(c, kind, amount) ==> (transact_spec(c, kind, amount) matches Ok(c2)
            ==> c2.wf()),
        c.balanced() && transact_exact(c, kind, amount) ==> (transact_spec(
            c,
            kind,
            amount,
        ) matches Ok(c2) ==> c2.balanced()),
{
    lemma_exact_ok(c.available, amount);
    lemma_exact_ok(c.held, amount);
    lemma_exact_ok(c.total, amount);
    lemma_add_units(c.available, amount);
    lemma_add_units(c.held, amount);
    lemma_add_units(c.total, amount);
    lemma_sub_units(c.available, amount);
    lemma_sub_units(c.held, amount);
    lemma_sub_units(c.total, amount);
}

/// Only a chargeback locks an account, and no operation unlocks one; no operation changes
/// whose account it is.
pub proof fn law_lock_only_by_chargeback(c: ClientView, kind: TransactionType, amount: AmountModel)
    ensures
        transact_spec(c, kind, amount) matches Ok(c2) ==> c2.locked == (c.locked || kind
            == TransactionType::Chargeback) && c2.client == c.client,
        transact_spec(c, kind, amount) is Err ==> kind == TransactionType::Withdrawal || kind
            == TransactionType::Chargeback,
{
}

/// A withdrawal or a chargeback is refused exactly where the funds it draws on (the
/// available funds, the total) are less than the amount.
pub proof fn law_refused_when_short(c: ClientView, kind: TransactionType, amount: AmountModel)
    requires
        c.wf(),
        amount.wf(),
    ensures
        kind == TransactionType::Withdrawal ==> (transact_spec(c, kind, amount)
            == Err::<ClientView, TransactionError>(TransactionError::NotEnoughFunds)
            <==> c.available.units() < amount.units()),
        kind == TransactionType::Chargeback ==> (transact_spec(c, kind, amount)
            == Err::<ClientView, TransactionError>(TransactionError::NotEnoughFunds)
            <==> c.total.units() < amount.units()),
{
    lemma_lt_units(c.available, amount);
    lemma_lt_units(c.total, amount);
}

/// A deposit raises the available and the total funds by the amount, in value, whatever the
/// account holds (where the sums are exact); it leaves the held funds, the lock and the
/// client as they were, and is never refused.
pub proof fn law_deposit_credits(c: ClientView, amount: AmountModel)
    requires
        c.wf(),
        amount.wf(),
        add_fits(c.available, amount),
        add_fits(c.total, amount),
    ensures
        transact_spec(c, TransactionType::Deposit, amount) matches Ok(c2) && c2.available.units()
            == c.available.units() + amount.units() && c2.total.units() == c.total.units()
            + amount.units() && c2.held == c.held && c2.locked == c.locked && c2.client
            == c.client,
{
    lemma_exact_ok(c.available, amount);
    lemma_exact_ok(c.total, amount);
    lemma_add_units(c.available, amount);
    lemma_add_units(c.total, amount);
}

/// A withdrawal is refused where less is available than the amount, and otherwise lowers the
/// available and the total funds by the amount, in value (where the differences are exact),
/// leaving the held funds, the lock and the client as they were.
pub proof fn law_withdrawal_debits(c: ClientView, amount: AmountModel)
    requires
        c.wf(),
        amount.wf(),
    ensures
        c.available.units() < amount.units() ==> transact_spec(
            c,
            TransactionType::Withdrawal,
            amount,
        ) == Err::<ClientView, TransactionError>(TransactionError::NotEnoughFunds),
        c.available.units() >= amount.units() && sub_fits(c.available, amount) && sub_fits(
            c.total,
            amount,
        ) ==> (transact_spec(c, TransactionType::Withdrawal, amount) matches Ok(c2)
            && c2.available.units() == c.available.units() - amount.units()
            && c2.total.units() == c.total.units() - amount.units() && c2.held == c.held
            && c2.locked == c.locked && c2.client == c.client),
{
    lemma_lt_units(c.available, amount);
    lemma_exact_ok(c.available, amount);
    lemma_exact_ok(c.total, amount);
    lemma_sub_units(c.available, amount);
    lemma_sub_units(c.total, amount);
}

/// A dispute moves the amount, in value, from the available to the held funds (where exact),
/// whatever the available funds, keeping the total, the lock and the client.
pub proof fn law_dispute_holds(c: ClientView, amount: AmountModel)
    requires
        c.wf(),
        amount.wf(),
        sub_fits(c.available, amount),
        add_fits(c.held, amount),
    ensures
        transact_spec(c, TransactionType::Dispute, amount) matches Ok(c2) && c2.available.units()
            == c.available.units() - amount.units() && c2.held.units() == c.held.units()
            + amount.units() && c2.total == c.total && c2.locked == c.locked && c2.client
            == c.client,
{
    lemma_exact_ok(c.available, amount);
    lemma_exact_ok(c.held, amount);
    lemma_sub_units(c.available, amount);
    lemma_add_units(c.held, amount);
}

/// A resolution moves the amount, in value, from the held back to the available funds
/// (where exact), keeping the total, the lock and the client.
pub proof fn law_resolve_releases(c: ClientView, amount: AmountModel)
    requires
        c.wf(),
        amount.wf(),
        add_fits(c.available, amount),
        sub_fits(c.held, amount),
    ensures
        transact_spec(c, TransactionType::Resolve, amount) matches Ok(c2) && c2.available.units()
            == c.available.units() + amount.units() && c2.held.units() == c.held.units()
            - amount.units() && c2.total == c.total && c2.locked == c.locked && c2.client
            == c.client,
{
    lemma_exact_ok(c.available, amount);
    lemma_exact_ok(c.held, amount);
    lemma_add_units(c.available, amount);
    lemma_sub_units(c.held, amount);
}

/// A chargeback is refused where the total is less than the amount, and otherwise takes the
/// amount, in value, from the held and the total funds (where exact) and locks the account,
/// keeping the available funds and the client.
pub proof fn law_chargeback_withdraws_and_locks(c: ClientView, amount: AmountModel)
    requires
        c.wf(),
        amount.wf(),
    ensures
        c.total.units() < amount.units() ==> transact_spec(
            c,
            TransactionType::Chargeback,
            amount,
        ) == Err::<ClientView, TransactionError>(TransactionError::NotEnoughFunds),
        c.total.units() >= amount.units() && sub_fits(c.held, amount) && sub_fits(
            c.total,
            amount,
        ) ==> (transact_spec(c, TransactionType::Chargeback, amount) matches Ok(c2)
            && c2.held.units() == c.held.units() - amount.units() && c2.total.units()
            == c.total.units() - amount.units() && c2.available == c.available && c2.locked
            && c2.client == c.client),
{
    lemma_lt_units(c.total, amount);
    lemma_exact_ok(c.held, amount);
    lemma_exact_ok(c.total, amount);
    lemma_sub_units(c.held, amount);
    lemma_sub_units(c.total, amount);
}

/// The account after a dispute of `amount`.
pub open spec fn disputed_view(c: ClientView, amount: AmountModel) -> ClientView {
    ClientView {
        available: difference_of(c.available, amount),
        held: sum_of(c.held, amount),
        ..c
    }
}

/// The account after a deposit of `amount`.
pub open spec fn deposited_view(c: ClientView, amount: AmountModel) -> ClientView {
    ClientView {
        available: sum_of(c.available, amount),
        total: sum_of(c.total, amount),
        ..c
    }
}

/// Resolving a dispute over the same amount gives the account back its values: available,
/// held and total funds are what they were before the dispute (where both steps are exact).
pub proof fn law_resolve_undoes_dispute(c: ClientView, amount: AmountModel)
    requires
        c.wf(),
        amount.wf(),
        transact_exact(c, TransactionType::Dispute, amount),
        transact_exact(disputed_view(c, amount), TransactionType::Resolve, amount),
    ensures
        transact_spec(c, TransactionType::Dispute, amount) matches Ok(c1) && transact_spec(
            c1,
            TransactionType::Resolve,
            amount,
        ) matches Ok(c2) && same_value(c2.available, c.available) && same_value(
            c2.held,
            c.held,
        ) && same_value(c2.total, c.total) && c2.locked == c.locked && c2.client == c.client,
{
    lemma_exact_ok(c.available, amount);
    lemma_exact_ok(c.held, amount);
    let c1 = disputed_view(c, amount);
    lemma_sub_units(c.available, amount);
    lemma_add_units(c.held, amount);
    lemma_exact_ok(c1.available, amount);
    lemma_exact_ok(c1.held, amount);
    lemma_add_units(c1.available, amount);
    lemma_sub_units(c1.held, amount);
    let c2 = ClientView {
        available: sum_of(c1.available, amount),
        held: difference_of(c1.held, amount),
        ..c1
    };
    lemma_lt_units(c2.available, c.available);
    lemma_lt_units(c2.held, c.held);
    lemma_lt_units(c2.total, c.total);
}

/// Withdrawing what was just deposited gives the account back its values, where the funds
/// available before the deposit were not negative (and both steps are exact).
pub proof fn law_withdrawal_undoes_deposit(c: ClientView, amount: AmountModel)
    requires
        c.wf(),
        amount.wf(),
        c.available.units() >= 0,
        transact_exact(c, TransactionType::Deposit, amount),
        transact_exact(deposited_view(c, amount), TransactionType::Withdrawal, amount),
    ensures
        transact_spec(c, TransactionType::Deposit, amount) matches Ok(c1) && transact_spec(
            c1,
            TransactionType::Withdrawal,
            amount,
        ) matches Ok(c2) && same_value(c2.available, c.available) && c2.held == c.held
            && same_value(c2.total, c.total) && c2.locked == c.locked && c2.client == c.client,
{
    lemma_exact_ok(c.available, amount);
    lemma_exact_ok(c.total, amount);
    let c1 = deposited_view(c, amount);
    lemma_add_units(c.available, amount);
    lemma_add_units(c.total, amount);
    lemma_lt_units(c1.available, amount);
    lemma_exact_ok(c1.available, amount);
    lemma_exact_ok(c1.total, amount);
    lemma_sub_units(c1.available, amount);
    lemma_sub_units(c1.total, amount);
    let c2 = ClientView {
        available: difference_of(c1.available, amount),
        total: difference_of(c1.total, amount),
        ..c1
    };
    lemma_lt_units(c2.available, c.available);
    lemma_lt_units(c2.total, c.total);
}

/// A dispute keeps the total; a chargeback of the disputed amount then takes the amount
/// from the total (where the total covers it), gives the held funds back their value from
/// before the dispute, and locks the account (where the steps are exact).
pub proof fn law_chargeback_after_dispute(c: ClientView, amount: AmountModel)
    requires
        c.wf(),
        amount.wf(),
        transact_exact(c, TransactionType::Dispute, amount),
        transact_exact(disputed_view(c, amount), TransactionType::Chargeback, amount),
    ensures
        transact_spec(c, TransactionType::Dispute, amount) matches Ok(c1) && c1.total == c.total
            && (c.total.units() < amount.units() ==> transact_spec(
            c1,
            TransactionType::Chargeback,
            amount,
        ) == Err::<ClientView, TransactionError>(TransactionError::NotEnoughFunds)) && (
        c.total.units() >= amount.units() ==> (transact_spec(
            c1,
            TransactionType::Chargeback,
            amount,
        ) matches Ok(c2) && c2.locked && c2.total.units() == c.total.units() - amount.units()
            && c2.held.units() == c.held.units() && c2.available == c1.available)),
{
    lemma_exact_ok(c.available, amount);
    lemma_exact_ok(c.held, amount);
    let c1 = disputed_view(c, amount);
    lemma_sub_units(c.available, amount);
    lemma_add_units(c.held, amount);
    lemma_lt_units(c1.total, amount);
    if !lt_spec(c1.total, amount) {
        lemma_exact_ok(c1.held, amount);
        lemma_exact_ok(c1.total, amount);
        lemma_sub_units(c1.held, amount);
        lemma_sub_units(c1.total, amount);
    }
}

/// The account after applying the steps (kind and amount) in order, and what each answered.
pub open spec fn client_run(c: ClientView, steps: Seq<(TransactionType, AmountModel)>) -> (
    ClientView,
    Seq<Result<(), TransactionError>>,
)
    decreases steps.len(),
{
    if steps.len() == 0 {
        (c, Seq::empty())
    } else {
        let (c1, answers) = client_run(c, steps.drop_last());
        let step = steps.last();
        match transact_spec(c1, step.0, step.1) {
            Ok(c2) => (c2, answers.push(Ok(()))),
            Err(e) => (c1, answers.push(Err(e))),
        }
    }
}

/// The answers of a run are as many as its steps, and those of a shorter run come first.
proof fn lemma_client_run_answers(c: ClientView, steps: Seq<(TransactionType, AmountModel)>)
    ensures
        client_run(c, steps).1.len() == steps.len(),
    decreases steps.len(),
{
    if steps.len() > 0 {
        lemma_client_run_answers(c, steps.drop_last());
    }
}

/// An account opened for a client is locked after a run of operations exactly where a
/// chargeback in it went through.
pub proof fn law_locked_iff_chargeback(client_id: u16, steps: Seq<(TransactionType, AmountModel)>)
    ensures
        client_run(new_client_view(client_id), steps).0.locked <==> exists|i: int|
            0 <= i < steps.len() && (#[trigger] steps[i]).0 == TransactionType::Chargeback
                && client_run(new_client_view(client_id), steps).1[i] is Ok,
        client_run(new_client_view(client_id), steps).0.client == client_id,
    decreases steps.len(),
{
    let c = new_client_view(client_id);
    if steps.len() > 0 {
        let prefix = steps.drop_last();
        law_locked_iff_chargeback(client_id, prefix);
        lemma_client_run_answers(c, prefix);
        let (c1, answers) = client_run(c, prefix);
        let all = client_run(c, steps).1;
        let step = steps.last();
        law_lock_only_by_chargeback(c1, step.0, step.1);
        assert forall|i: int| 0 <= i < prefix.len() implies all[i] == answers[i] && steps[i]
            == prefix[i] by {}
        if c1.locked {
            let i = choose|i: int|
                0 <= i < prefix.len() && (#[trigger] prefix[i]).0 == TransactionType::Chargeback
                    && answers[i] is Ok;
            assert(steps[i] == prefix[i]);
        }
        if client_run(c, steps).0.locked && !c1.locked {
            assert(steps[steps.len() - 1] == step);
            assert(all[steps.len() - 1] is Ok);
        }
    }
}

/// Where every step is exact, a run keeps a well-formed, balanced account well formed and
/// balanced.
pub open spec fn client_run_exact(c: ClientView, steps: Seq<(TransactionType, AmountModel)>) -> bool
    decreases steps.len(),
{
    steps.len() == 0 || (client_run_exact(c, steps.drop_last()) && steps.last().1.wf()
        && transact_exact(client_run(c, steps.drop_last()).0, steps.last().0, steps.last().1))
}

/// A run of exact operations keeps the total equal to what is available plus what is held.
pub proof fn law_run_keeps_balance(c: ClientView, steps: Seq<(TransactionType, AmountModel)>)
    requires
        c.wf(),
        c.balanced(),
        client_run_exact(c, steps),
    ensures
        client_run(c, steps).0.wf(),
        client_run(c, steps).0.balanced(),
    decreases steps.len(),
{
    if steps.len() > 0 {
        law_run_keeps_balance(c, steps.drop_last());
        let c1 = client_run(c, steps.drop_last()).0;
        let step = steps.last();
        lemma_exact_fits(c1, step.0, step.1);
        law_balance_kept(c1, step.0, step.1);
    }
}

/// A new account is well formed and balanced.
pub proof fn lemma_new_client_balanced(client_id: u16)
    ensures
        new_client_view(client_id).wf(),
        new_client_view(client_id).balanced(),
{
    lemma_zero_model_units();
}

proof fn lemma_zero_model_units()
    ensures
        zero_model().units() == 0,
{
    let p = pow10(MAX_SCALE as nat);
    assert(0 * p == 0) by (nonlinear_arith);
}

} // verus!
