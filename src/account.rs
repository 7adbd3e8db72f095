use vstd::prelude::*;

use crate::amount::{fits_i128, Amount};
use crate::transaction::transaction_error::{TransactionError, TransactionErrorKind};
use crate::transaction::transaction_lite::TransactionLite;
use crate::transaction::transaction_type::TransactionType;
use crate::transaction::Transaction;
use std::collections::HashMap;

verus! {

broadcast use {vstd::std_specs::hash::group_hash_axioms, Amount::lemma_value_fits};

pub type TransactionResult<T> = Result<T, TransactionError>;

/// What an account is, as a mathematical value: balances are counted in
/// `Amount` units.
pub struct AccountView {
    pub client_id: u16,
    pub available: int,
    pub held: int,
    pub total: int,
    pub locked: bool,
    pub transactions: Map<u32, TransactionLite>,
}

impl AccountView {
    /// The balance identity that every account keeps.
    pub open spec fn balanced(self) -> bool {
        self.total == self.available + self.held
    }

    /// All three balances can be held exactly by an `Amount`.
    pub open spec fn fits(self) -> bool {
        fits_i128(self.available) && fits_i128(self.held) && fits_i128(self.total)
    }

    pub open spec fn with_balances(self, available: int, held: int, total: int) -> AccountView {
        AccountView { available, held, total, ..self }
    }

    pub open spec fn with_transaction(self, id: u32, t: TransactionLite) -> AccountView {
        AccountView { transactions: self.transactions.insert(id, t), ..self }
    }
}

/// A deposit or withdrawal as it is first recorded.
pub open spec fn recorded(t_type: TransactionType, amount: Amount) -> TransactionLite {
    TransactionLite { disputed: false, t_type, amount }
}

/// The new state, or `Overflow` where a balance would not fit.
pub open spec fn checked_state(v: AccountView) -> Result<AccountView, TransactionErrorKind> {
    if v.fits() {
        Ok(v)
    } else {
        Err(TransactionErrorKind::Overflow)
    }
}

/// The account's state machine: the state after applying `tx` to `a`, or the
/// reason why `tx` is rejected.
pub open spec fn step(
    a: AccountView,
    tx: Transaction,
) -> Result<AccountView, TransactionErrorKind> {
    if tx.client_id != a.client_id {
        Err(TransactionErrorKind::IncorrectClient)
    } else if a.locked {
        Err(TransactionErrorKind::Locked)
    } else {
        match tx.t_type {
            TransactionType::Deposit => {
                if a.transactions.contains_key(tx.id) {
                    Err(TransactionErrorKind::AlreadyExists)
                } else {
                    match tx.amount {
                        None => Err(TransactionErrorKind::MustHaveAmount),
                        Some(x) => checked_state(
                            a.with_balances(
                                a.available + x.value(),
                                a.held,
                                a.total + x.value(),
                            ).with_transaction(tx.id, recorded(tx.t_type, x)),
                        ),
                    }
                }
            },
            TransactionType::Withdrawal => {
                match tx.amount {
                    None => Err(TransactionErrorKind::MustHaveAmount),
                    Some(x) => {
                        if x.value() > a.available {
                            Err(TransactionErrorKind::NegativeBalance)
                        } else if a.transactions.contains_key(tx.id) {
                            Err(TransactionErrorKind::AlreadyExists)
                        } else {
                            checked_state(
                                a.with_balances(
                                    a.available - x.value(),
                                    a.held,
                                    a.total - x.value(),
                                ).with_transaction(tx.id, recorded(tx.t_type, x)),
                            )
                        }
                    },
                }
            },
            TransactionType::Dispute => {
                if !a.transactions.contains_key(tx.id) {
                    Err(TransactionErrorKind::DoesNotExist)
                } else {
                    let t = a.transactions[tx.id];
                    if t.disputed {
                        Err(TransactionErrorKind::AlreadyDisputed)
                    } else if t.t_type == TransactionType::Withdrawal {
                        Err(TransactionErrorKind::NoWithdrawalDisputes)
                    } else if t.amount.value() > a.total {
                        Err(TransactionErrorKind::FraudulentDispute)
                    } else {
                        checked_state(
                            a.with_balances(
                                a.available - t.amount.value(),
                                a.held + t.amount.value(),
                                a.total,
                            ).with_transaction(tx.id, TransactionLite { disputed: true, ..t }),
                        )
                    }
                }
            },
            TransactionType::Resolve => {
                if !a.transactions.contains_key(tx.id) {
                    Err(TransactionErrorKind::DoesNotExist)
                } else {
                    let t = a.transactions[tx.id];
                    if !t.disputed {
                        Err(TransactionErrorKind::NotDisputed)
                    } else {
                        checked_state(
                            a.with_balances(
                                a.available + t.amount.value(),
                                a.held - t.amount.value(),
                                a.total,
                            ).with_transaction(tx.id, TransactionLite { disputed: false, ..t }),
                        )
                    }
                }
            },
            TransactionType::Chargeback => {
                if !a.transactions.contains_key(tx.id) {
                    Err(TransactionErrorKind::DoesNotExist)
                } else {
                    let t = a.transactions[tx.id];
                    if !t.disputed {
                        Err(TransactionErrorKind::NotDisputed)
                    } else {
                        checked_state(
                            AccountView {
                                locked: true,
                                ..a.with_balances(
                                    a.available,
                                    a.held - t.amount.value(),
                                    a.total - t.amount.value(),
                                ).with_transaction(tx.id, TransactionLite { disputed: false, ..t })
                            },
                        )
                    }
                }
            },
        }
    }
}

/// `after` and `r` are what applying `tx` to `before` gives: the stepped state and
/// `Ok`, or the unchanged state and the error that `step` names.
pub open spec fn applied(
    before: AccountView,
    after: AccountView,
    tx: Transaction,
    r: TransactionResult<()>,
) -> bool {
    match step(before, tx) {
        Ok(v) => r is Ok && after == v,
        Err(k) => r is Err && r->Err_0.kind_of() == k && after == before,
    }
}

/// One client's ledger: balances, lock flag, and the deposits and withdrawals it
/// accepted, by transaction id.
#[derive(Debug)]
pub struct Account {
    client_id: u16,
    transactions: HashMap<u32, TransactionLite>,
    available: Amount,
    held: Amount,
    total: Amount,
    locked: bool,
}

impl View for Account {
    type V = AccountView;

    closed spec fn view(&self) -> AccountView {
        AccountView {
            client_id: self.client_id,
            available: self.available.value(),
            held: self.held.value(),
            total: self.total.value(),
            locked: self.locked,
            transactions: self.transactions@,
        }
    }
}

impl Account {
    /// The balance identity holds.
    pub open spec fn wf(&self) -> bool {
        self@.balanced()
    }

    pub fn new(client_id: u16) -> (r: Self)
        ensures
            r.wf(),
            r@ == (AccountView {
                client_id,
                available: 0,
                held: 0,
                total: 0,
                locked: false,
                transactions: Map::empty(),
            }),
    {
        Self {
            client_id,
            transactions: HashMap::new(),
            available: Amount::zero(),
            held: Amount::zero(),
            total: Amount::zero(),
            locked: false,
        }
    }

    /// Applies one record, all or nothing: the new state and the result are what
    /// `step` prescribes.
    pub fn transact(&mut self, transaction: Transaction) -> (r: TransactionResult<()>)
        requires
            old(self).wf(),
        ensures
            final(self).wf(),
            applied(old(self)@, final(self)@, transaction, r),
            r is Err ==> final(self)@ == old(self)@,
    {
        if transaction.client_id != self.client_id {
            return Err(TransactionError::incorrect_client());
        }
        if self.locked {
            return Err(TransactionError::locked());
        }
        let r = match transaction.t_type {
            TransactionType::Deposit => self.deposit(transaction),
            TransactionType::Withdrawal => self.withdrawal(transaction),
            TransactionType::Dispute => self.dispute(transaction),
            TransactionType::Resolve => self.resolve(transaction),
            TransactionType::Chargeback => self.chargeback(transaction),
        };
        proof {
            lemma_step_keeps_balance(old(self)@, transaction);
        }
        r
    }

    /// Records a new deposit or withdrawal under its id.
    fn add_to_transactions(&mut self, transaction: &Transaction) -> (r: TransactionResult<()>)
        ensures
            old(self)@.transactions.contains_key(transaction.id) ==> {
                &&& r is Err
                &&& r->Err_0.kind_of() == TransactionErrorKind::AlreadyExists
                &&& final(self)@ == old(self)@
            },
            !old(self)@.transactions.contains_key(transaction.id) ==> match transaction.amount {
                None => {
                    &&& r is Err
                    &&& r->Err_0.kind_of() == TransactionErrorKind::MustHaveAmount
                    &&& final(self)@ == old(self)@
                },
                Some(x) => {
                    &&& r is Ok
                    &&& final(self)@ == old(self)@.with_transaction(
                        transaction.id,
                        recorded(transaction.t_type, x),
                    )
                },
            },
    {
        if self.transactions.contains_key(&transaction.id) {
            return Err(TransactionError::already_exists());
        }
        let amount = match transaction.amount() {
            Ok(a) => a,
            Err(e) => return Err(e),
        };
        self.transactions.insert(transaction.id, TransactionLite::new(transaction.t_type, amount));
        Ok(())
    }

    fn deposit(&mut self, transaction: Transaction) -> (r: TransactionResult<()>)
        requires
            old(self)@.client_id == transaction.client_id,
            !old(self)@.locked,
            transaction.t_type == TransactionType::Deposit,
        ensures
            applied(old(self)@, final(self)@, transaction, r),
    {
        if self.transactions.contains_key(&transaction.id) {
            return Err(TransactionError::already_exists());
        }
        let amount = match transaction.amount() {
            Ok(a) => a,
            Err(e) => return Err(e),
        };
        let total = match self.total.checked_add(amount) {
            Some(t) => t,
            None => return Err(TransactionError::overflow()),
        };
        let available = match self.available.checked_add(amount) {
            Some(a) => a,
            None => return Err(TransactionError::overflow()),
        };
        let added = self.add_to_transactions(&transaction);
        self.total = total;
        self.available = available;
        added
    }

    fn withdrawal(&mut self, transaction: Transaction) -> (r: TransactionResult<()>)
        requires
            old(self)@.client_id == transaction.client_id,
            !old(self)@.locked,
            transaction.t_type == TransactionType::Withdrawal,
        ensures
            applied(old(self)@, final(self)@, transaction, r),
    {
        let amount = match transaction.amount() {
            Ok(a) => a,
            Err(e) => return Err(e),
        };
        if amount.gt(&self.available) {
            return Err(TransactionError::negative_balance());
        }
        if self.transactions.contains_key(&transaction.id) {
            return Err(TransactionError::already_exists());
        }
        let available = match self.available.checked_sub(amount) {
            Some(a) => a,
            None => return Err(TransactionError::overflow()),
        };
        let total = match self.total.checked_sub(amount) {
            Some(t) => t,
            None => return Err(TransactionError::overflow()),
        };
        let added = self.add_to_transactions(&transaction);
        self.available = available;
        self.total = total;
        added
    }

    fn dispute(&mut self, transaction: Transaction) -> (r: TransactionResult<()>)
        requires
            old(self)@.client_id == transaction.client_id,
            !old(self)@.locked,
            transaction.t_type == TransactionType::Dispute,
        ensures
            applied(old(self)@, final(self)@, transaction, r),
    {
        let disputed_transaction = match self.transactions.get(&transaction.id) {
            Some(t) => *t,
            None => return Err(TransactionError::does_not_exist()),
        };
        if disputed_transaction.disputed {
            return Err(TransactionError::already_disputed());
        }
        if disputed_transaction.t_type == TransactionType::Withdrawal {
            return Err(TransactionError::no_withdrawal_disputes());
        }
        let amount = disputed_transaction.amount;
        if amount.gt(&self.total) {
            return Err(TransactionError::fraudulent_dispute());
        }
        let held = match self.held.checked_add(amount) {
            Some(h) => h,
            None => return Err(TransactionError::overflow()),
        };
        let available = match self.available.checked_sub(amount) {
            Some(a) => a,
            None => return Err(TransactionError::overflow()),
        };
        self.transactions.insert(
            transaction.id,
            TransactionLite { disputed: true, ..disputed_transaction },
        );
        self.held = held;
        self.available = available;
        Ok(())
    }

    /// The stored transaction with id `id`, which must exist and be in dispute.
    fn get_disputed_transaction(&self, id: u32) -> (r: TransactionResult<TransactionLite>)
        ensures
            !self@.transactions.contains_key(id) ==> r is Err && r->Err_0.kind_of()
                == TransactionErrorKind::DoesNotExist,
            self@.transactions.contains_key(id) && !self@.transactions[id].disputed ==> r is Err
                && r->Err_0.kind_of() == TransactionErrorKind::NotDisputed,
            self@.transactions.contains_key(id) && self@.transactions[id].disputed ==> r
                == Ok::<TransactionLite, TransactionError>(self@.transactions[id]),
    {
        let disputed_transaction = match self.transactions.get(&id) {
            Some(t) => *t,
            None => return Err(TransactionError::does_not_exist()),
        };
        match disputed_transaction.disputed_or_err() {
            Ok(()) => Ok(disputed_transaction),
            Err(e) => Err(e),
        }
    }

    fn resolve(&mut self, transaction: Transaction) -> (r: TransactionResult<()>)
        requires
            old(self)@.client_id == transaction.client_id,
            !old(self)@.locked,
            transaction.t_type == TransactionType::Resolve,
        ensures
            applied(old(self)@, final(self)@, transaction, r),
    {
        let disputed_transaction = match self.get_disputed_transaction(transaction.id) {
            Ok(t) => t,
            Err(e) => return Err(e),
        };
        let amount = disputed_transaction.amount;
        let held = match self.held.checked_sub(amount) {
            Some(h) => h,
            None => return Err(TransactionError::overflow()),
        };
        let available = match self.available.checked_add(amount) {
            Some(a) => a,
            None => return Err(TransactionError::overflow()),
        };
        self.transactions.insert(
            transaction.id,
            TransactionLite { disputed: false, ..disputed_transaction },
        );
        self.held = held;
        self.available = available;
        Ok(())
    }

    fn chargeback(&mut self, transaction: Transaction) -> (r: TransactionResult<()>)
        requires
            old(self)@.client_id == transaction.client_id,
            !old(self)@.locked,
            transaction.t_type == TransactionType::Chargeback,
        ensures
            applied(old(self)@, final(self)@, transaction, r),
    {
        let disputed_transaction = match self.get_disputed_transaction(transaction.id) {
            Ok(t) => t,
            Err(e) => return Err(e),
        };
        let amount = disputed_transaction.amount;
        let held = match self.held.checked_sub(amount) {
            Some(h) => h,
            None => return Err(TransactionError::overflow()),
        };
        let total = match self.total.checked_sub(amount) {
            Some(t) => t,
            None => return Err(TransactionError::overflow()),
        };
        self.transactions.insert(
            transaction.id,
            TransactionLite { disputed: false, ..disputed_transaction },
        );
        self.held = held;
        self.total = total;
        self.locked = true;
        Ok(())
    }

    pub fn client_id(&self) -> (r: u16)
        ensures
            r == self@.client_id,
    {
        self.client_id
    }

    pub fn available(&self) -> (r: Amount)
        ensures
            r.value() == self@.available,
    {
        self.available
    }

    pub fn held(&self) -> (r: Amount)
        ensures
            r.value() == self@.held,
    {
        self.held
    }

    pub fn total(&self) -> (r: Amount)
        ensures
            r.value() == self@.total,
    {
        self.total
    }

    pub fn locked(&self) -> (r: bool)
        ensures
            r == self@.locked,
    {
        self.locked
    }

    /// The stored deposit or withdrawal with id `id`, if this account accepted one.
    pub fn transaction(&self, id: u32) -> (r: Option<TransactionLite>)
        ensures
            r == (if self@.transactions.contains_key(id) {
                Some(self@.transactions[id])
            } else {
                None
            }),
    {
        match self.transactions.get(&id) {
            Some(t) => Some(*t),
            None => None,
        }
    }
}

/// Every accepted record keeps `total == available + held`.
pub proof fn lemma_step_keeps_balance(a: AccountView, tx: Transaction)
    requires
        a.balanced(),
    ensures
        step(a, tx) is Ok ==> step(a, tx)->Ok_0.balanced(),
{
}

/// Every stored deposit and withdrawal has a non-negative amount.
pub open spec fn amounts_nonnegative(a: AccountView) -> bool {
    forall|id: u32| #[trigger]
        a.transactions.contains_key(id) ==> a.transactions[id].amount.value() >= 0
}

/// A record is well formed if any amount it carries is non-negative.
pub open spec fn record_nonnegative(tx: Transaction) -> bool {
    tx.amount is Some ==> tx.amount->0.value() >= 0
}

/// Whether `tx` disputes a stored transaction larger than what is available.
pub open spec fn disputes_beyond_available(a: AccountView, tx: Transaction) -> bool {
    &&& tx.t_type == TransactionType::Dispute
    &&& a.transactions.contains_key(tx.id)
    &&& a.transactions[tx.id].amount.value() > a.available
}

/// With well-formed records, `available` never becomes negative, except by a
/// dispute of a transaction larger than what is available, which the dispute
/// guard (it compares with `total`) lets through.
pub proof fn lemma_step_keeps_available_nonnegative(a: AccountView, tx: Transaction)
    requires
        a.available >= 0,
        amounts_nonnegative(a),
        record_nonnegative(tx),
        !disputes_beyond_available(a, tx),
    ensures
        step(a, tx) is Ok ==> {
            &&& step(a, tx)->Ok_0.available >= 0
            &&& amounts_nonnegative(step(a, tx)->Ok_0)
        },
{
}

/// A locked account rejects every record, with `Locked` for its own client's,
/// so it stays locked and unchanged for good.
pub proof fn lemma_lock_is_permanent(a: AccountView, tx: Transaction)
    requires
        a.locked,
    ensures
        step(a, tx) is Err,
        tx.client_id == a.client_id ==> step(a, tx) == Err::<AccountView, TransactionErrorKind>(
            TransactionErrorKind::Locked,
        ),
{
}

/// A deposit that is disputed and then resolved leaves the account exactly as the
/// deposit left it: the resolve is accepted and restores `available`, `held`,
/// `total` and the stored transaction.
pub proof fn lemma_dispute_round_trip(a: AccountView, client_id: u16, id: u32, amount: Amount)
    requires
        step(
            a,
            Transaction {
                t_type: TransactionType::Deposit,
                client_id,
                id,
                amount: Some(amount),
            },
        ) is Ok,
        step(
            step(
                a,
                Transaction {
                    t_type: TransactionType::Deposit,
                    client_id,
                    id,
                    amount: Some(amount),
                },
            )->Ok_0,
            Transaction { t_type: TransactionType::Dispute, client_id, id, amount: None },
        ) is Ok,
    ensures
        ({
            let deposited = step(
                a,
                Transaction {
                    t_type: TransactionType::Deposit,
                    client_id,
                    id,
                    amount: Some(amount),
                },
            )->Ok_0;
            let disputed = step(
                deposited,
                Transaction { t_type: TransactionType::Dispute, client_id, id, amount: None },
            )->Ok_0;
            let resolved = step(
                disputed,
                Transaction { t_type: TransactionType::Resolve, client_id, id, amount: None },
            );
            &&& resolved is Ok
            &&& resolved->Ok_0.available == deposited.available
            &&& resolved->Ok_0.held == deposited.held
            &&& resolved->Ok_0.total == deposited.total
            &&& resolved->Ok_0 == deposited
        }),
{
    let dep = Transaction {
        t_type: TransactionType::Deposit,
        client_id,
        id,
        amount: Some(amount),
    };
    let deposited = step(a, dep)->Ok_0;
    let disputed = step(
        deposited,
        Transaction { t_type: TransactionType::Dispute, client_id, id, amount: None },
    )->Ok_0;
    let resolved = step(
        disputed,
        Transaction { t_type: TransactionType::Resolve, client_id, id, amount: None },
    )->Ok_0;
    assert(resolved.transactions =~= deposited.transactions);
}

} // verus!
