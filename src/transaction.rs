use vstd::prelude::*;

pub mod transaction_error;
pub mod transaction_lite;
pub mod transaction_type;

use crate::amount::Amount;
use transaction_error::{TransactionError, TransactionErrorKind};
use transaction_type::TransactionType;

verus! {

/// A movement record: what happens, to which client, under which transaction id.
/// Deposits and withdrawals carry an amount; the other kinds do not.
#[derive(Clone, Copy, Debug, PartialEq, Eq, Structural)]
pub struct Transaction {
    pub t_type: TransactionType,
    pub client_id: u16,
    pub id: u32,
    pub amount: Option<Amount>,
}

impl Transaction {
    fn new(t_type: TransactionType, client_id: u16, id: u32, amount: Option<Amount>) -> (r: Self)
        ensures
            r == (Transaction { t_type, client_id, id, amount }),
    {
        Self { t_type, client_id, id, amount }
    }

    pub fn new_deposit(client_id: u16, id: u32, amount: Amount) -> (r: Self)
        ensures
            r == (Transaction {
                t_type: TransactionType::Deposit,
                client_id,
                id,
                amount: Some(amount),
            }),
    {
        Transaction::new(TransactionType::Deposit, client_id, id, Some(amount))
    }

    pub fn new_withdrawal(client_id: u16, id: u32, amount: Amount) -> (r: Self)
        ensures
            r == (Transaction {
                t_type: TransactionType::Withdrawal,
                client_id,
                id,
                amount: Some(amount),
            }),
    {
        Transaction::new(TransactionType::Withdrawal, client_id, id, Some(amount))
    }

    pub fn new_dispute(client_id: u16, id: u32) -> (r: Self)
        ensures
            r == (Transaction { t_type: TransactionType::Dispute, client_id, id, amount: None }),
    {
        Transaction::new(TransactionType::Dispute, client_id, id, None)
    }

    pub fn new_resolve(client_id: u16, id: u32) -> (r: Self)
        ensures
            r == (Transaction { t_type: TransactionType::Resolve, client_id, id, amount: None }),
    {
        Transaction::new(TransactionType::Resolve, client_id, id, None)
    }

    pub fn new_chargeback(client_id: u16, id: u32) -> (r: Self)
        ensures
            r == (Transaction { t_type: TransactionType::Chargeback, client_id, id, amount: None }),
    {
        Transaction::new(TransactionType::Chargeback, client_id, id, None)
    }

    /// The record's amount, which a deposit or a withdrawal must carry.
    pub fn amount(&self) -> (r: Result<Amount, TransactionError>)
        ensures
            match self.amount {
                Some(a) => r == Ok::<Amount, TransactionError>(a),
                None => r is Err && r->Err_0.kind_of() == TransactionErrorKind::MustHaveAmount,
            },
    {
        match self.amount {
            Some(a) => Ok(a),
            None => Err(TransactionError::must_have_amount()),
        }
    }
}

} // verus!
