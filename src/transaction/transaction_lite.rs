use vstd::prelude::*;

use crate::amount::Amount;
use crate::transaction::transaction_error::{TransactionError, TransactionErrorKind};
use crate::transaction::transaction_type::TransactionType;

verus! {

/// A deposit or withdrawal as an account keeps it, with its dispute flag.
#[derive(Clone, Copy, Debug, PartialEq, Eq, Structural)]
pub struct TransactionLite {
    pub disputed: bool,
    pub t_type: TransactionType,
    pub amount: Amount,
}

impl TransactionLite {
    pub fn new(t_type: TransactionType, amount: Amount) -> (r: Self)
        ensures
            r == (TransactionLite { disputed: false, t_type, amount }),
    {
        Self { disputed: false, t_type, amount }
    }

    pub fn disputed_or_err(&self) -> (r: Result<(), TransactionError>)
        ensures
            r is Ok <==> self.disputed,
            r is Err ==> r->Err_0.kind_of() == TransactionErrorKind::NotDisputed,
    {
        if !self.disputed {
            return Err(TransactionError::not_disputed());
        }
        Ok(())
    }
}

} // verus!
