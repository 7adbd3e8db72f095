use vstd::prelude::*;

verus! {

/// Why a record was rejected.
#[derive(Clone, Copy, Debug, PartialEq, Eq, Structural)]
pub enum TransactionErrorKind {
    IncorrectClient,
    Locked,
    AlreadyExists,
    DoesNotExist,
    NegativeBalance,
    AlreadyDisputed,
    FraudulentDispute,
    NotDisputed,
    NoWithdrawalDisputes,
    MustHaveAmount,
    /// A balance would leave the range that an `Amount` holds exactly.
    Overflow,
    Misc,
}

/// A rejected record: the reason, and a message for people.
#[derive(Debug)]
pub struct TransactionError {
    kind: TransactionErrorKind,
    message: String,
}

impl TransactionError {
    pub closed spec fn kind_of(&self) -> TransactionErrorKind {
        self.kind
    }

    pub closed spec fn message_of(&self) -> Seq<char> {
        self.message@
    }

    pub fn kind(&self) -> (r: &TransactionErrorKind)
        ensures
            *r == self.kind_of(),
    {
        &self.kind
    }

    pub fn message(&self) -> (r: &str)
        ensures
            r@ == self.message_of(),
    {
        self.message.as_str()
    }

    pub fn new(kind: TransactionErrorKind, message: &str) -> (r: Self)
        ensures
            r.kind_of() == kind,
            r.message_of() == message@,
    {
        Self { kind, message: message.to_owned() }
    }

    pub fn incorrect_client() -> (r: Self)
        ensures
            r.kind_of() == TransactionErrorKind::IncorrectClient,
            r.message_of() == "Trying to allocate a transaction to the wrong client account"@,
    {
        TransactionError::new(
            TransactionErrorKind::IncorrectClient,
            "Trying to allocate a transaction to the wrong client account",
        )
    }

    pub fn locked() -> (r: Self)
        ensures
            r.kind_of() == TransactionErrorKind::Locked,
            r.message_of() == "Account is locked, unable to process further transactions"@,
    {
        TransactionError::new(
            TransactionErrorKind::Locked,
            "Account is locked, unable to process further transactions",
        )
    }

    pub fn already_exists() -> (r: Self)
        ensures
            r.kind_of() == TransactionErrorKind::AlreadyExists,
            r.message_of() == "Transaction id already exists on account"@,
    {
        TransactionError::new(
            TransactionErrorKind::AlreadyExists,
            "Transaction id already exists on account",
        )
    }

    pub fn does_not_exist() -> (r: Self)
        ensures
            r.kind_of() == TransactionErrorKind::DoesNotExist,
            r.message_of() == "Transaction id does not exist on account"@,
    {
        TransactionError::new(
            TransactionErrorKind::DoesNotExist,
            "Transaction id does not exist on account",
        )
    }

    pub fn negative_balance() -> (r: Self)
        ensures
            r.kind_of() == TransactionErrorKind::NegativeBalance,
            r.message_of() == "Amount is greater than available, withdrawal would lead to negative balance"@,
    {
        TransactionError::new(
            TransactionErrorKind::NegativeBalance,
            "Amount is greater than available, withdrawal would lead to negative balance",
        )
    }

    pub fn already_disputed() -> (r: Self)
        ensures
            r.kind_of() == TransactionErrorKind::AlreadyDisputed,
            r.message_of() == "Cannot dispute a transaction that is already in dispute"@,
    {
        TransactionError::new(
            TransactionErrorKind::AlreadyDisputed,
            "Cannot dispute a transaction that is already in dispute",
        )
    }

    pub fn fraudulent_dispute() -> (r: Self)
        ensures
            r.kind_of() == TransactionErrorKind::FraudulentDispute,
            r.message_of() == "Cannot claim a dispute greater than the total balance of the account"@,
    {
        TransactionError::new(
            TransactionErrorKind::FraudulentDispute,
            "Cannot claim a dispute greater than the total balance of the account",
        )
    }

    pub fn not_disputed() -> (r: Self)
        ensures
            r.kind_of() == TransactionErrorKind::NotDisputed,
            r.message_of() == "Transaction is not within a disputed state"@,
    {
        TransactionError::new(
            TransactionErrorKind::NotDisputed,
            "Transaction is not within a disputed state",
        )
    }

    pub fn no_withdrawal_disputes() -> (r: Self)
        ensures
            r.kind_of() == TransactionErrorKind::NoWithdrawalDisputes,
            r.message_of() == "Withdrawals are not allowed to be disputed"@,
    {
        TransactionError::new(
            TransactionErrorKind::NoWithdrawalDisputes,
            "Withdrawals are not allowed to be disputed",
        )
    }

    pub fn must_have_amount() -> (r: Self)
        ensures
            r.kind_of() == TransactionErrorKind::MustHaveAmount,
            r.message_of() == "Deposits and Withdrawals must have amounts"@,
    {
        TransactionError::new(
            TransactionErrorKind::MustHaveAmount,
            "Deposits and Withdrawals must have amounts",
        )
    }

    pub fn overflow() -> (r: Self)
        ensures
            r.kind_of() == TransactionErrorKind::Overflow,
            r.message_of() == "Resulting balance is outside the range that is kept exactly"@,
    {
        TransactionError::new(
            TransactionErrorKind::Overflow,
            "Resulting balance is outside the range that is kept exactly",
        )
    }
}

} // verus!
