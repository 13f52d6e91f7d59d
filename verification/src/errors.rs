use vstd::prelude::*;

verus! {

/// Every way a transaction run can fail. Each kind is caught at the call
/// boundary and turned into a per-transaction failure outcome; none of them
/// may abort the rest of a batch or the host process.
#[derive(Clone, Copy, Debug, PartialEq, Eq, Structural)]
pub enum ErrorKind {
    /// A payload (transaction, argument record, stored record) did not decode.
    CorruptedInput,
    /// An operation named an account that is not in the account namespace.
    AccountNotFound,
    /// Account creation named an id that is already taken.
    AccountAlreadyExists,
    /// The caller is not permitted to perform the operation.
    Unauthorized,
    /// A bounded resource other than gas ran out (a counter or balance
    /// overflowed or underflowed, or the recursion depth cap was reached).
    InsufficientResource,
    /// The run needed more gas than the transaction attached.
    GasExhausted,
    /// No program is available for the called account.
    MissingProgram,
    /// The storage layer reported a fault.
    StorageFailure,
}

/// The byte that stands for each failure kind in the wire encoding.
pub open spec fn spec_error_code(e: ErrorKind) -> u8 {
    match e {
        ErrorKind::CorruptedInput => 0,
        ErrorKind::AccountNotFound => 1,
        ErrorKind::AccountAlreadyExists => 2,
        ErrorKind::Unauthorized => 3,
        ErrorKind::InsufficientResource => 4,
        ErrorKind::GasExhausted => 5,
        ErrorKind::MissingProgram => 6,
        ErrorKind::StorageFailure => 7,
    }
}

/// The failure kind a wire byte stands for, if any.
pub open spec fn spec_error_of_code(c: u8) -> Option<ErrorKind> {
    if c == 0 {
        Some(ErrorKind::CorruptedInput)
    } else if c == 1 {
        Some(ErrorKind::AccountNotFound)
    } else if c == 2 {
        Some(ErrorKind::AccountAlreadyExists)
    } else if c == 3 {
        Some(ErrorKind::Unauthorized)
    } else if c == 4 {
        Some(ErrorKind::InsufficientResource)
    } else if c == 5 {
        Some(ErrorKind::GasExhausted)
    } else if c == 6 {
        Some(ErrorKind::MissingProgram)
    } else if c == 7 {
        Some(ErrorKind::StorageFailure)
    } else {
        None
    }
}

/// Decoding the code of a failure kind gives that kind back.
pub proof fn lemma_error_code_round_trip(e: ErrorKind)
    ensures
        spec_error_of_code(spec_error_code(e)) == Some(e),
{
}

pub fn error_code(e: ErrorKind) -> (r: u8)
    ensures
        r == spec_error_code(e),
{
    match e {
        ErrorKind::CorruptedInput => 0,
        ErrorKind::AccountNotFound => 1,
        ErrorKind::AccountAlreadyExists => 2,
        ErrorKind::Unauthorized => 3,
        ErrorKind::InsufficientResource => 4,
        ErrorKind::GasExhausted => 5,
        ErrorKind::MissingProgram => 6,
        ErrorKind::StorageFailure => 7,
    }
}

pub fn error_of_code(c: u8) -> (r: Option<ErrorKind>)
    ensures
        r == spec_error_of_code(c),
{
    if c == 0 {
        Some(ErrorKind::CorruptedInput)
    } else if c == 1 {
        Some(ErrorKind::AccountNotFound)
    } else if c == 2 {
        Some(ErrorKind::AccountAlreadyExists)
    } else if c == 3 {
        Some(ErrorKind::Unauthorized)
    } else if c == 4 {
        Some(ErrorKind::InsufficientResource)
    } else if c == 5 {
        Some(ErrorKind::GasExhausted)
    } else if c == 6 {
        Some(ErrorKind::MissingProgram)
    } else if c == 7 {
        Some(ErrorKind::StorageFailure)
    } else {
        None
    }
}

} // verus!
