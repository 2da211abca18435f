//! Failures of the protocol's operations.
use vstd::prelude::*;

verus! {

/// Why an operation was refused. Every failure leaves all slots unchanged.
#[derive(Clone, Copy, Debug, PartialEq, Eq, Structural)]
pub enum JabberError {
    /// A slot's address is not the one derived from its entity's keys.
    AccountNotDeterministic,
    /// The caller may not act on this slot.
    AccountNotAuthorized,
    /// A slot does not hold the deposit that keeps it stored indefinitely.
    AccountNotRentExempt,
    /// The thread between the two users already exists.
    ChatThreadExists,
    /// A profile slot is not owned by the program.
    WrongProfileOwner,
    /// A slot's type byte or length does not match the record read from it.
    DataTypeMismatch,
    /// The account given as the system program is not the system program.
    WrongSystemProgramAccount,
    /// A thread slot is not owned by the program.
    WrongThreadAccountOwner,
    /// A message slot is not owned by the program.
    WrongMessageAccount,
    /// The message slot already holds a message.
    MessageExists,
    /// The root directory slot is not owned by the program.
    WrongDirectoryAccountOwner,
    /// A required signature is missing.
    MissingRequiredSignature,
    /// An argument is out of bounds: a name, bio or payload too long, a
    /// message to oneself, or a thread whose counter is exhausted.
    InvalidArgument,
    /// A slot is smaller than the record it must hold.
    AccountDataTooSmall,
    /// A slot that must hold a record holds none yet.
    UninitializedAccount,
    /// Fewer slots were given than the operation reads.
    NotEnoughAccountKeys,
}

/// The program-specific error number of `e`, or `None` for a failure that the
/// ledger names itself.
pub open spec fn custom_code_of(e: JabberError) -> Option<u32> {
    match e {
        JabberError::AccountNotDeterministic => Some(0),
        JabberError::AccountNotAuthorized => Some(1),
        JabberError::AccountNotRentExempt => Some(2),
        JabberError::ChatThreadExists => Some(3),
        JabberError::WrongProfileOwner => Some(4),
        JabberError::DataTypeMismatch => Some(5),
        JabberError::WrongSystemProgramAccount => Some(6),
        JabberError::WrongThreadAccountOwner => Some(7),
        JabberError::WrongMessageAccount => Some(8),
        JabberError::MessageExists => Some(9),
        JabberError::WrongDirectoryAccountOwner => Some(10),
        _ => None,
    }
}

impl JabberError {
    /// The program-specific error number, or `None` for a failure that the
    /// ledger names itself (a missing signature, an invalid argument, a slot
    /// too small or not initialized).
    pub fn custom_code(&self) -> (r: Option<u32>)
        ensures
            r == custom_code_of(*self),
    {
        match self {
            JabberError::AccountNotDeterministic => Some(0),
            JabberError::AccountNotAuthorized => Some(1),
            JabberError::AccountNotRentExempt => Some(2),
            JabberError::ChatThreadExists => Some(3),
            JabberError::WrongProfileOwner => Some(4),
            JabberError::DataTypeMismatch => Some(5),
            JabberError::WrongSystemProgramAccount => Some(6),
            JabberError::WrongThreadAccountOwner => Some(7),
            JabberError::WrongMessageAccount => Some(8),
            JabberError::MessageExists => Some(9),
            JabberError::WrongDirectoryAccountOwner => Some(10),
            _ => None,
        }
    }
}

} // verus!
