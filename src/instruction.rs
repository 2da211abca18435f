//! The operations a caller can ask for, with their arguments.
use crate::state::MessageType;
use vstd::prelude::*;

verus! {

/// One operation and its arguments. The slots each one reads, in order:
///
/// - `SetUserProfile`: the owner (signer), the owner's profile slot.
/// - `CreateThread`: the system program, the thread slot, the fee payer
///   (signer).
/// - `SendMessage`: the sender (signer), the recipient, the thread slot, the
///   recipient's profile slot, the message slot, the root directory slot, the
///   sender's profile slot. The caller that allocates an empty message slot
///   also needs the system program.
pub enum JabberInstruction {
    /// Updates the signer's profile; absent fields keep their stored value.
    SetUserProfile { name: Option<String>, bio: Option<String>, lamports_per_message: Option<u64> },
    /// Creates the one thread between two users.
    CreateThread { user_1: [u8; 32], user_2: [u8; 32] },
    /// Appends a message to the thread between the sender and the recipient.
    SendMessage { kind: MessageType, message: Vec<u8> },
}

} // verus!
