//! A storage slot as the protocol sees it, and the checks made on slots.
use crate::error::JabberError;
use crate::state::{MAX_BIO_LENGTH, MAX_NAME_LENGTH};
use vstd::prelude::*;

verus! {

/// An in-memory copy of one storage slot: its address, the program that owns
/// it, whether the caller signed for it, its deposit and the deposit that keeps
/// a slot of its size stored indefinitely, and its bytes. Operations change
/// only the bytes; an empty slot stands for one not allocated yet.
#[derive(Clone, Debug)]
pub struct Slot {
    pub key: [u8; 32],
    pub owner: [u8; 32],
    pub is_signer: bool,
    pub lamports: u64,
    pub rent_minimum: u64,
    pub data: Vec<u8>,
}

/// `b` is `a` with at most its bytes changed.
pub open spec fn same_but_data(a: &Slot, b: &Slot) -> bool {
    &&& a.key == b.key
    &&& a.owner == b.owner
    &&& a.is_signer == b.is_signer
    &&& a.lamports == b.lamports
    &&& a.rent_minimum == b.rent_minimum
}

/// The slot's deposit keeps it stored indefinitely.
pub open spec fn rent_exempt(a: &Slot) -> bool {
    a.lamports >= a.rent_minimum
}

/// Compares two keys byte by byte.
pub fn keys_equal(a: &[u8; 32], b: &[u8; 32]) -> (r: bool)
    ensures
        r == (a@ == b@),
{
    let mut i: usize = 0;
    while i < 32
        invariant
            i <= 32,
            a@.len() == 32,
            b@.len() == 32,
            forall|j: int| 0 <= j < i ==> a@[j] == b@[j],
        decreases 32 - i,
    {
        if a[i] != b[i] {
            return false;
        }
        i = i + 1;
    }
    assert(a@ =~= b@);
    true
}

/// Fails with `error` unless the slot's address is `key`.
pub fn check_account_key(account: &Slot, key: &[u8; 32], error: JabberError) -> (r: Result<
    (),
    JabberError,
>)
    ensures
        r is Ok <==> account.key@ == key@,
        r matches Err(e) ==> e == error,
{
    if !keys_equal(&account.key, key) {
        return Err(error);
    }
    Ok(())
}

/// Fails with `error` unless the slot is owned by `owner`.
pub fn check_account_owner(account: &Slot, owner: &[u8; 32], error: JabberError) -> (r: Result<
    (),
    JabberError,
>)
    ensures
        r is Ok <==> account.owner@ == owner@,
        r matches Err(e) ==> e == error,
{
    if !keys_equal(&account.owner, owner) {
        return Err(error);
    }
    Ok(())
}

/// Fails unless the caller signed for the slot.
pub fn check_signer(account: &Slot) -> (r: Result<(), JabberError>)
    ensures
        r is Ok <==> account.is_signer,
        r matches Err(e) ==> e == JabberError::MissingRequiredSignature,
{
    if !account.is_signer {
        return Err(JabberError::MissingRequiredSignature);
    }
    Ok(())
}

/// Fails unless the slot holds the deposit that keeps it stored indefinitely.
pub fn check_rent_exempt(account: &Slot) -> (r: Result<(), JabberError>)
    ensures
        r is Ok <==> rent_exempt(account),
        r matches Err(e) ==> e == JabberError::AccountNotRentExempt,
{
    if account.lamports < account.rent_minimum {
        return Err(JabberError::AccountNotRentExempt);
    }
    Ok(())
}

/// The UTF-8 length of an optional string is within `max`.
pub open spec fn opt_len_within(s: Option<String>, max: nat) -> bool {
    match s {
        None => true,
        Some(s) => crate::codec::string_bytes(&s).len() <= max,
    }
}

/// Fails unless a given name and bio are within their bounds in bytes.
pub fn check_profile_params(name: &Option<String>, bio: &Option<String>) -> (r: Result<
    (),
    JabberError,
>)
    ensures
        r is Ok <==> opt_len_within(*bio, MAX_BIO_LENGTH as nat) && opt_len_within(
            *name,
            MAX_NAME_LENGTH as nat,
        ),
        r matches Err(e) ==> e == JabberError::InvalidArgument,
{
    if let Some(b) = bio {
        if b.as_str().as_bytes().len() > MAX_BIO_LENGTH {
            return Err(JabberError::InvalidArgument);
        }
    }
    if let Some(n) = name {
        if n.as_str().as_bytes().len() > MAX_NAME_LENGTH {
            return Err(JabberError::InvalidArgument);
        }
    }
    Ok(())
}

} // verus!
