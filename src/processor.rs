//! The protocol's operations: each validates every slot it is given before it
//! changes any, and either changes exactly the slots' bytes it describes or
//! fails and changes nothing.
use crate::account::{
    check_account_owner, check_profile_params, check_rent_exempt,
    check_signer, keys_equal, opt_len_within, rent_exempt, same_but_data, Slot,
};
use crate::address::{derived_address, directory_seeds, message_seeds, profile_seeds, thread_seeds};
use crate::codec::{overwrite, string_bytes};
use crate::error::JabberError;
use crate::instruction::JabberInstruction;
use crate::state::{
    lemma_decoded_directory_wf, lemma_decoded_profile_wf, lemma_decoded_thread_wf,
    lemma_directory_round_trip, lemma_message_round_trip, lemma_profile_round_trip,
    lemma_thread_round_trip,
    decode_directory, decode_message, decode_profile, decode_thread, directory_bytes, message_bytes,
    profile_bytes, tag_byte, thread_bytes, MessageType, MessageView, Profile, ProfileView, RootDirectory,
    RootDirectoryView, Tag, Thread, ThreadView, Message, MAX_BIO_LENGTH, MAX_MSG_LEN,
    MAX_MESSAGE_LEN, MAX_NAME_LENGTH, MAX_PROFILE_LEN, MAX_THREAD_LEN,
};
use vstd::prelude::*;

verus! {

/// `key` is the address derived for an entity.
pub open spec fn is_derived(key: Seq<u8>, derived: Option<(Seq<u8>, u8)>) -> bool {
    derived matches Some((k, _)) && k == key
}

/// Compares a slot's address with a derived one.
fn derived_matches(key: &[u8; 32], derived: &Option<([u8; 32], u8)>) -> (r: bool)
    ensures
        r == is_derived(key@, crate::address::found_view(*derived)),
{
    match derived {
        Some((k, _)) => keys_equal(key, k),
        None => false,
    }
}

/// The UTF-8 bytes of an optional string.
pub open spec fn opt_string_bytes(s: Option<String>) -> Option<Seq<u8>> {
    match s {
        Some(s) => Some(string_bytes(&s)),
        None => None,
    }
}

/// A profile updated field by field: each given field replaces the stored
/// one, each absent field keeps it.
pub open spec fn merge_profile(
    p: ProfileView,
    name: Option<Seq<u8>>,
    bio: Option<Seq<u8>>,
    lamports_per_message: Option<u64>,
) -> ProfileView {
    ProfileView {
        tag: Tag::Profile,
        name: match name {
            Some(n) => n,
            None => p.name,
        },
        bio: match bio {
            Some(b) => b,
            None => p.bio,
        },
        lamports_per_message: match lamports_per_message {
            Some(f) => f,
            None => p.lamports_per_message,
        },
        newest_thread: p.newest_thread,
    }
}

/// What setting a profile gives: the updated profile, or the first check that
/// fails.
pub open spec fn set_profile_outcome(
    program_id: Seq<u8>,
    owner: &Slot,
    profile: &Slot,
    name: Option<String>,
    bio: Option<String>,
    lamports_per_message: Option<u64>,
) -> Result<ProfileView, JabberError> {
    if !(opt_len_within(bio, MAX_BIO_LENGTH as nat) && opt_len_within(
        name,
        MAX_NAME_LENGTH as nat,
    )) {
        Err(JabberError::InvalidArgument)
    } else if !owner.is_signer {
        Err(JabberError::MissingRequiredSignature)
    } else if profile.owner@ != program_id {
        Err(JabberError::WrongProfileOwner)
    } else if !is_derived(profile.key@, derived_address(profile_seeds(owner.key@), program_id)) {
        Err(JabberError::AccountNotDeterministic)
    } else if profile.data@.len() < MAX_PROFILE_LEN {
        Err(JabberError::AccountDataTooSmall)
    } else {
        match decode_profile(profile.data@) {
            Err(e) => Err(e),
            Ok(p) => Ok(
                merge_profile(
                    p,
                    opt_string_bytes(name),
                    opt_string_bytes(bio),
                    lamports_per_message,
                ),
            ),
        }
    }
}

/// Sets the profile of the signing `owner` in its profile slot: each given
/// field replaces the stored one, each absent field is kept. A slot that holds
/// no profile yet reads as an empty one.
pub fn set_user_profile(
    program_id: &[u8; 32],
    owner: &Slot,
    profile: &mut Slot,
    name: Option<String>,
    bio: Option<String>,
    lamports_per_message: Option<u64>,
) -> (r: Result<(), JabberError>)
    ensures
        same_but_data(old(profile), final(profile)),
        match set_profile_outcome(
            program_id@,
            owner,
            old(profile),
            name,
            bio,
            lamports_per_message,
        ) {
            Ok(p) => r is Ok && final(profile).data@ == overwrite(
                old(profile).data@,
                profile_bytes(p),
            ),
            Err(e) => r == Err::<(), JabberError>(e) && final(profile).data@ == old(profile).data@,
        },
{
    check_profile_params(&name, &bio)?;
    check_signer(owner)?;
    check_account_owner(profile, program_id, JabberError::WrongProfileOwner)?;
    let derived = Profile::find_from_user_key(&owner.key, program_id);
    if !derived_matches(&profile.key, &derived) {
        return Err(JabberError::AccountNotDeterministic);
    }
    if profile.data.len() < MAX_PROFILE_LEN {
        return Err(JabberError::AccountDataTooSmall);
    }
    let mut stored = Profile::from_account_info(profile)?;
    let ghost old_view = stored@;
    stored.tag = Tag::Profile;
    if let Some(n) = name {
        stored.name = n;
    }
    if let Some(b) = bio {
        stored.bio = b;
    }
    if let Some(f) = lamports_per_message {
        stored.lamports_per_message = f;
    }
    assert(stored@ == merge_profile(
        old_view,
        opt_string_bytes(name),
        opt_string_bytes(bio),
        lamports_per_message,
    ));
    stored.save(&mut profile.data);
    Ok(())
}

/// The system program's address: 32 zero bytes.
pub open spec fn system_program_id() -> Seq<u8> {
    Seq::new(32, |i: int| 0u8)
}

/// A freshly allocated slot of `n` bytes, all zero.
pub open spec fn zeros(n: nat) -> Seq<u8> {
    Seq::new(n, |i: int| 0u8)
}

/// The record of a new thread between two users.
pub open spec fn new_thread_view(user_1: Seq<u8>, user_2: Seq<u8>) -> ThreadView {
    ThreadView {
        tag: Tag::Thread,
        msg_count: 0,
        backward_link_1: None,
        backward_link_2: None,
        user_1,
        user_2,
    }
}

/// What creating a thread gives: the thread slot's new bytes and the bump of
/// its address, or the first check that fails. An empty thread slot is one the
/// caller allocates, at the size of a thread slot, with these bytes; a
/// pre-allocated one must be owned by the program, thread-sized and funded.
pub open spec fn create_thread_outcome(
    program_id: Seq<u8>,
    system_program: Seq<u8>,
    fee_payer: &Slot,
    thread: &Slot,
    user_1: Seq<u8>,
    user_2: Seq<u8>,
) -> Result<(Seq<u8>, u8), JabberError> {
    if system_program != system_program_id() {
        Err(JabberError::WrongSystemProgramAccount)
    } else if !fee_payer.is_signer {
        Err(JabberError::MissingRequiredSignature)
    } else if user_1 == user_2 {
        Err(JabberError::InvalidArgument)
    } else {
        match derived_address(thread_seeds(user_1, user_2), program_id) {
            None => Err(JabberError::AccountNotDeterministic),
            Some((k, bump)) => if k != thread.key@ {
                Err(JabberError::AccountNotDeterministic)
            } else if thread.data@.len() == 0 {
                Ok(
                    (
                        overwrite(
                            zeros(MAX_THREAD_LEN as nat),
                            thread_bytes(new_thread_view(user_1, user_2)),
                        ),
                        bump,
                    ),
                )
            } else if thread.data@[0] != 0 {
                Err(JabberError::ChatThreadExists)
            } else if thread.owner@ != program_id {
                Err(JabberError::WrongThreadAccountOwner)
            } else if thread.data@.len() != MAX_THREAD_LEN {
                Err(JabberError::DataTypeMismatch)
            } else if !rent_exempt(thread) {
                Err(JabberError::AccountNotRentExempt)
            } else {
                Ok((overwrite(thread.data@, thread_bytes(new_thread_view(user_1, user_2))), bump))
            },
        }
    }
}

fn is_zero_key(key: &[u8; 32]) -> (r: bool)
    ensures
        r == (key@ == system_program_id()),
{
    let mut i: usize = 0;
    while i < 32
        invariant
            i <= 32,
            key@.len() == 32,
            forall|j: int| 0 <= j < i ==> key@[j] == 0,
        decreases 32 - i,
    {
        if key[i] != 0 {
            return false;
        }
        i = i + 1;
    }
    assert(key@ =~= system_program_id());
    true
}

/// A vector of `n` zero bytes, as a freshly allocated slot holds.
fn zeroed(n: usize) -> (r: Vec<u8>)
    ensures
        r@ == zeros(n as nat),
{
    let mut data: Vec<u8> = Vec::new();
    let mut i: usize = 0;
    while i < n
        invariant
            i <= n,
            data@ == zeros(i as nat),
        decreases n - i,
    {
        data.push(0u8);
        i = i + 1;
        assert(data@ =~= zeros(i as nat));
    }
    data
}

/// Creates the one thread between `user_1` and `user_2` in its slot, paid by
/// the signing fee payer, and returns the bump of the thread's address. Fails
/// where that thread already exists.
pub fn create_thread(
    program_id: &[u8; 32],
    system_program: &[u8; 32],
    fee_payer: &Slot,
    thread: &mut Slot,
    user_1: [u8; 32],
    user_2: [u8; 32],
) -> (r: Result<u8, JabberError>)
    ensures
        same_but_data(old(thread), final(thread)),
        match create_thread_outcome(
            program_id@,
            system_program@,
            fee_payer,
            old(thread),
            user_1@,
            user_2@,
        ) {
            Ok((data, bump)) => r == Ok::<u8, JabberError>(bump) && final(thread).data@ == data,
            Err(e) => r == Err::<u8, JabberError>(e) && final(thread).data@ == old(thread).data@,
        },
{
    if !is_zero_key(system_program) {
        return Err(JabberError::WrongSystemProgramAccount);
    }
    check_signer(fee_payer)?;
    if keys_equal(&user_1, &user_2) {
        return Err(JabberError::InvalidArgument);
    }
    let derived = Thread::find_from_users_keys(&user_1, &user_2, program_id);
    let bump = match derived {
        Some((k, b)) => {
            if !keys_equal(&k, &thread.key) {
                return Err(JabberError::AccountNotDeterministic);
            }
            b
        },
        None => return Err(JabberError::AccountNotDeterministic),
    };
    let record = Thread::new(user_1, user_2);
    if thread.data.len() == 0 {
        let mut data = zeroed(MAX_THREAD_LEN);
        record.save(&mut data);
        thread.data = data;
        return Ok(bump);
    }
    if thread.data[0] != 0 {
        return Err(JabberError::ChatThreadExists);
    }
    check_account_owner(thread, program_id, JabberError::WrongThreadAccountOwner)?;
    if thread.data.len() != MAX_THREAD_LEN {
        return Err(JabberError::DataTypeMismatch);
    }
    check_rent_exempt(thread)?;
    record.save(&mut thread.data);
    Ok(bump)
}

/// The slots that sending a message reads and writes.
#[derive(Clone, Debug)]
pub struct SendAccounts {
    pub sender: Slot,
    pub recipient: Slot,
    pub thread: Slot,
    pub sender_profile: Slot,
    pub recipient_profile: Slot,
    pub message: Slot,
    pub directory: Slot,
}

/// The slot holds a record: its type byte is set.
pub open spec fn has_profile(s: &Slot) -> bool {
    s.data@.len() > 0 && s.data@[0] != 0
}

/// The thread of a message, once the sender, the recipient and the thread
/// slot are checked; or the first check that fails.
pub open spec fn thread_check(program_id: Seq<u8>, a: &SendAccounts, payload_len: nat) -> Result<
    ThreadView,
    JabberError,
> {
    if payload_len > MAX_MSG_LEN {
        Err(JabberError::InvalidArgument)
    } else if !a.sender.is_signer {
        Err(JabberError::MissingRequiredSignature)
    } else if a.sender.key@ == a.recipient.key@ {
        Err(JabberError::InvalidArgument)
    } else if a.thread.owner@ != program_id {
        Err(JabberError::WrongThreadAccountOwner)
    } else if !rent_exempt(&a.thread) {
        Err(JabberError::AccountNotRentExempt)
    } else if !is_derived(
        a.thread.key@,
        derived_address(thread_seeds(a.sender.key@, a.recipient.key@), program_id),
    ) {
        Err(JabberError::AccountNotDeterministic)
    } else {
        match decode_thread(a.thread.data@) {
            Err(e) => Err(e),
            Ok(t) => if t.msg_count == u32::MAX {
                Err(JabberError::InvalidArgument)
            } else {
                Ok(t)
            },
        }
    }
}

/// The bump of the address of message `index`, once the message slot is
/// checked to be that address and to hold no message; or the first check
/// that fails. An empty message slot is one the caller allocates; a
/// pre-allocated one is exactly the size of a message slot.
pub open spec fn message_slot_check(program_id: Seq<u8>, a: &SendAccounts, index: u32) -> Result<
    u8,
    JabberError,
> {
    match derived_address(message_seeds(index, a.sender.key@, a.recipient.key@), program_id) {
        None => Err(JabberError::AccountNotDeterministic),
        Some((k, bump)) => if k != a.message.key@ {
            Err(JabberError::AccountNotDeterministic)
        } else if a.message.data@.len() == 0 {
            Ok(bump)
        } else if a.message.data@[0] != 0 {
            Err(JabberError::MessageExists)
        } else if a.message.owner@ != program_id {
            Err(JabberError::WrongMessageAccount)
        } else if a.message.data@.len() < MAX_MESSAGE_LEN {
            Err(JabberError::AccountDataTooSmall)
        } else if a.message.data@.len() > MAX_MESSAGE_LEN {
            Err(JabberError::DataTypeMismatch)
        } else if !rent_exempt(&a.message) {
            Err(JabberError::AccountNotRentExempt)
        } else {
            Ok(bump)
        },
    }
}

/// The sender's profile, which must exist; or the first check that fails.
pub open spec fn sender_profile_check(program_id: Seq<u8>, a: &SendAccounts) -> Result<
    ProfileView,
    JabberError,
> {
    if !is_derived(
        a.sender_profile.key@,
        derived_address(profile_seeds(a.sender.key@), program_id),
    ) {
        Err(JabberError::AccountNotDeterministic)
    } else if a.sender_profile.owner@ != program_id {
        Err(JabberError::WrongProfileOwner)
    } else if !rent_exempt(&a.sender_profile) {
        Err(JabberError::AccountNotRentExempt)
    } else {
        match decode_profile(a.sender_profile.data@) {
            Err(e) => Err(e),
            Ok(p) => if p.tag == Tag::Uninitialized {
                Err(JabberError::UninitializedAccount)
            } else {
                Ok(p)
            },
        }
    }
}

/// The recipient's profile, where the recipient has one; or the first check
/// that fails.
pub open spec fn recipient_profile_check(program_id: Seq<u8>, a: &SendAccounts) -> Result<
    ProfileView,
    JabberError,
> {
    if a.recipient_profile.owner@ != program_id {
        Err(JabberError::WrongProfileOwner)
    } else if !rent_exempt(&a.recipient_profile) {
        Err(JabberError::AccountNotRentExempt)
    } else {
        decode_profile(a.recipient_profile.data@)
    }
}

/// The root directory, where the recipient has no profile; or the first check
/// that fails.
pub open spec fn directory_check(program_id: Seq<u8>, a: &SendAccounts) -> Result<
    RootDirectoryView,
    JabberError,
> {
    if !is_derived(a.directory.key@, derived_address(directory_seeds(program_id), program_id)) {
        Err(JabberError::AccountNotDeterministic)
    } else if a.directory.owner@ != program_id {
        Err(JabberError::WrongDirectoryAccountOwner)
    } else if !rent_exempt(&a.directory) {
        Err(JabberError::AccountNotRentExempt)
    } else {
        decode_directory(a.directory.data@)
    }
}

/// A profile whose newest thread is now `thread`.
pub open spec fn with_newest_thread(p: ProfileView, thread: Seq<u8>) -> ProfileView {
    ProfileView {
        tag: p.tag,
        name: p.name,
        bio: p.bio,
        lamports_per_message: p.lamports_per_message,
        newest_thread: Some(thread),
    }
}

/// A thread that counts one more message.
pub open spec fn with_next_count(t: ThreadView) -> ThreadView {
    ThreadView {
        tag: Tag::Thread,
        msg_count: (t.msg_count + 1) as u32,
        backward_link_1: t.backward_link_1,
        backward_link_2: t.backward_link_2,
        user_1: t.user_1,
        user_2: t.user_2,
    }
}

/// The bytes of a message slot once the message is written: the record over
/// a zero-filled message slot where the caller allocates it, over the start
/// of a pre-allocated one otherwise.
pub open spec fn written_message(old: Seq<u8>, m: MessageView) -> Seq<u8> {
    if old.len() == 0 {
        overwrite(zeros(MAX_MESSAGE_LEN as nat), message_bytes(m))
    } else {
        overwrite(old, message_bytes(m))
    }
}

/// What sending a message changes: its index in the thread, the bump of its
/// address, and the new bytes of each slot.
pub struct SendEffects {
    pub index: u32,
    pub bump: u8,
    pub thread: Seq<u8>,
    pub sender_profile: Seq<u8>,
    pub recipient_profile: Seq<u8>,
    pub message: Seq<u8>,
    pub directory: Seq<u8>,
}

/// What sending a message gives. The message takes the index that the
/// thread's counter holds, and the counter goes up by one. With the thread's
/// first message the thread records its two users, and each user's newest
/// thread becomes this one, the former newest kept as the thread's backward
/// link: for the sender in the sender's profile, for the recipient in the
/// recipient's profile or, where the recipient has none, in the root
/// directory.
#[verifier::opaque]
pub open spec fn send_outcome(
    program_id: Seq<u8>,
    a: &SendAccounts,
    kind: MessageType,
    payload: Seq<u8>,
    timestamp: i64,
) -> Result<SendEffects, JabberError> {
    let m = MessageView { tag: Tag::Message, kind, timestamp, msg: payload };
    let thread_key = a.thread.key@;
    match thread_check(program_id, a, payload.len()) {
        Err(e) => Err(e),
        Ok(t) => match message_slot_check(program_id, a, t.msg_count) {
            Err(e) => Err(e),
            Ok(bump) => if t.msg_count != 0 {
                Ok(
                    SendEffects {
                        index: t.msg_count,
                        bump,
                        thread: overwrite(a.thread.data@, thread_bytes(with_next_count(t))),
                        sender_profile: a.sender_profile.data@,
                        recipient_profile: a.recipient_profile.data@,
                        message: written_message(a.message.data@, m),
                        directory: a.directory.data@,
                    },
                )
            } else {
                match sender_profile_check(program_id, a) {
                    Err(e) => Err(e),
                    Ok(sp) => if !is_derived(
                        a.recipient_profile.key@,
                        derived_address(profile_seeds(a.recipient.key@), program_id),
                    ) {
                        Err(JabberError::AccountNotDeterministic)
                    } else if has_profile(&a.recipient_profile) {
                        match recipient_profile_check(program_id, a) {
                            Err(e) => Err(e),
                            Ok(rp) => Ok(
                                SendEffects {
                                    index: 0,
                                    bump,
                                    thread: overwrite(
                                        a.thread.data@,
                                        thread_bytes(
                                            ThreadView {
                                                tag: Tag::Thread,
                                                msg_count: 1,
                                                backward_link_1: sp.newest_thread,
                                                backward_link_2: rp.newest_thread,
                                                user_1: a.sender.key@,
                                                user_2: a.recipient.key@,
                                            },
                                        ),
                                    ),
                                    sender_profile: overwrite(
                                        a.sender_profile.data@,
                                        profile_bytes(with_newest_thread(sp, thread_key)),
                                    ),
                                    recipient_profile: overwrite(
                                        a.recipient_profile.data@,
                                        profile_bytes(with_newest_thread(rp, thread_key)),
                                    ),
                                    message: written_message(a.message.data@, m),
                                    directory: a.directory.data@,
                                },
                            ),
                        }
                    } else {
                        match directory_check(program_id, a) {
                            Err(e) => Err(e),
                            Ok(d) => Ok(
                                SendEffects {
                                    index: 0,
                                    bump,
                                    thread: overwrite(
                                        a.thread.data@,
                                        thread_bytes(
                                            ThreadView {
                                                tag: Tag::Thread,
                                                msg_count: 1,
                                                backward_link_1: sp.newest_thread,
                                                backward_link_2: d.unregistered_newest_thread,
                                                user_1: a.sender.key@,
                                                user_2: a.recipient.key@,
                                            },
                                        ),
                                    ),
                                    sender_profile: overwrite(
                                        a.sender_profile.data@,
                                        profile_bytes(with_newest_thread(sp, thread_key)),
                                    ),
                                    recipient_profile: a.recipient_profile.data@,
                                    message: written_message(a.message.data@, m),
                                    directory: overwrite(
                                        a.directory.data@,
                                        directory_bytes(
                                            RootDirectoryView {
                                                tag: Tag::Jabber,
                                                unregistered_newest_thread: Some(thread_key),
                                            },
                                        ),
                                    ),
                                },
                            ),
                        }
                    },
                }
            },
        },
    }
}

fn check_thread(program_id: &[u8; 32], a: &SendAccounts, payload_len: usize) -> (r: Result<
    Thread,
    JabberError,
>)
    ensures
        match r {
            Ok(t) => thread_check(program_id@, a, payload_len as nat) == Ok::<
                ThreadView,
                JabberError,
            >(t@),
            Err(e) => thread_check(program_id@, a, payload_len as nat) == Err::<
                ThreadView,
                JabberError,
            >(e),
        },
{
    if payload_len > MAX_MSG_LEN {
        return Err(JabberError::InvalidArgument);
    }
    check_signer(&a.sender)?;
    if keys_equal(&a.sender.key, &a.recipient.key) {
        return Err(JabberError::InvalidArgument);
    }
    check_account_owner(&a.thread, program_id, JabberError::WrongThreadAccountOwner)?;
    check_rent_exempt(&a.thread)?;
    let derived = Thread::find_from_users_keys(&a.sender.key, &a.recipient.key, program_id);
    if !derived_matches(&a.thread.key, &derived) {
        return Err(JabberError::AccountNotDeterministic);
    }
    let t = Thread::from_account_info(&a.thread)?;
    if t.msg_count == u32::MAX {
        return Err(JabberError::InvalidArgument);
    }
    Ok(t)
}

fn check_message_slot(program_id: &[u8; 32], a: &SendAccounts, index: u32) -> (r: Result<
    u8,
    JabberError,
>)
    ensures
        r == message_slot_check(program_id@, a, index),
{
    let derived = Message::find_from_keys(index, &a.sender.key, &a.recipient.key, program_id);
    let bump = match derived {
        Some((k, b)) => {
            if !keys_equal(&k, &a.message.key) {
                return Err(JabberError::AccountNotDeterministic);
            }
            b
        },
        None => return Err(JabberError::AccountNotDeterministic),
    };
    if a.message.data.len() == 0 {
        return Ok(bump);
    }
    if a.message.data[0] != 0 {
        return Err(JabberError::MessageExists);
    }
    check_account_owner(&a.message, program_id, JabberError::WrongMessageAccount)?;
    if a.message.data.len() < MAX_MESSAGE_LEN {
        return Err(JabberError::AccountDataTooSmall);
    }
    if a.message.data.len() > MAX_MESSAGE_LEN {
        return Err(JabberError::DataTypeMismatch);
    }
    check_rent_exempt(&a.message)?;
    Ok(bump)
}

fn check_sender_profile(program_id: &[u8; 32], a: &SendAccounts) -> (r: Result<
    Profile,
    JabberError,
>)
    ensures
        match r {
            Ok(p) => sender_profile_check(program_id@, a) == Ok::<ProfileView, JabberError>(p@),
            Err(e) => sender_profile_check(program_id@, a) == Err::<ProfileView, JabberError>(e),
        },
{
    let derived = Profile::find_from_user_key(&a.sender.key, program_id);
    if !derived_matches(&a.sender_profile.key, &derived) {
        return Err(JabberError::AccountNotDeterministic);
    }
    check_account_owner(&a.sender_profile, program_id, JabberError::WrongProfileOwner)?;
    check_rent_exempt(&a.sender_profile)?;
    let p = Profile::from_account_info(&a.sender_profile)?;
    if p.tag == Tag::Uninitialized {
        return Err(JabberError::UninitializedAccount);
    }
    Ok(p)
}

fn check_recipient_profile(program_id: &[u8; 32], a: &SendAccounts) -> (r: Result<
    Profile,
    JabberError,
>)
    ensures
        match r {
            Ok(p) => recipient_profile_check(program_id@, a) == Ok::<ProfileView, JabberError>(p@),
            Err(e) => recipient_profile_check(program_id@, a) == Err::<ProfileView, JabberError>(e),
        },
{
    check_account_owner(&a.recipient_profile, program_id, JabberError::WrongProfileOwner)?;
    check_rent_exempt(&a.recipient_profile)?;
    Profile::from_account_info(&a.recipient_profile)
}

fn check_directory(program_id: &[u8; 32], a: &SendAccounts) -> (r: Result<
    RootDirectory,
    JabberError,
>)
    ensures
        match r {
            Ok(d) => directory_check(program_id@, a) == Ok::<RootDirectoryView, JabberError>(d@),
            Err(e) => directory_check(program_id@, a) == Err::<RootDirectoryView, JabberError>(e),
        },
{
    let derived = RootDirectory::find_from_program_id(program_id);
    if !derived_matches(&a.directory.key, &derived) {
        return Err(JabberError::AccountNotDeterministic);
    }
    check_account_owner(&a.directory, program_id, JabberError::WrongDirectoryAccountOwner)?;
    check_rent_exempt(&a.directory)?;
    RootDirectory::from_bytes(&a.directory.data)
}

/// The bytes of each slot are those of `a`.
pub open spec fn same_data(a: &SendAccounts, b: &SendAccounts) -> bool {
    &&& a.sender.data@ == b.sender.data@
    &&& a.recipient.data@ == b.recipient.data@
    &&& a.thread.data@ == b.thread.data@
    &&& a.sender_profile.data@ == b.sender_profile.data@
    &&& a.recipient_profile.data@ == b.recipient_profile.data@
    &&& a.message.data@ == b.message.data@
    &&& a.directory.data@ == b.directory.data@
}

/// Each slot of `b` is that of `a` with at most its bytes changed.
pub open spec fn all_same_but_data(a: &SendAccounts, b: &SendAccounts) -> bool {
    &&& same_but_data(&a.sender, &b.sender)
    &&& same_but_data(&a.recipient, &b.recipient)
    &&& same_but_data(&a.thread, &b.thread)
    &&& same_but_data(&a.sender_profile, &b.sender_profile)
    &&& same_but_data(&a.recipient_profile, &b.recipient_profile)
    &&& same_but_data(&a.message, &b.message)
    &&& same_but_data(&a.directory, &b.directory)
}

/// Appends message `kind`, `message`, `timestamp` to the thread between the
/// signing sender and the recipient, and returns the message's index in the
/// thread with the bump of its address. The message slot must be the derived
/// address of that index and hold no message; an empty message slot is filled
/// as a zeroed message slot holding the record, for the caller to allocate at
/// that size.
pub fn send_message(
    program_id: &[u8; 32],
    accounts: &mut SendAccounts,
    kind: MessageType,
    message: Vec<u8>,
    timestamp: i64,
) -> (r: Result<(u32, u8), JabberError>)
    ensures
        all_same_but_data(old(accounts), final(accounts)),
        final(accounts).sender.data@ == old(accounts).sender.data@,
        final(accounts).recipient.data@ == old(accounts).recipient.data@,
        match send_outcome(program_id@, old(accounts), kind, message@, timestamp) {
            Ok(e) => {
                &&& r == Ok::<(u32, u8), JabberError>((e.index, e.bump))
                &&& final(accounts).thread.data@ == e.thread
                &&& final(accounts).sender_profile.data@ == e.sender_profile
                &&& final(accounts).recipient_profile.data@ == e.recipient_profile
                &&& final(accounts).message.data@ == e.message
                &&& final(accounts).directory.data@ == e.directory
            },
            Err(e) => r == Err::<(u32, u8), JabberError>(e) && same_data(old(accounts), final(accounts)),
        },
{
    reveal(send_outcome);
    let mut thread = check_thread(program_id, accounts, message.len())?;
    let record = Message::new(kind, timestamp, message);
    let index = thread.msg_count;
    let bump = check_message_slot(program_id, accounts, index)?;
    let thread_key = accounts.thread.key;
    if index == 0 {
        let mut sender_profile = check_sender_profile(program_id, accounts)?;
        let derived = Profile::find_from_user_key(&accounts.recipient.key, program_id);
        if !derived_matches(&accounts.recipient_profile.key, &derived) {
            return Err(JabberError::AccountNotDeterministic);
        }
        let registered = accounts.recipient_profile.data.len() > 0
            && accounts.recipient_profile.data[0] != 0;
        thread.tag = Tag::Thread;
        thread.user_1 = accounts.sender.key;
        thread.user_2 = accounts.recipient.key;
        thread.backward_link_1 = sender_profile.newest_thread;
        if registered {
            let mut recipient_profile = check_recipient_profile(program_id, accounts)?;
            thread.backward_link_2 = recipient_profile.newest_thread;
            recipient_profile.newest_thread = Some(thread_key);
            recipient_profile.save(&mut accounts.recipient_profile.data);
        } else {
            let mut directory = check_directory(program_id, accounts)?;
            thread.backward_link_2 = directory.unregistered_newest_thread;
            directory.tag = Tag::Jabber;
            directory.unregistered_newest_thread = Some(thread_key);
            directory.save(&mut accounts.directory.data);
        }
        sender_profile.newest_thread = Some(thread_key);
        sender_profile.save(&mut accounts.sender_profile.data);
    }
    thread.tag = Tag::Thread;
    thread.increment_msg_count();
    thread.save(&mut accounts.thread.data);
    if accounts.message.data.len() == 0 {
        let mut data = zeroed(MAX_MESSAGE_LEN);
        record.save(&mut data);
        accounts.message.data = data;
    } else {
        record.save(&mut accounts.message.data);
    }
    Ok((index, bump))
}

// ---------------------------------------------------------------------------
// Dispatch

/// What a successful operation hands back to its caller: the bump of a thread
/// or message address, which the caller needs to allocate an empty slot there,
/// and a message's index.
#[derive(Clone, Copy, Debug, PartialEq, Eq, Structural)]
pub enum Processed {
    ProfileSet,
    ThreadCreated { bump: u8 },
    MessageSent { index: u32, bump: u8 },
}

/// Each slot of `new` is that of `old` with at most its bytes changed.
pub open spec fn slots_same_but_data(old: Seq<Slot>, new: Seq<Slot>) -> bool {
    &&& new.len() == old.len()
    &&& forall|i: int| 0 <= i < old.len() ==> same_but_data(&old[i], #[trigger] &new[i])
}

/// The bytes of slot `i` are unchanged.
pub open spec fn data_kept(old: Seq<Slot>, new: Seq<Slot>, i: int) -> bool {
    new[i].data@ == old[i].data@
}

/// The slots of a message, in the order the caller gives them.
pub open spec fn send_accounts_of(s: Seq<Slot>) -> SendAccounts {
    SendAccounts {
        sender: s[0],
        recipient: s[1],
        thread: s[2],
        recipient_profile: s[3],
        message: s[4],
        directory: s[5],
        sender_profile: s[6],
    }
}

/// Slot `i` keeps its bytes unless `changed` holds.
pub open spec fn kept_unless(old: Seq<Slot>, new: Seq<Slot>, changed: spec_fn(int) -> bool) -> bool {
    forall|i: int| 0 <= i < old.len() && !changed(i) ==> #[trigger] data_kept(old, new, i)
}

/// What setting a profile through the slot list gives.
pub open spec fn set_profile_dispatched(
    program_id: Seq<u8>,
    old: Seq<Slot>,
    new: Seq<Slot>,
    name: Option<String>,
    bio: Option<String>,
    lamports_per_message: Option<u64>,
    r: Result<Processed, JabberError>,
) -> bool {
    if old.len() < 2 {
        r == Err::<Processed, JabberError>(JabberError::NotEnoughAccountKeys) && kept_unless(
            old,
            new,
            |i: int| false,
        )
    } else {
        match set_profile_outcome(program_id, &old[0], &old[1], name, bio, lamports_per_message) {
            Ok(p) => {
                &&& r == Ok::<Processed, JabberError>(Processed::ProfileSet)
                &&& new[1].data@ == overwrite(old[1].data@, profile_bytes(p))
                &&& kept_unless(old, new, |i: int| i == 1)
            },
            Err(e) => r == Err::<Processed, JabberError>(e) && kept_unless(old, new, |i: int| false),
        }
    }
}

/// What creating a thread through the slot list gives.
pub open spec fn create_thread_dispatched(
    program_id: Seq<u8>,
    old: Seq<Slot>,
    new: Seq<Slot>,
    user_1: Seq<u8>,
    user_2: Seq<u8>,
    r: Result<Processed, JabberError>,
) -> bool {
    if old.len() < 3 {
        r == Err::<Processed, JabberError>(JabberError::NotEnoughAccountKeys) && kept_unless(
            old,
            new,
            |i: int| false,
        )
    } else {
        match create_thread_outcome(program_id, old[0].key@, &old[2], &old[1], user_1, user_2) {
            Ok((data, bump)) => {
                &&& r == Ok::<Processed, JabberError>(Processed::ThreadCreated { bump })
                &&& new[1].data@ == data
                &&& kept_unless(old, new, |i: int| i == 1)
            },
            Err(e) => r == Err::<Processed, JabberError>(e) && kept_unless(old, new, |i: int| false),
        }
    }
}

/// What sending a message through the slot list gives.
pub open spec fn send_message_dispatched(
    program_id: Seq<u8>,
    old: Seq<Slot>,
    new: Seq<Slot>,
    kind: MessageType,
    message: Seq<u8>,
    timestamp: i64,
    r: Result<Processed, JabberError>,
) -> bool {
    if old.len() < 7 {
        r == Err::<Processed, JabberError>(JabberError::NotEnoughAccountKeys) && kept_unless(
            old,
            new,
            |i: int| false,
        )
    } else {
        match send_outcome(program_id, &send_accounts_of(old), kind, message, timestamp) {
            Ok(e) => {
                &&& r == Ok::<Processed, JabberError>(
                    Processed::MessageSent { index: e.index, bump: e.bump },
                )
                &&& new[2].data@ == e.thread
                &&& new[3].data@ == e.recipient_profile
                &&& new[4].data@ == e.message
                &&& new[5].data@ == e.directory
                &&& new[6].data@ == e.sender_profile
                &&& kept_unless(old, new, |i: int| 2 <= i < 7)
            },
            Err(e) => r == Err::<Processed, JabberError>(e) && kept_unless(old, new, |i: int| false),
        }
    }
}

fn dispatch_set_profile(
    program_id: &[u8; 32],
    accounts: &mut Vec<Slot>,
    name: Option<String>,
    bio: Option<String>,
    lamports_per_message: Option<u64>,
) -> (r: Result<Processed, JabberError>)
    ensures
        slots_same_but_data(old(accounts)@, final(accounts)@),
        set_profile_dispatched(
            program_id@,
            old(accounts)@,
            final(accounts)@,
            name,
            bio,
            lamports_per_message,
            r,
        ),
{
    if accounts.len() < 2 {
        return Err(JabberError::NotEnoughAccountKeys);
    }
    let ghost old_slots = accounts@;
    let mut profile = accounts.remove(1);
    let r = set_user_profile(program_id, &accounts[0], &mut profile, name, bio, lamports_per_message);
    accounts.insert(1, profile);
    assert(accounts@ =~= old_slots.update(1, profile));
    match r {
        Ok(()) => Ok(Processed::ProfileSet),
        Err(e) => Err(e),
    }
}

fn dispatch_create_thread(
    program_id: &[u8; 32],
    accounts: &mut Vec<Slot>,
    user_1: [u8; 32],
    user_2: [u8; 32],
) -> (r: Result<Processed, JabberError>)
    ensures
        slots_same_but_data(old(accounts)@, final(accounts)@),
        create_thread_dispatched(program_id@, old(accounts)@, final(accounts)@, user_1@, user_2@, r),
{
    if accounts.len() < 3 {
        return Err(JabberError::NotEnoughAccountKeys);
    }
    let ghost old_slots = accounts@;
    let mut thread = accounts.remove(1);
    let r = create_thread(program_id, &accounts[0].key, &accounts[1], &mut thread, user_1, user_2);
    accounts.insert(1, thread);
    assert(accounts@ =~= old_slots.update(1, thread));
    match r {
        Ok(bump) => Ok(Processed::ThreadCreated { bump }),
        Err(e) => Err(e),
    }
}

fn dispatch_send_message(
    program_id: &[u8; 32],
    accounts: &mut Vec<Slot>,
    kind: MessageType,
    message: Vec<u8>,
    timestamp: i64,
) -> (r: Result<Processed, JabberError>)
    ensures
        slots_same_but_data(old(accounts)@, final(accounts)@),
        send_message_dispatched(
            program_id@,
            old(accounts)@,
            final(accounts)@,
            kind,
            message@,
            timestamp,
            r,
        ),
{
    if accounts.len() < 7 {
        return Err(JabberError::NotEnoughAccountKeys);
    }
    let ghost old_slots = accounts@;
    let sender = accounts.remove(0);
    let recipient = accounts.remove(0);
    let thread = accounts.remove(0);
    let recipient_profile = accounts.remove(0);
    let message_slot = accounts.remove(0);
    let directory = accounts.remove(0);
    let sender_profile = accounts.remove(0);
    let ghost rest = accounts@;
    assert(rest =~= old_slots.subrange(7, old_slots.len() as int));
    let mut a = SendAccounts {
        sender,
        recipient,
        thread,
        sender_profile,
        recipient_profile,
        message: message_slot,
        directory,
    };
    assert(a == send_accounts_of(old_slots));
    let r = send_message(program_id, &mut a, kind, message, timestamp);
    let SendAccounts {
        sender,
        recipient,
        thread,
        sender_profile,
        recipient_profile,
        message: message_slot,
        directory,
    } = a;
    accounts.insert(0, sender_profile);
    accounts.insert(0, directory);
    accounts.insert(0, message_slot);
    accounts.insert(0, recipient_profile);
    accounts.insert(0, thread);
    accounts.insert(0, recipient);
    accounts.insert(0, sender);
    assert(accounts@ =~= seq![
        sender,
        recipient,
        thread,
        recipient_profile,
        message_slot,
        directory,
        sender_profile,
    ] + rest);
    match r {
        Ok((index, bump)) => Ok(Processed::MessageSent { index, bump }),
        Err(e) => Err(e),
    }
}

/// The entry point of the protocol's logic.
pub struct Processor {}

impl Processor {
    /// Runs one operation on the slots the caller gives, in the order that
    /// `JabberInstruction` lists; `timestamp` is the time of a message. Fails
    /// with `NotEnoughAccountKeys` where fewer slots are given.
    pub fn process_instruction(
        program_id: &[u8; 32],
        accounts: &mut Vec<Slot>,
        instruction: JabberInstruction,
        timestamp: i64,
    ) -> (r: Result<Processed, JabberError>)
        ensures
            slots_same_but_data(old(accounts)@, final(accounts)@),
            match instruction {
                JabberInstruction::SetUserProfile { name, bio, lamports_per_message } =>
                    set_profile_dispatched(
                    program_id@,
                    old(accounts)@,
                    final(accounts)@,
                    name,
                    bio,
                    lamports_per_message,
                    r,
                ),
                JabberInstruction::CreateThread { user_1, user_2 } => create_thread_dispatched(
                    program_id@,
                    old(accounts)@,
                    final(accounts)@,
                    user_1@,
                    user_2@,
                    r,
                ),
                JabberInstruction::SendMessage { kind, message } => send_message_dispatched(
                    program_id@,
                    old(accounts)@,
                    final(accounts)@,
                    kind,
                    message@,
                    timestamp,
                    r,
                ),
            },
    {
        match instruction {
            JabberInstruction::SetUserProfile { name, bio, lamports_per_message } => {
                dispatch_set_profile(program_id, accounts, name, bio, lamports_per_message)
            },
            JabberInstruction::CreateThread { user_1, user_2 } => {
                dispatch_create_thread(program_id, accounts, user_1, user_2)
            },
            JabberInstruction::SendMessage { kind, message } => {
                dispatch_send_message(program_id, accounts, kind, message, timestamp)
            },
        }
    }
}

// ---------------------------------------------------------------------------
// Properties of the operations

/// Both users reach the one thread: creating it with its two users in either
/// order checks the same slot, fails in the same way or succeeds with the same
/// bump.
pub proof fn lemma_create_thread_either_order(
    program_id: Seq<u8>,
    system_program: Seq<u8>,
    fee_payer: &Slot,
    thread: &Slot,
    user_1: Seq<u8>,
    user_2: Seq<u8>,
)
    requires
        user_1.len() == 32,
        user_2.len() == 32,
    ensures
        create_thread_outcome(program_id, system_program, fee_payer, thread, user_1, user_2) is Ok
            <==> create_thread_outcome(
            program_id,
            system_program,
            fee_payer,
            thread,
            user_2,
            user_1,
        ) is Ok,
        create_thread_outcome(program_id, system_program, fee_payer, thread, user_1, user_2) matches Ok((_, b))
            ==> create_thread_outcome(program_id, system_program, fee_payer, thread, user_2, user_1) matches Ok((_, c)) && b == c,
        create_thread_outcome(program_id, system_program, fee_payer, thread, user_1, user_2) matches Err(e)
            ==> create_thread_outcome(program_id, system_program, fee_payer, thread, user_2, user_1) == Err::<(Seq<u8>, u8), JabberError>(e),
{
    crate::address::lemma_ordered_pair_symmetric(user_1, user_2);
}

/// Each message sent counts one more in its thread: the message takes the
/// index that the thread's counter held, and the thread slot then reads back
/// with the counter one higher.
pub proof fn lemma_send_counts_one_more(
    program_id: Seq<u8>,
    a: &SendAccounts,
    kind: MessageType,
    payload: Seq<u8>,
    timestamp: i64,
)
    requires
        send_outcome(program_id, a, kind, payload, timestamp) is Ok,
    ensures
        ({
            let t = decode_thread(a.thread.data@);
            let e = send_outcome(program_id, a, kind, payload, timestamp)->Ok_0;
            &&& t is Ok
            &&& e.index == t->Ok_0.msg_count
            &&& decode_thread(e.thread) is Ok
            &&& decode_thread(e.thread)->Ok_0.msg_count == t->Ok_0.msg_count + 1
        }),
{
    reveal(send_outcome);
    lemma_decoded_thread_wf(a.thread.data@);
    lemma_decoded_profile_wf(a.sender_profile.data@);
    lemma_decoded_profile_wf(a.recipient_profile.data@);
    lemma_decoded_directory_wf(a.directory.data@);
    let t = thread_check(program_id, a, payload.len())->Ok_0;
    if t.msg_count != 0 {
        lemma_thread_round_trip(with_next_count(t), a.thread.data@);
    } else {
        let sp = sender_profile_check(program_id, a)->Ok_0;
        if has_profile(&a.recipient_profile) {
            let rp = recipient_profile_check(program_id, a)->Ok_0;
            lemma_thread_round_trip(
                ThreadView {
                    tag: Tag::Thread,
                    msg_count: 1,
                    backward_link_1: sp.newest_thread,
                    backward_link_2: rp.newest_thread,
                    user_1: a.sender.key@,
                    user_2: a.recipient.key@,
                },
                a.thread.data@,
            );
        } else {
            let d = directory_check(program_id, a)->Ok_0;
            lemma_thread_round_trip(
                ThreadView {
                    tag: Tag::Thread,
                    msg_count: 1,
                    backward_link_1: sp.newest_thread,
                    backward_link_2: d.unregistered_newest_thread,
                    user_1: a.sender.key@,
                    user_2: a.recipient.key@,
                },
                a.thread.data@,
            );
        }
    }
}

/// A message slot that already holds a message is never written again:
/// sending into it fails, and once the sender, recipient and thread pass their
/// checks it fails because the slot is not the address of the thread's next
/// message or because it already holds one.
pub proof fn lemma_message_slot_written_once(
    program_id: Seq<u8>,
    a: &SendAccounts,
    kind: MessageType,
    payload: Seq<u8>,
    timestamp: i64,
)
    requires
        a.message.data@.len() > 0,
        a.message.data@[0] != 0,
    ensures
        send_outcome(program_id, a, kind, payload, timestamp) is Err,
        thread_check(program_id, a, payload.len()) is Ok ==> (send_outcome(
            program_id,
            a,
            kind,
            payload,
            timestamp,
        ) == Err::<SendEffects, JabberError>(JabberError::AccountNotDeterministic) || send_outcome(
            program_id,
            a,
            kind,
            payload,
            timestamp,
        ) == Err::<SendEffects, JabberError>(JabberError::MessageExists)),
{
    reveal(send_outcome);
}

/// The later of two optional updates of one field.
pub open spec fn later<T>(second: Option<T>, first: Option<T>) -> Option<T> {
    match second {
        Some(x) => Some(x),
        None => first,
    }
}

/// Absent fields never clear stored ones: after two successful updates of one
/// profile slot, each field holds the value that the later update gave, else
/// the value that the earlier one gave, else the value stored before both.
pub proof fn lemma_profile_updates_merge(
    program_id: Seq<u8>,
    owner: &Slot,
    slot0: &Slot,
    slot1: &Slot,
    name_1: Option<String>,
    bio_1: Option<String>,
    fee_1: Option<u64>,
    name_2: Option<String>,
    bio_2: Option<String>,
    fee_2: Option<u64>,
)
    requires
        set_profile_outcome(program_id, owner, slot0, name_1, bio_1, fee_1) is Ok,
        same_but_data(slot0, slot1),
        slot1.data@ == overwrite(
            slot0.data@,
            profile_bytes(set_profile_outcome(program_id, owner, slot0, name_1, bio_1, fee_1)->Ok_0),
        ),
        opt_len_within(name_2, MAX_NAME_LENGTH as nat),
        opt_len_within(bio_2, MAX_BIO_LENGTH as nat),
    ensures
        set_profile_outcome(program_id, owner, slot1, name_2, bio_2, fee_2) == Ok::<
            ProfileView,
            JabberError,
        >(
            merge_profile(
                decode_profile(slot0.data@)->Ok_0,
                later(opt_string_bytes(name_2), opt_string_bytes(name_1)),
                later(opt_string_bytes(bio_2), opt_string_bytes(bio_1)),
                later(fee_2, fee_1),
            ),
        ),
{
    let p0 = decode_profile(slot0.data@)->Ok_0;
    let p1 = set_profile_outcome(program_id, owner, slot0, name_1, bio_1, fee_1)->Ok_0;
    lemma_decoded_profile_wf(slot0.data@);
    if let Some(n) = name_1 {
        vstd::utf8::encode_utf8_valid_utf8(n@);
    }
    if let Some(b) = bio_1 {
        vstd::utf8::encode_utf8_valid_utf8(b@);
    }
    lemma_profile_round_trip(p1, slot0.data@);
    assert(merge_profile(p1, opt_string_bytes(name_2), opt_string_bytes(bio_2), fee_2)
        =~= merge_profile(
        p0,
        later(opt_string_bytes(name_2), opt_string_bytes(name_1)),
        later(opt_string_bytes(bio_2), opt_string_bytes(bio_1)),
        later(fee_2, fee_1),
    ));
}

/// A thread slot that is not the derived address of the thread between the
/// sender and the recipient is refused as an address mismatch, once the
/// payload bound, the signature, the two distinct users and the thread slot's
/// owner and deposit are checked; `send_message` then changes no slot.
pub proof fn lemma_wrong_thread_slot_refused(
    program_id: Seq<u8>,
    a: &SendAccounts,
    kind: MessageType,
    payload: Seq<u8>,
    timestamp: i64,
)
    requires
        payload.len() <= MAX_MSG_LEN,
        a.sender.is_signer,
        a.sender.key@ != a.recipient.key@,
        a.thread.owner@ == program_id,
        rent_exempt(&a.thread),
        !is_derived(
            a.thread.key@,
            derived_address(thread_seeds(a.sender.key@, a.recipient.key@), program_id),
        ),
    ensures
        send_outcome(program_id, a, kind, payload, timestamp) == Err::<SendEffects, JabberError>(
            JabberError::AccountNotDeterministic,
        ),
{
    reveal(send_outcome);
}

/// A successful send writes its message so that the message slot reads back
/// as the message sent.
pub proof fn lemma_sent_message_reads_back(
    program_id: Seq<u8>,
    a: &SendAccounts,
    kind: MessageType,
    payload: Seq<u8>,
    timestamp: i64,
)
    requires
        send_outcome(program_id, a, kind, payload, timestamp) is Ok,
    ensures
        decode_message(send_outcome(program_id, a, kind, payload, timestamp)->Ok_0.message)
            == Ok::<MessageView, JabberError>(
            MessageView { tag: Tag::Message, kind, timestamp, msg: payload },
        ),
{
    let m = MessageView { tag: Tag::Message, kind, timestamp, msg: payload };
    assert(payload.len() <= MAX_MSG_LEN && send_outcome(
        program_id,
        a,
        kind,
        payload,
        timestamp,
    )->Ok_0.message == written_message(a.message.data@, m) && (a.message.data@.len() == 0
        || a.message.data@.len() == MAX_MESSAGE_LEN)) by {
        reveal(send_outcome);
    }
    if a.message.data@.len() == 0 {
        lemma_message_round_trip(m, zeros(MAX_MESSAGE_LEN as nat));
    } else {
        lemma_message_round_trip(m, a.message.data@);
    }
}

/// A message slot that a successful send wrote holds a message from then on:
/// its type byte is set, so any later send into it is refused.
pub proof fn lemma_sent_message_slot_consumed(
    program_id: Seq<u8>,
    a: &SendAccounts,
    kind: MessageType,
    payload: Seq<u8>,
    timestamp: i64,
)
    requires
        send_outcome(program_id, a, kind, payload, timestamp) is Ok,
    ensures
        send_outcome(program_id, a, kind, payload, timestamp)->Ok_0.message.len() > 0,
        send_outcome(program_id, a, kind, payload, timestamp)->Ok_0.message[0] == tag_byte(
            Tag::Message,
        ),
{
    let m = MessageView { tag: Tag::Message, kind, timestamp, msg: payload };
    assert(send_outcome(program_id, a, kind, payload, timestamp)->Ok_0.message == written_message(
        a.message.data@,
        m,
    ) && (a.message.data@.len() == 0 || a.message.data@.len() == MAX_MESSAGE_LEN)) by {
        reveal(send_outcome);
    }
}

/// The first message of a thread links it in: the sender's profile then names
/// this thread as its newest, and so does the recipient's profile or, where
/// the recipient has none, the root directory.
pub proof fn lemma_first_message_links_read_back(
    program_id: Seq<u8>,
    a: &SendAccounts,
    kind: MessageType,
    payload: Seq<u8>,
    timestamp: i64,
)
    requires
        send_outcome(program_id, a, kind, payload, timestamp) is Ok,
        decode_thread(a.thread.data@) is Ok,
        decode_thread(a.thread.data@)->Ok_0.msg_count == 0,
    ensures
        ({
            let e = send_outcome(program_id, a, kind, payload, timestamp)->Ok_0;
            &&& decode_profile(e.sender_profile) is Ok
            &&& decode_profile(e.sender_profile)->Ok_0.newest_thread == Some(a.thread.key@)
            &&& has_profile(&a.recipient_profile) ==> decode_profile(e.recipient_profile) is Ok
                && decode_profile(e.recipient_profile)->Ok_0.newest_thread == Some(a.thread.key@)
            &&& !has_profile(&a.recipient_profile) ==> decode_directory(e.directory) == Ok::<
                RootDirectoryView,
                JabberError,
            >(
                RootDirectoryView {
                    tag: Tag::Jabber,
                    unregistered_newest_thread: Some(a.thread.key@),
                },
            )
        }),
{
    let e = send_outcome(program_id, a, kind, payload, timestamp)->Ok_0;
    let key = a.thread.key@;
    lemma_decoded_profile_wf(a.sender_profile.data@);
    lemma_decoded_profile_wf(a.recipient_profile.data@);
    assert(sender_profile_check(program_id, a) is Ok && e.sender_profile == overwrite(
        a.sender_profile.data@,
        profile_bytes(with_newest_thread(sender_profile_check(program_id, a)->Ok_0, key)),
    )) by {
        reveal(send_outcome);
    }
    let sp = sender_profile_check(program_id, a)->Ok_0;
    lemma_profile_round_trip(with_newest_thread(sp, key), a.sender_profile.data@);
    if has_profile(&a.recipient_profile) {
        assert(recipient_profile_check(program_id, a) is Ok && e.recipient_profile == overwrite(
            a.recipient_profile.data@,
            profile_bytes(with_newest_thread(recipient_profile_check(program_id, a)->Ok_0, key)),
        )) by {
            reveal(send_outcome);
        }
        let rp = recipient_profile_check(program_id, a)->Ok_0;
        lemma_profile_round_trip(with_newest_thread(rp, key), a.recipient_profile.data@);
    } else {
        let d = RootDirectoryView { tag: Tag::Jabber, unregistered_newest_thread: Some(key) };
        assert(directory_check(program_id, a) is Ok && e.directory == overwrite(
            a.directory.data@,
            directory_bytes(d),
        )) by {
            reveal(send_outcome);
        }
        lemma_directory_round_trip(d, a.directory.data@);
    }
}

} // verus!
