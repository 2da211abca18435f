use jabber::account::Slot;
use jabber::error::JabberError;
use jabber::processor::{create_thread, send_message, set_user_profile, SendAccounts};
use jabber::state::{
    Message, MessageType, Profile, RootDirectory, Tag, Thread, MAX_DIRECTORY_LEN,
    MAX_MESSAGE_LEN, MAX_PROFILE_LEN, MAX_THREAD_LEN,
};

const PROGRAM: [u8; 32] = [7u8; 32];
const SYSTEM: [u8; 32] = [0u8; 32];

fn user(b: u8) -> [u8; 32] {
    let mut k = [b; 32];
    k[0] = b.wrapping_add(100);
    k
}

fn slot(key: [u8; 32], owner: [u8; 32], is_signer: bool, data: Vec<u8>) -> Slot {
    Slot { key, owner, is_signer, lamports: 1_000, rent_minimum: 100, data }
}

fn wallet(key: [u8; 32]) -> Slot {
    slot(key, SYSTEM, true, vec![])
}

fn profile_slot(owner_key: [u8; 32]) -> Slot {
    let (key, _) = Profile::find_from_user_key(&owner_key, &PROGRAM).unwrap();
    slot(key, PROGRAM, false, vec![0u8; MAX_PROFILE_LEN])
}

fn directory_slot() -> Slot {
    let (key, _) = RootDirectory::find_from_program_id(&PROGRAM).unwrap();
    slot(key, PROGRAM, false, vec![0u8; MAX_DIRECTORY_LEN])
}

/// A thread slot created between `a` and `b`, as the ledger holds it once
/// allocated and owned by the program.
fn created_thread(a: [u8; 32], b: [u8; 32]) -> Slot {
    let (key, _) = Thread::find_from_users_keys(&a, &b, &PROGRAM).unwrap();
    let mut thread = slot(key, SYSTEM, false, vec![]);
    create_thread(&PROGRAM, &SYSTEM, &wallet(a), &mut thread, a, b).unwrap();
    thread.owner = PROGRAM;
    thread
}

fn registered(owner_key: [u8; 32], name: &str) -> Slot {
    let mut p = profile_slot(owner_key);
    set_user_profile(&PROGRAM, &wallet(owner_key), &mut p, Some(String::from(name)), None, Some(0))
        .unwrap();
    p
}

fn send_accounts(sender: [u8; 32], recipient: [u8; 32], index: u32) -> SendAccounts {
    let (message_key, _) = Message::find_from_keys(index, &sender, &recipient, &PROGRAM).unwrap();
    SendAccounts {
        sender: wallet(sender),
        recipient: slot(recipient, SYSTEM, false, vec![]),
        thread: created_thread(sender, recipient),
        sender_profile: registered(sender, "sender"),
        recipient_profile: profile_slot(recipient),
        message: slot(message_key, SYSTEM, false, vec![]),
        directory: directory_slot(),
    }
}

fn next_message_slot(a: &mut SendAccounts, index: u32) {
    let (key, _) = Message::find_from_keys(index, &a.sender.key, &a.recipient.key, &PROGRAM).unwrap();
    a.message = slot(key, SYSTEM, false, vec![]);
}

// --- profiles -------------------------------------------------------------

#[test]
fn profile_updates_merge_fields() {
    let owner = user(1);
    let mut p = profile_slot(owner);
    set_user_profile(&PROGRAM, &wallet(owner), &mut p, Some(String::from("A")), None, None).unwrap();
    set_user_profile(&PROGRAM, &wallet(owner), &mut p, None, Some(String::from("B")), None).unwrap();
    let stored = Profile::from_bytes(&p.data).unwrap();
    assert_eq!(stored.tag, Tag::Profile);
    assert_eq!(stored.name, "A");
    assert_eq!(stored.bio, "B");
    assert_eq!(stored.lamports_per_message, 0);
    set_user_profile(&PROGRAM, &wallet(owner), &mut p, Some(String::from("C")), None, Some(12))
        .unwrap();
    let stored = Profile::from_bytes(&p.data).unwrap();
    assert_eq!(stored.name, "C");
    assert_eq!(stored.bio, "B");
    assert_eq!(stored.lamports_per_message, 12);
    assert_eq!(p.data.len(), MAX_PROFILE_LEN);
}

#[test]
fn profile_name_and_bio_bounds() {
    let owner = user(1);
    let mut p = profile_slot(owner);
    let at_bound = "n".repeat(32);
    set_user_profile(&PROGRAM, &wallet(owner), &mut p, Some(at_bound.clone()), Some("b".repeat(100)), None)
        .unwrap();
    assert_eq!(Profile::from_bytes(&p.data).unwrap().name, at_bound);
    let before = p.data.clone();
    assert_eq!(
        set_user_profile(&PROGRAM, &wallet(owner), &mut p, Some("n".repeat(33)), None, None),
        Err(JabberError::InvalidArgument)
    );
    assert_eq!(
        set_user_profile(&PROGRAM, &wallet(owner), &mut p, None, Some("b".repeat(101)), None),
        Err(JabberError::InvalidArgument)
    );
    assert_eq!(p.data, before);
}

#[test]
fn profile_update_errors() {
    let owner = user(1);
    let mut unsigned = wallet(owner);
    unsigned.is_signer = false;
    let mut p = profile_slot(owner);
    assert_eq!(
        set_user_profile(&PROGRAM, &unsigned, &mut p, Some(String::from("x")), None, None),
        Err(JabberError::MissingRequiredSignature)
    );
    let mut foreign = profile_slot(owner);
    foreign.owner = SYSTEM;
    assert_eq!(
        set_user_profile(&PROGRAM, &wallet(owner), &mut foreign, None, None, None),
        Err(JabberError::WrongProfileOwner)
    );
    let mut someone_else = profile_slot(user(2));
    assert_eq!(
        set_user_profile(&PROGRAM, &wallet(owner), &mut someone_else, None, None, None),
        Err(JabberError::AccountNotDeterministic)
    );
    let mut small = profile_slot(owner);
    small.data = vec![0u8; MAX_PROFILE_LEN - 1];
    assert_eq!(
        set_user_profile(&PROGRAM, &wallet(owner), &mut small, None, None, None),
        Err(JabberError::AccountDataTooSmall)
    );
    let mut thread_bytes = profile_slot(owner);
    thread_bytes.data[0] = 2;
    assert_eq!(
        set_user_profile(&PROGRAM, &wallet(owner), &mut thread_bytes, None, None, None),
        Err(JabberError::DataTypeMismatch)
    );
    assert_eq!(p.data, vec![0u8; MAX_PROFILE_LEN]);
}

// --- threads --------------------------------------------------------------

#[test]
fn create_thread_writes_fresh_thread() {
    let (a, b) = (user(1), user(2));
    let (key, bump) = Thread::find_from_users_keys(&a, &b, &PROGRAM).unwrap();
    let mut thread = slot(key, SYSTEM, false, vec![]);
    assert_eq!(create_thread(&PROGRAM, &SYSTEM, &wallet(a), &mut thread, a, b), Ok(bump));
    assert_eq!(thread.data.len(), MAX_THREAD_LEN);
    let t = Thread::from_bytes(&thread.data).unwrap();
    assert_eq!(t.tag, Tag::Thread);
    assert_eq!(t.msg_count, 0);
    assert_eq!(t.backward_link_1, None);
    assert_eq!(t.backward_link_2, None);
    assert_eq!(t.user_1, a);
    assert_eq!(t.user_2, b);
}

#[test]
fn create_thread_same_slot_from_either_user() {
    let (a, b) = (user(1), user(2));
    let (key, bump) = Thread::find_from_users_keys(&b, &a, &PROGRAM).unwrap();
    let mut thread = slot(key, SYSTEM, false, vec![]);
    assert_eq!(create_thread(&PROGRAM, &SYSTEM, &wallet(b), &mut thread, b, a), Ok(bump));
    let mut again = slot(key, SYSTEM, false, vec![]);
    assert_eq!(create_thread(&PROGRAM, &SYSTEM, &wallet(a), &mut again, a, b), Ok(bump));
}

#[test]
fn create_thread_in_preallocated_slot() {
    let (a, b) = (user(1), user(2));
    let (key, bump) = Thread::find_from_users_keys(&a, &b, &PROGRAM).unwrap();
    let mut thread = slot(key, PROGRAM, false, vec![0u8; MAX_THREAD_LEN]);
    assert_eq!(create_thread(&PROGRAM, &SYSTEM, &wallet(a), &mut thread, a, b), Ok(bump));
    assert_eq!(Thread::from_bytes(&thread.data).unwrap().tag, Tag::Thread);
}

#[test]
fn create_thread_errors() {
    let (a, b) = (user(1), user(2));
    let (key, _) = Thread::find_from_users_keys(&a, &b, &PROGRAM).unwrap();
    let existing = created_thread(a, b);
    let mut again = existing.clone();
    assert_eq!(
        create_thread(&PROGRAM, &SYSTEM, &wallet(a), &mut again, a, b),
        Err(JabberError::ChatThreadExists)
    );
    assert_eq!(again.data, existing.data);
    let mut fresh = slot(key, SYSTEM, false, vec![]);
    assert_eq!(
        create_thread(&PROGRAM, &[1u8; 32], &wallet(a), &mut fresh, a, b),
        Err(JabberError::WrongSystemProgramAccount)
    );
    let mut payer = wallet(a);
    payer.is_signer = false;
    assert_eq!(
        create_thread(&PROGRAM, &SYSTEM, &payer, &mut fresh, a, b),
        Err(JabberError::MissingRequiredSignature)
    );
    assert_eq!(
        create_thread(&PROGRAM, &SYSTEM, &wallet(a), &mut fresh, a, a),
        Err(JabberError::InvalidArgument)
    );
    let mut wrong = slot(user(3), SYSTEM, false, vec![]);
    assert_eq!(
        create_thread(&PROGRAM, &SYSTEM, &wallet(a), &mut wrong, a, b),
        Err(JabberError::AccountNotDeterministic)
    );
    let mut foreign = slot(key, SYSTEM, false, vec![0u8; MAX_THREAD_LEN]);
    assert_eq!(
        create_thread(&PROGRAM, &SYSTEM, &wallet(a), &mut foreign, a, b),
        Err(JabberError::WrongThreadAccountOwner)
    );
    let mut unfunded = slot(key, PROGRAM, false, vec![0u8; MAX_THREAD_LEN]);
    unfunded.lamports = 99;
    assert_eq!(
        create_thread(&PROGRAM, &SYSTEM, &wallet(a), &mut unfunded, a, b),
        Err(JabberError::AccountNotRentExempt)
    );
    assert_eq!(unfunded.data, vec![0u8; MAX_THREAD_LEN]);
    let mut odd_size = slot(key, PROGRAM, false, vec![0u8; MAX_THREAD_LEN + 1]);
    assert_eq!(
        create_thread(&PROGRAM, &SYSTEM, &wallet(a), &mut odd_size, a, b),
        Err(JabberError::DataTypeMismatch)
    );
    assert!(fresh.data.is_empty());
}

// --- messages -------------------------------------------------------------

#[test]
fn test_jabber() {
    let (x, y) = (user(1), user(2));
    let mut a = send_accounts(x, y, 0);
    let thread_key = a.thread.key;
    let (_, message_bump) = Message::find_from_keys(0, &x, &y, &PROGRAM).unwrap();
    let r = send_message(&PROGRAM, &mut a, MessageType::Unencrypted, b"hi".to_vec(), 1_700_000_000);
    assert_eq!(r, Ok((0, message_bump)));
    let t = Thread::from_bytes(&a.thread.data).unwrap();
    assert_eq!(t.msg_count, 1);
    assert_eq!(t.user_1, x);
    assert_eq!(t.user_2, y);
    assert_eq!(t.backward_link_1, None);
    assert_eq!(t.backward_link_2, None);
    assert_eq!(a.message.data.len(), MAX_MESSAGE_LEN);
    let m = Message::from_bytes(&a.message.data).unwrap();
    assert_eq!(m.tag, Tag::Message);
    assert_eq!(m.kind, MessageType::Unencrypted);
    assert_eq!(m.timestamp, 1_700_000_000);
    assert_eq!(m.msg, b"hi".to_vec());
    let d = RootDirectory::from_bytes(&a.directory.data).unwrap();
    assert_eq!(d.tag, Tag::Jabber);
    assert_eq!(d.unregistered_newest_thread, Some(thread_key));
    let sp = Profile::from_bytes(&a.sender_profile.data).unwrap();
    assert_eq!(sp.newest_thread, Some(thread_key));
    assert_eq!(sp.name, "sender");
    assert_eq!(a.recipient_profile.data, vec![0u8; MAX_PROFILE_LEN]);
}

#[test]
fn first_message_links_registered_recipient() {
    let (x, y) = (user(1), user(2));
    let mut a = send_accounts(x, y, 0);
    a.recipient_profile = registered(y, "Y");
    // Each already has a newest thread with someone else.
    let mut sp = Profile::from_bytes(&a.sender_profile.data).unwrap();
    sp.newest_thread = Some([11u8; 32]);
    sp.save(&mut a.sender_profile.data);
    let mut rp = Profile::from_bytes(&a.recipient_profile.data).unwrap();
    rp.newest_thread = Some([22u8; 32]);
    rp.save(&mut a.recipient_profile.data);
    let directory_before = a.directory.data.clone();
    send_message(&PROGRAM, &mut a, MessageType::Encrypted, b"yo".to_vec(), 5).unwrap();
    let t = Thread::from_bytes(&a.thread.data).unwrap();
    assert_eq!(t.backward_link_1, Some([11u8; 32]));
    assert_eq!(t.backward_link_2, Some([22u8; 32]));
    let sp = Profile::from_bytes(&a.sender_profile.data).unwrap();
    let rp = Profile::from_bytes(&a.recipient_profile.data).unwrap();
    assert_eq!(sp.newest_thread, Some(a.thread.key));
    assert_eq!(rp.newest_thread, Some(a.thread.key));
    assert_eq!(rp.name, "Y");
    assert_eq!(a.directory.data, directory_before);
}

#[test]
fn unregistered_recipients_chain_through_directory() {
    let x = user(1);
    let mut first = send_accounts(x, user(2), 0);
    send_message(&PROGRAM, &mut first, MessageType::Encrypted, b"a".to_vec(), 1).unwrap();
    let mut second = send_accounts(x, user(3), 0);
    second.sender_profile = first.sender_profile.clone();
    second.directory = first.directory.clone();
    send_message(&PROGRAM, &mut second, MessageType::Encrypted, b"b".to_vec(), 2).unwrap();
    let t = Thread::from_bytes(&second.thread.data).unwrap();
    assert_eq!(t.backward_link_1, Some(first.thread.key));
    assert_eq!(t.backward_link_2, Some(first.thread.key));
    let d = RootDirectory::from_bytes(&second.directory.data).unwrap();
    assert_eq!(d.unregistered_newest_thread, Some(second.thread.key));
}

#[test]
fn counter_advances_by_one_per_message() {
    let (x, y) = (user(1), user(2));
    let mut a = send_accounts(x, y, 0);
    for i in 0u32..4 {
        let links_before = Thread::from_bytes(&a.thread.data).unwrap();
        let (index, _) =
            send_message(&PROGRAM, &mut a, MessageType::Unencrypted, vec![i as u8], 10 + i as i64)
                .unwrap();
        assert_eq!(index, i);
        let t = Thread::from_bytes(&a.thread.data).unwrap();
        assert_eq!(t.msg_count, i + 1);
        if i > 0 {
            assert_eq!(t.backward_link_1, links_before.backward_link_1);
            assert_eq!(t.user_1, links_before.user_1);
        }
        next_message_slot(&mut a, i + 1);
    }
    // The recipient replies in the same thread, at the next index.
    let mut reply = a.clone();
    std::mem::swap(&mut reply.sender, &mut reply.recipient);
    reply.sender.is_signer = true;
    next_message_slot(&mut reply, 4);
    let (index, _) = send_message(&PROGRAM, &mut reply, MessageType::Unencrypted, b"back".to_vec(), 20)
        .unwrap();
    assert_eq!(index, 4);
    assert_eq!(Thread::from_bytes(&reply.thread.data).unwrap().msg_count, 5);
}

#[test]
fn consumed_index_is_refused() {
    let (x, y) = (user(1), user(2));
    let mut a = send_accounts(x, y, 0);
    send_message(&PROGRAM, &mut a, MessageType::Unencrypted, b"one".to_vec(), 1).unwrap();
    // Replaying the slot of index 0, now written and owned by the program.
    a.message.owner = PROGRAM;
    let before = a.clone();
    assert_eq!(
        send_message(&PROGRAM, &mut a, MessageType::Unencrypted, b"two".to_vec(), 2),
        Err(JabberError::AccountNotDeterministic)
    );
    assert_eq!(a.thread.data, before.thread.data);
    assert_eq!(a.message.data, before.message.data);
}

#[test]
fn written_message_slot_is_refused() {
    let (x, y) = (user(1), user(2));
    let mut a = send_accounts(x, y, 0);
    let mut written = vec![0u8; MAX_MESSAGE_LEN];
    Message::new(MessageType::Encrypted, 1, b"old".to_vec()).save(&mut written);
    a.message.data = written.clone();
    a.message.owner = PROGRAM;
    assert_eq!(
        send_message(&PROGRAM, &mut a, MessageType::Encrypted, b"new".to_vec(), 2),
        Err(JabberError::MessageExists)
    );
    assert_eq!(a.message.data, written);
    assert_eq!(Thread::from_bytes(&a.thread.data).unwrap().msg_count, 0);
}

#[test]
fn preallocated_message_slot_is_filled() {
    let (x, y) = (user(1), user(2));
    let mut a = send_accounts(x, y, 0);
    a.message.owner = PROGRAM;
    a.message.data = vec![0u8; MAX_MESSAGE_LEN];
    send_message(&PROGRAM, &mut a, MessageType::Encrypted, b"fits".to_vec(), 3).unwrap();
    assert_eq!(a.message.data.len(), MAX_MESSAGE_LEN);
    assert_eq!(Message::from_bytes(&a.message.data).unwrap().msg, b"fits".to_vec());
    let mut b = send_accounts(x, user(3), 0);
    b.message.owner = PROGRAM;
    b.message.data = vec![0u8; 30];
    assert_eq!(
        send_message(&PROGRAM, &mut b, MessageType::Encrypted, b"fits".to_vec(), 3),
        Err(JabberError::AccountDataTooSmall)
    );
    b.message.data = vec![0u8; MAX_MESSAGE_LEN + 1];
    assert_eq!(
        send_message(&PROGRAM, &mut b, MessageType::Encrypted, b"fits".to_vec(), 3),
        Err(JabberError::DataTypeMismatch)
    );
    b.message.data = vec![0u8; MAX_MESSAGE_LEN];
    b.message.lamports = 99;
    assert_eq!(
        send_message(&PROGRAM, &mut b, MessageType::Encrypted, b"fits".to_vec(), 3),
        Err(JabberError::AccountNotRentExempt)
    );
}

#[test]
fn wrong_thread_slot_changes_nothing() {
    let (x, y) = (user(1), user(2));
    let mut a = send_accounts(x, y, 0);
    a.thread = created_thread(x, user(3));
    let before = a.clone();
    assert_eq!(
        send_message(&PROGRAM, &mut a, MessageType::Unencrypted, b"hi".to_vec(), 1),
        Err(JabberError::AccountNotDeterministic)
    );
    assert_eq!(a.thread.data, before.thread.data);
    assert_eq!(a.sender_profile.data, before.sender_profile.data);
    assert_eq!(a.recipient_profile.data, before.recipient_profile.data);
    assert_eq!(a.message.data, before.message.data);
    assert_eq!(a.directory.data, before.directory.data);
}

#[test]
fn send_message_errors() {
    let (x, y) = (user(1), user(2));
    let base = send_accounts(x, y, 0);
    let send = |a: &mut SendAccounts, payload: Vec<u8>| {
        send_message(&PROGRAM, a, MessageType::Unencrypted, payload, 1)
    };

    let mut a = base.clone();
    assert_eq!(send(&mut a, vec![0u8; 1001]), Err(JabberError::InvalidArgument));
    assert!(send(&mut a.clone(), vec![0u8; 1000]).is_ok());

    let mut a = base.clone();
    a.sender.is_signer = false;
    assert_eq!(send(&mut a, vec![]), Err(JabberError::MissingRequiredSignature));

    let mut a = base.clone();
    a.recipient.key = x;
    assert_eq!(send(&mut a, vec![]), Err(JabberError::InvalidArgument));

    let mut a = base.clone();
    a.thread.owner = SYSTEM;
    assert_eq!(send(&mut a, vec![]), Err(JabberError::WrongThreadAccountOwner));

    let mut a = base.clone();
    a.thread.lamports = 99;
    assert_eq!(send(&mut a, vec![]), Err(JabberError::AccountNotRentExempt));

    let mut a = base.clone();
    a.thread.data[0] = 1;
    assert_eq!(send(&mut a, vec![]), Err(JabberError::DataTypeMismatch));

    let mut a = base.clone();
    next_message_slot(&mut a, 1);
    assert_eq!(send(&mut a, vec![]), Err(JabberError::AccountNotDeterministic));

    let mut a = base.clone();
    a.message.data = vec![0u8; 40];
    assert_eq!(send(&mut a, vec![]), Err(JabberError::WrongMessageAccount));

    let mut a = base.clone();
    a.sender_profile = profile_slot(x);
    assert_eq!(send(&mut a, vec![]), Err(JabberError::UninitializedAccount));

    let mut a = base.clone();
    a.sender_profile = registered(user(5), "other");
    assert_eq!(send(&mut a, vec![]), Err(JabberError::AccountNotDeterministic));

    let mut a = base.clone();
    a.sender_profile.owner = SYSTEM;
    assert_eq!(send(&mut a, vec![]), Err(JabberError::WrongProfileOwner));

    let mut a = base.clone();
    a.recipient_profile = profile_slot(user(5));
    assert_eq!(send(&mut a, vec![]), Err(JabberError::AccountNotDeterministic));

    let mut a = base.clone();
    a.recipient_profile = registered(y, "Y");
    a.recipient_profile.owner = SYSTEM;
    assert_eq!(send(&mut a, vec![]), Err(JabberError::WrongProfileOwner));

    let mut a = base.clone();
    a.directory.owner = SYSTEM;
    assert_eq!(send(&mut a, vec![]), Err(JabberError::WrongDirectoryAccountOwner));

    let mut a = base.clone();
    a.directory.key = user(9);
    assert_eq!(send(&mut a, vec![]), Err(JabberError::AccountNotDeterministic));

    let mut a = base.clone();
    a.directory.data = vec![0u8; MAX_DIRECTORY_LEN - 1];
    assert_eq!(send(&mut a, vec![]), Err(JabberError::DataTypeMismatch));
}
