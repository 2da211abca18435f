use jabber::account::{
    check_account_key, check_account_owner, check_profile_params, check_rent_exempt,
    check_signer, keys_equal, Slot,
};
use jabber::error::JabberError;
use jabber::instruction::JabberInstruction;
use jabber::processor::{Processed, Processor};
use jabber::state::{
    Message, MessageType, Profile, RootDirectory, Thread, MAX_DIRECTORY_LEN, MAX_PROFILE_LEN,
};

const PROGRAM: [u8; 32] = [7u8; 32];
const SYSTEM: [u8; 32] = [0u8; 32];

fn slot(key: [u8; 32], owner: [u8; 32], is_signer: bool, data: Vec<u8>) -> Slot {
    Slot { key, owner, is_signer, lamports: 500, rent_minimum: 500, data }
}

#[test]
fn slot_checks() {
    let s = slot([1u8; 32], PROGRAM, false, vec![]);
    assert_eq!(check_account_key(&s, &[1u8; 32], JabberError::AccountNotDeterministic), Ok(()));
    assert_eq!(
        check_account_key(&s, &[2u8; 32], JabberError::AccountNotDeterministic),
        Err(JabberError::AccountNotDeterministic)
    );
    assert_eq!(check_account_owner(&s, &PROGRAM, JabberError::WrongProfileOwner), Ok(()));
    assert_eq!(
        check_account_owner(&s, &SYSTEM, JabberError::WrongMessageAccount),
        Err(JabberError::WrongMessageAccount)
    );
    assert_eq!(check_signer(&s), Err(JabberError::MissingRequiredSignature));
    assert_eq!(check_rent_exempt(&s), Ok(()));
    let mut poor = s.clone();
    poor.lamports = 499;
    assert_eq!(check_rent_exempt(&poor), Err(JabberError::AccountNotRentExempt));
    assert!(keys_equal(&[3u8; 32], &[3u8; 32]));
    assert!(!keys_equal(&[3u8; 32], &[4u8; 32]));
}

#[test]
fn profile_param_checks() {
    assert_eq!(check_profile_params(&None, &None), Ok(()));
    assert_eq!(check_profile_params(&Some("é".repeat(16)), &None), Ok(()));
    // Bounds count bytes: 17 two-byte characters are 34 bytes.
    assert_eq!(
        check_profile_params(&Some("é".repeat(17)), &None),
        Err(JabberError::InvalidArgument)
    );
    assert_eq!(
        check_profile_params(&None, &Some("x".repeat(101))),
        Err(JabberError::InvalidArgument)
    );
}

#[test]
fn dispatch_needs_enough_slots() {
    let mut none: Vec<Slot> = vec![];
    let ix = JabberInstruction::SetUserProfile { name: None, bio: None, lamports_per_message: None };
    assert_eq!(
        Processor::process_instruction(&PROGRAM, &mut none, ix, 0),
        Err(JabberError::NotEnoughAccountKeys)
    );
    let mut two = vec![slot([1u8; 32], SYSTEM, true, vec![]), slot([2u8; 32], SYSTEM, false, vec![])];
    let ix = JabberInstruction::CreateThread { user_1: [1u8; 32], user_2: [2u8; 32] };
    assert_eq!(
        Processor::process_instruction(&PROGRAM, &mut two, ix, 0),
        Err(JabberError::NotEnoughAccountKeys)
    );
    let ix = JabberInstruction::SendMessage { kind: MessageType::Encrypted, message: vec![] };
    assert_eq!(
        Processor::process_instruction(&PROGRAM, &mut two, ix, 0),
        Err(JabberError::NotEnoughAccountKeys)
    );
    assert_eq!(two.len(), 2);
}

#[test]
fn dispatch_runs_a_conversation() {
    let x = [1u8; 32];
    let y = [2u8; 32];
    let x_profile = Profile::find_from_user_key(&x, &PROGRAM).unwrap().0;
    let y_profile = Profile::find_from_user_key(&y, &PROGRAM).unwrap().0;
    let (thread_key, thread_bump) = Thread::find_from_users_keys(&x, &y, &PROGRAM).unwrap();
    let (message_key, message_bump) = Message::find_from_keys(0, &x, &y, &PROGRAM).unwrap();
    let directory = RootDirectory::find_from_program_id(&PROGRAM).unwrap().0;

    let mut accounts = vec![
        slot(x, SYSTEM, true, vec![]),
        slot(x_profile, PROGRAM, false, vec![0u8; MAX_PROFILE_LEN]),
    ];
    let ix = JabberInstruction::SetUserProfile {
        name: Some(String::from("X")),
        bio: None,
        lamports_per_message: Some(0),
    };
    assert_eq!(Processor::process_instruction(&PROGRAM, &mut accounts, ix, 0), Ok(Processed::ProfileSet));
    let x_profile_slot = accounts[1].clone();
    assert_eq!(Profile::from_bytes(&x_profile_slot.data).unwrap().name, "X");

    let mut accounts = vec![
        slot(SYSTEM, SYSTEM, false, vec![]),
        slot(thread_key, SYSTEM, false, vec![]),
        slot(x, SYSTEM, true, vec![]),
    ];
    let ix = JabberInstruction::CreateThread { user_1: x, user_2: y };
    assert_eq!(
        Processor::process_instruction(&PROGRAM, &mut accounts, ix, 0),
        Ok(Processed::ThreadCreated { bump: thread_bump })
    );
    let mut thread_slot = accounts[1].clone();
    thread_slot.owner = PROGRAM;

    let mut accounts = vec![
        slot(x, SYSTEM, true, vec![]),
        slot(y, SYSTEM, false, vec![]),
        thread_slot,
        slot(y_profile, SYSTEM, false, vec![]),
        slot(message_key, SYSTEM, false, vec![]),
        slot(directory, PROGRAM, false, vec![0u8; MAX_DIRECTORY_LEN]),
        x_profile_slot,
        slot(SYSTEM, SYSTEM, false, vec![]),
    ];
    let ix = JabberInstruction::SendMessage { kind: MessageType::Unencrypted, message: b"hi".to_vec() };
    assert_eq!(
        Processor::process_instruction(&PROGRAM, &mut accounts, ix, 42),
        Ok(Processed::MessageSent { index: 0, bump: message_bump })
    );
    assert_eq!(accounts.len(), 8);
    assert_eq!(Thread::from_bytes(&accounts[2].data).unwrap().msg_count, 1);
    let m = Message::from_bytes(&accounts[4].data).unwrap();
    assert_eq!(m.msg, b"hi".to_vec());
    assert_eq!(m.timestamp, 42);
    assert_eq!(
        RootDirectory::from_bytes(&accounts[5].data).unwrap().unregistered_newest_thread,
        Some(thread_key)
    );
    assert_eq!(Profile::from_bytes(&accounts[6].data).unwrap().newest_thread, Some(thread_key));
    assert!(accounts[7].data.is_empty());
}
