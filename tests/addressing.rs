use jabber::address::{decimal_bytes, order_keys, profile_seeds_of, find_address, create_address};
use jabber::state::{Message, Profile, RootDirectory, Thread};

const PROGRAM: [u8; 32] = [7u8; 32];

fn key(b: u8) -> [u8; 32] {
    let mut k = [0u8; 32];
    k[0] = b;
    k[31] = b.wrapping_mul(3);
    k
}

#[test]
fn order_keys_puts_lower_key_first() {
    let a = key(1);
    let b = key(2);
    assert_eq!(order_keys(&a, &b), (a, b));
    assert_eq!(order_keys(&b, &a), (a, b));
}

#[test]
fn order_keys_compares_bytes_lexicographically() {
    let mut a = [0u8; 32];
    let mut b = [0u8; 32];
    a[5] = 9;
    b[5] = 9;
    a[6] = 1;
    b[6] = 200;
    b[31] = 0;
    a[31] = 255;
    assert_eq!(order_keys(&a, &b), (a, b));
    assert_eq!(order_keys(&b, &a), (a, b));
}

#[test]
fn order_keys_of_equal_keys() {
    let a = key(4);
    assert_eq!(order_keys(&a, &a), (a, a));
}

#[test]
fn derive_twice_gives_same_address_and_bump() {
    let user = key(1);
    let first = Profile::find_from_user_key(&user, &PROGRAM).unwrap();
    let second = Profile::find_from_user_key(&user, &PROGRAM).unwrap();
    assert_eq!(first, second);
    assert!(first.1 >= 1);
}

#[test]
fn derived_address_is_not_its_seed() {
    let user = key(1);
    let (addr, _) = Profile::find_from_user_key(&user, &PROGRAM).unwrap();
    assert_ne!(addr, user);
    assert_ne!(addr, PROGRAM);
    let other = Profile::find_from_user_key(&key(2), &PROGRAM).unwrap().0;
    assert_ne!(addr, other);
}

#[test]
fn found_bump_recreates_the_address() {
    let user = key(9);
    let (addr, bump) = Profile::find_from_user_key(&user, &PROGRAM).unwrap();
    assert_eq!(Profile::create_from_keys(&user, &PROGRAM, bump), Some(addr));
    let seeds = profile_seeds_of(&user);
    assert_eq!(find_address(&seeds, &PROGRAM), Some((addr, bump)));
    assert_eq!(create_address(profile_seeds_of(&user), &PROGRAM, bump), Some(addr));
}

#[test]
fn thread_address_same_for_both_users() {
    let a = key(1);
    let b = key(2);
    let ab = Thread::find_from_users_keys(&a, &b, &PROGRAM).unwrap();
    let ba = Thread::find_from_users_keys(&b, &a, &PROGRAM).unwrap();
    assert_eq!(ab, ba);
    assert_eq!(Thread::create_from_user_keys(&b, &a, &PROGRAM, ab.1), Some(ab.0));
}

#[test]
fn message_address_same_for_both_users_and_differs_by_index() {
    let a = key(1);
    let b = key(2);
    let m0 = Message::find_from_keys(0, &a, &b, &PROGRAM).unwrap();
    assert_eq!(Message::find_from_keys(0, &b, &a, &PROGRAM).unwrap(), m0);
    let m1 = Message::find_from_keys(1, &a, &b, &PROGRAM).unwrap();
    assert_ne!(m0.0, m1.0);
    assert_eq!(Message::create_from_keys(1, &b, &a, &PROGRAM, m1.1), Some(m1.0));
}

#[test]
fn entity_addresses_are_distinct() {
    let a = key(1);
    let b = key(2);
    let profile = Profile::find_from_user_key(&a, &PROGRAM).unwrap().0;
    let thread = Thread::find_from_users_keys(&a, &b, &PROGRAM).unwrap().0;
    let message = Message::find_from_keys(0, &a, &b, &PROGRAM).unwrap().0;
    let directory = RootDirectory::find_from_program_id(&PROGRAM).unwrap().0;
    assert_ne!(profile, thread);
    assert_ne!(thread, message);
    assert_ne!(message, directory);
    assert_ne!(profile, directory);
}

#[test]
fn decimal_bytes_of_indices() {
    assert_eq!(decimal_bytes(0), b"0".to_vec());
    assert_eq!(decimal_bytes(7), b"7".to_vec());
    assert_eq!(decimal_bytes(42), b"42".to_vec());
    assert_eq!(decimal_bytes(100), b"100".to_vec());
    assert_eq!(decimal_bytes(u32::MAX), b"4294967295".to_vec());
}
