//! Deterministic addressing: canonical ordering of key pairs, the seeds of
//! each entity, and the search for a bump that gives a valid address.
use vstd::prelude::*;

verus! {

/// Byte length of a public key and of a derived address.
pub const KEY_LEN: usize = 32;

/// `a` sorts strictly before `b` in lexicographic byte order.
pub open spec fn key_lt(a: Seq<u8>, b: Seq<u8>) -> bool {
    exists|i: int|
        0 <= i < a.len() && i < b.len() && a[i] < b[i] && (forall|j: int| 0 <= j < i ==> a[j]
            == b[j])
}

/// The canonical order of two keys: the lower one first.
pub open spec fn ordered_pair(a: Seq<u8>, b: Seq<u8>) -> (Seq<u8>, Seq<u8>) {
    if key_lt(a, b) {
        (a, b)
    } else {
        (b, a)
    }
}

/// Orders two keys canonically, lower one first, so that both participants of
/// a conversation compute the same pair.
pub fn order_keys(key_1: &[u8; 32], key_2: &[u8; 32]) -> (r: ([u8; 32], [u8; 32]))
    ensures
        (r.0@, r.1@) == ordered_pair(key_1@, key_2@),
{
    let mut i: usize = 0;
    while i < KEY_LEN
        invariant
            i <= KEY_LEN,
            key_1@.len() == KEY_LEN,
            key_2@.len() == KEY_LEN,
            forall|j: int| 0 <= j < i ==> key_1@[j] == key_2@[j],
        decreases KEY_LEN - i,
    {
        if key_1[i] != key_2[i] {
            if key_1[i] < key_2[i] {
                assert(key_lt(key_1@, key_2@));
                return (*key_1, *key_2);
            } else {
                proof {
                    lemma_key_lt_witness(key_1@, key_2@, i as int);
                }
                return (*key_2, *key_1);
            }
        }
        i = i + 1;
    }
    proof {
        lemma_equal_not_lt(key_1@, key_2@);
    }
    (*key_2, *key_1)
}

proof fn lemma_key_lt_witness(a: Seq<u8>, b: Seq<u8>, i: int)
    requires
        0 <= i < a.len(),
        i < b.len(),
        a[i] > b[i],
        forall|j: int| 0 <= j < i ==> a[j] == b[j],
    ensures
        !key_lt(a, b),
{
    if key_lt(a, b) {
        let k = choose|k: int|
            0 <= k < a.len() && k < b.len() && a[k] < b[k] && (forall|j: int| 0 <= j < k ==> a[j]
                == b[j]);
        if k < i {
            assert(a[k] == b[k]);
        } else if k > i {
            assert(a[i] == b[i]);
        }
    }
}

proof fn lemma_equal_not_lt(a: Seq<u8>, b: Seq<u8>)
    requires
        a.len() == b.len(),
        forall|j: int| 0 <= j < a.len() ==> a[j] == b[j],
    ensures
        !key_lt(a, b),
        a == b,
{
    assert(a =~= b);
}

/// Two keys of equal length are either equal or strictly ordered one way.
pub proof fn lemma_key_lt_total(a: Seq<u8>, b: Seq<u8>)
    requires
        a.len() == b.len(),
    ensures
        a == b || key_lt(a, b) || key_lt(b, a),
        !(key_lt(a, b) && key_lt(b, a)),
{
    if key_lt(a, b) {
        let k = choose|k: int|
            0 <= k < a.len() && k < b.len() && a[k] < b[k] && (forall|j: int| 0 <= j < k ==> a[j]
                == b[j]);
        lemma_key_lt_witness(b, a, k);
    } else if a != b {
        if forall|j: int| 0 <= j < a.len() ==> a[j] == b[j] {
            assert(a =~= b);
        } else {
            let k = choose|k: int| 0 <= k < a.len() && a[k] != b[k];
            lemma_first_difference(a, b, k);
        }
    }
}

proof fn lemma_first_difference(a: Seq<u8>, b: Seq<u8>, k: int)
    requires
        a.len() == b.len(),
        0 <= k < a.len(),
        a[k] != b[k],
    ensures
        key_lt(a, b) || key_lt(b, a),
    decreases k,
{
    if exists|m: int| 0 <= m < k && a[m] != b[m] {
        let m = choose|m: int| 0 <= m < k && a[m] != b[m];
        lemma_first_difference(a, b, m);
    } else {
        if a[k] < b[k] {
            assert(key_lt(a, b));
        } else {
            assert(key_lt(b, a));
        }
    }
}

/// The canonical pair does not depend on the order in which the two keys are
/// given.
pub proof fn lemma_ordered_pair_symmetric(a: Seq<u8>, b: Seq<u8>)
    requires
        a.len() == b.len(),
    ensures
        ordered_pair(a, b) == ordered_pair(b, a),
{
    lemma_key_lt_total(a, b);
}


/// Most seeds that one derivation takes, the bump included.
pub const MAX_SEEDS: usize = 16;

/// Most bytes in one seed.
pub const MAX_SEED_LEN: usize = 32;

/// The address that the ledger derives from `seeds` for the program
/// `program_id`, or `None` where the derived point is a valid curve point and
/// so cannot serve as a program address.
pub uninterp spec fn program_address_of(seeds: Seq<Seq<u8>>, program_id: Seq<u8>) -> Option<Seq<u8>>;

/// The byte strings of a list of seeds.
pub open spec fn seeds_view(seeds: &Vec<Vec<u8>>) -> Seq<Seq<u8>> {
    Seq::new(seeds@.len(), |i: int| seeds@[i]@)
}

/// The ledger's limits on the seeds of one derivation.
pub open spec fn seeds_within_limits(seeds: Seq<Seq<u8>>) -> bool {
    &&& seeds.len() <= MAX_SEEDS
    &&& forall|i: int| 0 <= i < seeds.len() ==> #[trigger] seeds[i].len() <= MAX_SEED_LEN
}

/// The search for a bump: tries `bump`, `bump - 1`, ... down to 1 and takes the
/// first one that gives a valid address.
pub open spec fn bump_search(seeds: Seq<Seq<u8>>, program_id: Seq<u8>, bump: nat) -> Option<
    (Seq<u8>, u8),
>
    decreases bump,
{
    if bump == 0 {
        None
    } else {
        match program_address_of(seeds.push(seq![bump as u8]), program_id) {
            Some(k) => Some((k, bump as u8)),
            None => bump_search(seeds, program_id, (bump - 1) as nat),
        }
    }
}

/// The address and bump derived from `seeds`: the highest bump from 255 down
/// that gives a valid address.
pub open spec fn derived_address(seeds: Seq<Seq<u8>>, program_id: Seq<u8>) -> Option<(Seq<u8>, u8)> {
    bump_search(seeds, program_id, 255)
}

/// A derived address and bump with the address as bytes.
pub open spec fn found_view(r: Option<([u8; 32], u8)>) -> Option<(Seq<u8>, u8)> {
    match r {
        Some((k, b)) => Some((k@, b)),
        None => None,
    }
}

/// An optional key as bytes.
pub open spec fn key_opt_view(r: Option<[u8; 32]>) -> Option<Seq<u8>> {
    match r {
        Some(k) => Some(k@),
        None => None,
    }
}

/// Relies on `Pubkey::create_program_address` of solana-program: within the
/// seed limits it hashes the seeds with the program id and either returns the
/// 32-byte address or fails because the hash is a curve point; the outcome
/// depends on its arguments alone.
#[verifier::external_body]
fn create_program_address(seeds: &Vec<Vec<u8>>, program_id: &[u8; 32]) -> (r: Option<[u8; 32]>)
    requires
        seeds_within_limits(seeds_view(seeds)),
    ensures
        key_opt_view(r) == program_address_of(seeds_view(seeds), program_id@),
{
    let refs: Vec<&[u8]> = seeds.iter().map(|s| s.as_slice()).collect();
    let id = solana_program::pubkey::Pubkey::new_from_array(*program_id);
    solana_program::pubkey::Pubkey::create_program_address(&refs, &id).ok().map(|k| k.to_bytes())
}

/// Relies on `Pubkey::try_find_program_address` of solana-program: off-chain
/// it appends the one-byte bump 255, 254, ..., 1 to the seeds and returns the
/// first address that `create_program_address` gives, or `None`.
#[verifier::external_body]
fn try_find_program_address(seeds: &Vec<Vec<u8>>, program_id: &[u8; 32]) -> (r: Option<
    ([u8; 32], u8),
>)
    requires
        seeds.len() < MAX_SEEDS,
        seeds_within_limits(seeds_view(seeds)),
    ensures
        found_view(r) == derived_address(seeds_view(seeds), program_id@),
{
    let refs: Vec<&[u8]> = seeds.iter().map(|s| s.as_slice()).collect();
    let id = solana_program::pubkey::Pubkey::new_from_array(*program_id);
    solana_program::pubkey::Pubkey::try_find_program_address(&refs, &id).map(|(k, b)| (k.to_bytes(), b))
}

/// Derives the address of `seeds` for `program_id`: the highest bump from 255
/// down that gives a valid address, with that address.
pub fn find_address(seeds: &Vec<Vec<u8>>, program_id: &[u8; 32]) -> (r: Option<([u8; 32], u8)>)
    requires
        seeds.len() < MAX_SEEDS,
        seeds_within_limits(seeds_view(seeds)),
    ensures
        found_view(r) == derived_address(seeds_view(seeds), program_id@),
{
    try_find_program_address(seeds, program_id)
}

/// Recomputes the address of `seeds` with a known bump appended.
pub fn create_address(seeds: Vec<Vec<u8>>, program_id: &[u8; 32], bump: u8) -> (r: Option<[u8; 32]>)
    requires
        seeds.len() < MAX_SEEDS,
        seeds_within_limits(seeds_view(&seeds)),
    ensures
        key_opt_view(r) == program_address_of(seeds_view(&seeds).push(seq![bump]), program_id@),
{
    let mut with_bump = seeds;
    let bump_seed = vec![bump];
    with_bump.push(bump_seed);
    proof {
        assert(bump_seed@ =~= seq![bump]);
        assert(seeds_view(&with_bump) =~= seeds_view(&seeds).push(seq![bump]));
    }
    create_program_address(&with_bump, program_id)
}

/// Derivation is a function: two derivations from the same seeds and program
/// id give the same address and the same bump.
pub proof fn lemma_derive_deterministic(
    seeds: Seq<Seq<u8>>,
    program_id: Seq<u8>,
    r1: Option<([u8; 32], u8)>,
    r2: Option<([u8; 32], u8)>,
)
    requires
        found_view(r1) == derived_address(seeds, program_id),
        found_view(r2) == derived_address(seeds, program_id),
    ensures
        r1 == r2,
{
    if let (Some((k1, _)), Some((k2, _))) = (r1, r2) {
        assert(k1@ == k2@);
        assert(k1 =~= k2);
    }
}

/// A derived bump is between 1 and 255; recomputing with it gives the derived
/// address back, and no higher bump gives a valid address.
pub proof fn lemma_derived_address_recomputes(seeds: Seq<Seq<u8>>, program_id: Seq<u8>)
    ensures
        derived_address(seeds, program_id) matches Some((k, b)) ==> {
            &&& 1 <= b
            &&& program_address_of(seeds.push(seq![b]), program_id) == Some(k)
            &&& forall|c: int|
                b < c <= 255 ==> #[trigger] program_address_of(seeds.push(seq![c as u8]), program_id)
                    is None
        },
{
    lemma_bump_search(seeds, program_id, 255);
}

proof fn lemma_bump_search(seeds: Seq<Seq<u8>>, program_id: Seq<u8>, bump: nat)
    requires
        bump <= 255,
    ensures
        bump_search(seeds, program_id, bump) matches Some((k, b)) ==> {
            &&& 1 <= b <= bump
            &&& program_address_of(seeds.push(seq![b]), program_id) == Some(k)
            &&& forall|c: int|
                b < c <= bump ==> #[trigger] program_address_of(seeds.push(seq![c as u8]), program_id)
                    is None
        },
    decreases bump,
{
    if bump > 0 {
        lemma_bump_search(seeds, program_id, (bump - 1) as nat);
    }
}

/// Decimal digits of `n` in ASCII, most significant first, without leading
/// zeros.
pub open spec fn decimal_digits(n: nat) -> Seq<u8>
    decreases n,
{
    if n < 10 {
        seq![(48 + n) as u8]
    } else {
        decimal_digits(n / 10).push((48 + n % 10) as u8)
    }
}

/// Ten to the power `k`.
pub open spec fn pow10(k: nat) -> nat
    decreases k,
{
    if k == 0 {
        1
    } else {
        10 * pow10((k - 1) as nat)
    }
}

proof fn lemma_decimal_digits_len(n: nat, k: nat)
    requires
        1 <= k,
        n < pow10(k),
    ensures
        decimal_digits(n).len() <= k,
    decreases k,
{
    if n >= 10 {
        if k == 1 {
            assert(pow10(1) == 10) by {
                reveal_with_fuel(pow10, 2);
            }
        } else {
            let p = pow10((k - 1) as nat);
            assert(n / 10 < p) by (nonlinear_arith)
                requires
                    n < 10 * p,
            ;
            lemma_decimal_digits_len(n / 10, (k - 1) as nat);
        }
    }
}

/// The decimal digits of a sequence index, as used in a message's seeds.
pub fn decimal_bytes(n: u32) -> (r: Vec<u8>)
    ensures
        r@ == decimal_digits(n as nat),
        r@.len() <= 10,
    decreases n,
{
    proof {
        assert(pow10(10) == 10000000000) by {
            reveal_with_fuel(pow10, 11);
        }
        lemma_decimal_digits_len(n as nat, 10);
    }
    if n < 10 {
        vec![48u8 + n as u8]
    } else {
        let mut r = decimal_bytes(n / 10);
        r.push(48u8 + (n % 10) as u8);
        r
    }
}

/// The namespace seed of profiles: `profile`.
pub open spec fn profile_seed() -> Seq<u8> {
    seq![112u8, 114, 111, 102, 105, 108, 101]
}

/// The namespace seed of threads: `thread`.
pub open spec fn thread_seed() -> Seq<u8> {
    seq![116u8, 104, 114, 101, 97, 100]
}

/// The namespace seed of messages: `message`.
pub open spec fn message_seed() -> Seq<u8> {
    seq![109u8, 101, 115, 115, 97, 103, 101]
}

/// The namespace seed of the root directory: `directory`.
pub open spec fn directory_seed() -> Seq<u8> {
    seq![100u8, 105, 114, 101, 99, 116, 111, 114, 121]
}

/// Seeds of the profile of `user`.
pub open spec fn profile_seeds(user: Seq<u8>) -> Seq<Seq<u8>> {
    seq![profile_seed(), user]
}

/// Seeds of the one thread between `a` and `b`, in canonical key order.
pub open spec fn thread_seeds(a: Seq<u8>, b: Seq<u8>) -> Seq<Seq<u8>> {
    seq![thread_seed(), ordered_pair(a, b).0, ordered_pair(a, b).1]
}

/// Seeds of message `index` of the thread between `a` and `b`.
pub open spec fn message_seeds(index: u32, a: Seq<u8>, b: Seq<u8>) -> Seq<Seq<u8>> {
    seq![message_seed(), decimal_digits(index as nat), ordered_pair(a, b).0, ordered_pair(a, b).1]
}

/// Seeds of the root directory, fixed by the owning program.
pub open spec fn directory_seeds(program_id: Seq<u8>) -> Seq<Seq<u8>> {
    seq![directory_seed(), program_id]
}

/// The bytes of a key, as a seed.
pub fn key_to_vec(key: &[u8; 32]) -> (r: Vec<u8>)
    ensures
        r@ == key@,
{
    let mut r: Vec<u8> = Vec::with_capacity(KEY_LEN);
    let mut i: usize = 0;
    while i < KEY_LEN
        invariant
            i <= KEY_LEN,
            key@.len() == KEY_LEN,
            r@ == key@.subrange(0, i as int),
        decreases KEY_LEN - i,
    {
        r.push(key[i]);
        i = i + 1;
    }
    assert(r@ =~= key@);
    r
}

/// Builds the seeds of the profile of `user`.
pub fn profile_seeds_of(user: &[u8; 32]) -> (r: Vec<Vec<u8>>)
    ensures
        seeds_view(&r) == profile_seeds(user@),
        r.len() == 2,
        seeds_within_limits(seeds_view(&r)),
{
    let tag = vec![112u8, 114, 111, 102, 105, 108, 101];
    let key = key_to_vec(user);
    let r = vec![tag, key];
    proof {
        assert(tag@ =~= profile_seed());
        assert(seeds_view(&r) =~= profile_seeds(user@));
    }
    r
}

/// Builds the seeds of the thread between `a` and `b`.
pub fn thread_seeds_of(a: &[u8; 32], b: &[u8; 32]) -> (r: Vec<Vec<u8>>)
    ensures
        seeds_view(&r) == thread_seeds(a@, b@),
        r.len() == 3,
        seeds_within_limits(seeds_view(&r)),
{
    let tag = vec![116u8, 104, 114, 101, 97, 100];
    let (lo, hi) = order_keys(a, b);
    let r = vec![tag, key_to_vec(&lo), key_to_vec(&hi)];
    proof {
        assert(tag@ =~= thread_seed());
        assert(seeds_view(&r) =~= thread_seeds(a@, b@));
    }
    r
}

/// Builds the seeds of message `index` of the thread between `a` and `b`.
pub fn message_seeds_of(index: u32, a: &[u8; 32], b: &[u8; 32]) -> (r: Vec<Vec<u8>>)
    ensures
        seeds_view(&r) == message_seeds(index, a@, b@),
        r.len() == 4,
        seeds_within_limits(seeds_view(&r)),
{
    let tag = vec![109u8, 101, 115, 115, 97, 103, 101];
    let (lo, hi) = order_keys(a, b);
    let r = vec![tag, decimal_bytes(index), key_to_vec(&lo), key_to_vec(&hi)];
    proof {
        assert(tag@ =~= message_seed());
        assert(seeds_view(&r) =~= message_seeds(index, a@, b@));
    }
    r
}

/// Builds the seeds of the root directory of `program_id`.
pub fn directory_seeds_of(program_id: &[u8; 32]) -> (r: Vec<Vec<u8>>)
    ensures
        seeds_view(&r) == directory_seeds(program_id@),
        r.len() == 2,
        seeds_within_limits(seeds_view(&r)),
{
    let tag = vec![100u8, 105, 114, 101, 99, 116, 111, 114, 121];
    let r = vec![tag, key_to_vec(program_id)];
    proof {
        assert(tag@ =~= directory_seed());
        assert(seeds_view(&r) =~= directory_seeds(program_id@));
    }
    r
}

/// The thread between two users has one address, whichever of them computes
/// it; the same holds of each message of that thread.
pub proof fn lemma_thread_address_symmetric(a: Seq<u8>, b: Seq<u8>, index: u32, program_id: Seq<u8>)
    requires
        a.len() == KEY_LEN,
        b.len() == KEY_LEN,
    ensures
        thread_seeds(a, b) == thread_seeds(b, a),
        derived_address(thread_seeds(a, b), program_id) == derived_address(
            thread_seeds(b, a),
            program_id,
        ),
        message_seeds(index, a, b) == message_seeds(index, b, a),
{
    lemma_ordered_pair_symmetric(a, b);
}

} // verus!
