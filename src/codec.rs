//! Little-endian integers, optional keys and length-prefixed byte strings: the
//! pieces that every record layout is made of.
use vstd::prelude::*;
use crate::address::key_opt_view;
use vstd::utf8::{decode_utf8, encode_utf8, valid_utf8};

verus! {

/// Four little-endian bytes of `x`.
pub open spec fn u32_le(x: u32) -> Seq<u8> {
    seq![(x & 0xff) as u8, ((x >> 8u32) & 0xff) as u8, ((x >> 16u32) & 0xff) as u8, ((x >> 24u32) & 0xff) as u8]
}

/// The integer of four little-endian bytes.
pub open spec fn u32_from_le(s: Seq<u8>) -> u32 {
    (s[0] as u32) | ((s[1] as u32) << 8u32) | ((s[2] as u32) << 16u32) | ((s[3] as u32) << 24u32)
}

/// Eight little-endian bytes of `x`.
pub open spec fn u64_le(x: u64) -> Seq<u8> {
    seq![
        (x & 0xff) as u8,
        ((x >> 8u64) & 0xff) as u8,
        ((x >> 16u64) & 0xff) as u8,
        ((x >> 24u64) & 0xff) as u8,
        ((x >> 32u64) & 0xff) as u8,
        ((x >> 40u64) & 0xff) as u8,
        ((x >> 48u64) & 0xff) as u8,
        ((x >> 56u64) & 0xff) as u8,
    ]
}

/// The integer of eight little-endian bytes.
pub open spec fn u64_from_le(s: Seq<u8>) -> u64 {
    (s[0] as u64) | ((s[1] as u64) << 8u64) | ((s[2] as u64) << 16u64) | ((s[3] as u64) << 24u64)
        | ((s[4] as u64) << 32u64) | ((s[5] as u64) << 40u64) | ((s[6] as u64) << 48u64) | ((
    s[7] as u64) << 56u64)
}

/// A signed integer in two's complement, little-endian.
pub open spec fn i64_le(x: i64) -> Seq<u8> {
    u64_le(x as u64)
}

/// An optional key: a zero byte, or a one byte and the 32 bytes of the key.
pub open spec fn opt_key_bytes(k: Option<Seq<u8>>) -> Seq<u8> {
    match k {
        None => seq![0u8],
        Some(k) => seq![1u8] + k,
    }
}

/// A byte string preceded by its length as four little-endian bytes.
pub open spec fn str_bytes(s: Seq<u8>) -> Seq<u8> {
    u32_le(s.len() as u32) + s
}

/// Reads an optional key at `at`: the value and the offset after it.
pub open spec fn parse_opt_key(s: Seq<u8>, at: int) -> Option<(Option<Seq<u8>>, int)> {
    if at < 0 || at + 1 > s.len() {
        None
    } else if s[at] == 0 {
        Some((None, at + 1))
    } else if s[at] == 1 && at + 33 <= s.len() {
        Some((Some(s.subrange(at + 1, at + 33)), at + 33))
    } else {
        None
    }
}

/// Reads a length-prefixed UTF-8 string at `at`: its bytes and the offset after
/// it.
pub open spec fn parse_str(s: Seq<u8>, at: int) -> Option<(Seq<u8>, int)> {
    if at < 0 || at + 4 > s.len() {
        None
    } else {
        let n = u32_from_le(s.subrange(at, at + 4)) as int;
        if at + 4 + n > s.len() || !valid_utf8(s.subrange(at + 4, at + 4 + n)) {
            None
        } else {
            Some((s.subrange(at + 4, at + 4 + n), at + 4 + n))
        }
    }
}

/// Reads a length-prefixed byte string at `at`: its bytes and the offset after
/// it.
pub open spec fn parse_bytes(s: Seq<u8>, at: int) -> Option<(Seq<u8>, int)> {
    if at < 0 || at + 4 > s.len() {
        None
    } else {
        let n = u32_from_le(s.subrange(at, at + 4)) as int;
        if at + 4 + n > s.len() {
            None
        } else {
            Some((s.subrange(at + 4, at + 4 + n), at + 4 + n))
        }
    }
}

/// `prefix` written over the start of `old`, the rest of `old` kept.
pub open spec fn overwrite(old: Seq<u8>, prefix: Seq<u8>) -> Seq<u8> {
    prefix + old.subrange(prefix.len() as int, old.len() as int)
}

/// Four little-endian bytes read back as the integer written.
pub proof fn lemma_u32_round_trip(x: u32)
    ensures
        u32_from_le(u32_le(x)) == x,
{
    let b0 = (x & 0xff) as u8;
    let b1 = ((x >> 8u32) & 0xff) as u8;
    let b2 = ((x >> 16u32) & 0xff) as u8;
    let b3 = ((x >> 24u32) & 0xff) as u8;
    assert(((b0 as u32) | ((b1 as u32) << 8u32) | ((b2 as u32) << 16u32) | ((b3 as u32) << 24u32))
        == x) by (bit_vector)
        requires
            b0 == (x & 0xff) as u8,
            b1 == ((x >> 8u32) & 0xff) as u8,
            b2 == ((x >> 16u32) & 0xff) as u8,
            b3 == ((x >> 24u32) & 0xff) as u8,
    ;
}

/// Eight little-endian bytes read back as the integer written.
pub proof fn lemma_u64_round_trip(x: u64)
    ensures
        u64_from_le(u64_le(x)) == x,
{
    let s = u64_le(x);
    let (b0, b1, b2, b3, b4, b5, b6, b7) = (s[0], s[1], s[2], s[3], s[4], s[5], s[6], s[7]);
    assert(((b0 as u64) | ((b1 as u64) << 8u64) | ((b2 as u64) << 16u64) | ((b3 as u64) << 24u64)
        | ((b4 as u64) << 32u64) | ((b5 as u64) << 40u64) | ((b6 as u64) << 48u64) | ((b7 as u64)
        << 56u64)) == x) by (bit_vector)
        requires
            b0 == (x & 0xff) as u8,
            b1 == ((x >> 8u64) & 0xff) as u8,
            b2 == ((x >> 16u64) & 0xff) as u8,
            b3 == ((x >> 24u64) & 0xff) as u8,
            b4 == ((x >> 32u64) & 0xff) as u8,
            b5 == ((x >> 40u64) & 0xff) as u8,
            b6 == ((x >> 48u64) & 0xff) as u8,
            b7 == ((x >> 56u64) & 0xff) as u8,
    ;
}

/// A signed integer read back from its two's complement bytes.
pub proof fn lemma_i64_round_trip(x: i64)
    ensures
        u64_from_le(i64_le(x)) as i64 == x,
{
    lemma_u64_round_trip(x as u64);
    assert(((x as u64) as i64) == x) by (bit_vector);
}

/// Appends the four little-endian bytes of `x`.
pub fn push_u32(out: &mut Vec<u8>, x: u32)
    ensures
        final(out)@ == old(out)@ + u32_le(x),
{
    out.push((x & 0xff) as u8);
    out.push(((x >> 8) & 0xff) as u8);
    out.push(((x >> 16) & 0xff) as u8);
    out.push(((x >> 24) & 0xff) as u8);
    assert(out@ =~= old(out)@ + u32_le(x));
}

/// Appends the eight little-endian bytes of `x`.
pub fn push_u64(out: &mut Vec<u8>, x: u64)
    ensures
        final(out)@ == old(out)@ + u64_le(x),
{
    out.push((x & 0xff) as u8);
    out.push(((x >> 8) & 0xff) as u8);
    out.push(((x >> 16) & 0xff) as u8);
    out.push(((x >> 24) & 0xff) as u8);
    out.push(((x >> 32) & 0xff) as u8);
    out.push(((x >> 40) & 0xff) as u8);
    out.push(((x >> 48) & 0xff) as u8);
    out.push(((x >> 56) & 0xff) as u8);
    assert(out@ =~= old(out)@ + u64_le(x));
}

/// Appends the bytes of a key.
pub fn push_key(out: &mut Vec<u8>, key: &[u8; 32])
    ensures
        final(out)@ == old(out)@ + key@,
{
    let mut i: usize = 0;
    while i < 32
        invariant
            i <= 32,
            key@.len() == 32,
            out@ == old(out)@ + key@.subrange(0, i as int),
        decreases 32 - i,
    {
        out.push(key[i]);
        i = i + 1;
        assert(key@.subrange(0, i as int) =~= key@.subrange(0, i - 1 as int).push(key@[i - 1]));
    }
    assert(key@.subrange(0, 32) =~= key@);
}

/// Appends an optional key: a flag byte, then the key where there is one.
pub fn push_opt_key(out: &mut Vec<u8>, key: &Option<[u8; 32]>)
    ensures
        final(out)@ == old(out)@ + opt_key_bytes(key_opt_view(*key)),
{
    match key {
        None => {
            out.push(0u8);
            assert(out@ =~= old(out)@ + opt_key_bytes(key_opt_view(*key)));
        },
        Some(k) => {
            out.push(1u8);
            push_key(out, k);
            assert(out@ =~= old(out)@ + opt_key_bytes(key_opt_view(*key)));
        },
    }
}

/// Appends a byte string preceded by its length.
pub fn push_bytes(out: &mut Vec<u8>, bytes: &[u8])
    requires
        bytes@.len() <= u32::MAX,
    ensures
        final(out)@ == old(out)@ + str_bytes(bytes@),
{
    push_u32(out, bytes.len() as u32);
    let ghost start = out@;
    let mut i: usize = 0;
    while i < bytes.len()
        invariant
            i <= bytes@.len(),
            out@ == start + bytes@.subrange(0, i as int),
        decreases bytes@.len() - i,
    {
        out.push(bytes[i]);
        i = i + 1;
        assert(bytes@.subrange(0, i as int) =~= bytes@.subrange(0, i - 1 as int).push(bytes@[i - 1]));
    }
    assert(bytes@.subrange(0, bytes@.len() as int) =~= bytes@);
    assert(out@ =~= old(out)@ + str_bytes(bytes@));
}

/// Reads four little-endian bytes at `at`.
pub fn read_u32(data: &Vec<u8>, at: usize) -> (r: u32)
    requires
        at + 4 <= data@.len(),
    ensures
        r == u32_from_le(data@.subrange(at as int, at + 4)),
{
    let _len = data.len();
    (data[at] as u32) | ((data[at + 1] as u32) << 8) | ((data[at + 2] as u32) << 16) | ((data[at
        + 3] as u32) << 24)
}

/// Reads eight little-endian bytes at `at`.
pub fn read_u64(data: &Vec<u8>, at: usize) -> (r: u64)
    requires
        at + 8 <= data@.len(),
    ensures
        r == u64_from_le(data@.subrange(at as int, at + 8)),
{
    let _len = data.len();
    (data[at] as u64) | ((data[at + 1] as u64) << 8) | ((data[at + 2] as u64) << 16) | ((data[at
        + 3] as u64) << 24) | ((data[at + 4] as u64) << 32) | ((data[at + 5] as u64) << 40) | ((
    data[at + 6] as u64) << 48) | ((data[at + 7] as u64) << 56)
}

/// Reads the 32 bytes of a key at `at`.
pub fn read_key(data: &Vec<u8>, at: usize) -> (r: [u8; 32])
    requires
        at + 32 <= data@.len(),
    ensures
        r@ == data@.subrange(at as int, at + 32),
{
    let len = data.len();
    let mut k = [0u8; 32];
    let mut i: usize = 0;
    while i < 32
        invariant
            i <= 32,
            len == data@.len(),
            at + 32 <= data@.len(),
            k@.len() == 32,
            forall|j: int| 0 <= j < i ==> k@[j] == data@[at + j],
        decreases 32 - i,
    {
        k[i] = data[at + i];
        i = i + 1;
    }
    assert(k@ =~= data@.subrange(at as int, at + 32));
    k
}

/// Reads an optional key at `at`: the key and the offset after it, or `None`
/// where the flag byte is neither 0 nor 1 or the bytes run out.
pub fn read_opt_key(data: &Vec<u8>, at: usize) -> (r: Option<(Option<[u8; 32]>, usize)>)
    ensures
        match r {
            Some((k, next)) => parse_opt_key(data@, at as int) == Some((key_opt_view(k), next as int)),
            None => parse_opt_key(data@, at as int) is None,
        },
{
    if at >= data.len() {
        None
    } else if data[at] == 0 {
        Some((None, at + 1))
    } else if data[at] == 1 && data.len() - at >= 33 {
        let k = read_key(data, at + 1);
        Some((Some(k), at + 33))
    } else {
        None
    }
}

/// Reads a length-prefixed byte string at `at`: its bytes and the offset after
/// it.
pub fn read_bytes(data: &Vec<u8>, at: usize) -> (r: Option<(Vec<u8>, usize)>)
    ensures
        match r {
            Some((b, next)) => parse_bytes(data@, at as int) == Some((b@, next as int)),
            None => parse_bytes(data@, at as int) is None,
        },
{
    if at > data.len() || data.len() - at < 4 {
        return None;
    }
    let n = read_u32(data, at) as usize;
    if data.len() - at - 4 < n {
        return None;
    }
    let mut b: Vec<u8> = Vec::new();
    let mut i: usize = 0;
    while i < n
        invariant
            i <= n,
            at + 4 + n <= data@.len(),
            data@.len() <= usize::MAX,
            b@ == data@.subrange(at + 4, at + 4 + i),
        decreases n - i,
    {
        b.push(data[at + 4 + i]);
        i = i + 1;
        assert(data@.subrange(at + 4, at + 4 + i) =~= data@.subrange(at + 4, at + 4 + i - 1).push(
            data@[at + 4 + i - 1],
        ));
    }
    Some((b, at + 4 + n))
}

/// Relies on `String::from_utf8` of std: the bytes become a string exactly
/// when they are valid UTF-8, and the string holds the characters they encode.
#[verifier::external_body]
fn string_from_utf8(bytes: Vec<u8>) -> (r: Option<String>)
    ensures
        r is Some <==> valid_utf8(bytes@),
        r matches Some(s) ==> s@ == decode_utf8(bytes@),
{
    String::from_utf8(bytes).ok()
}

/// The UTF-8 bytes of a string.
pub open spec fn string_bytes(s: &String) -> Seq<u8> {
    encode_utf8(s@)
}

/// Reads a length-prefixed UTF-8 string at `at`: the string and the offset
/// after it, or `None` where the bytes run out or are not UTF-8.
pub fn read_string(data: &Vec<u8>, at: usize) -> (r: Option<(String, usize)>)
    ensures
        match r {
            Some((s, next)) => parse_str(data@, at as int) == Some((string_bytes(&s), next as int)),
            None => parse_str(data@, at as int) is None,
        },
{
    match read_bytes(data, at) {
        None => None,
        Some((b, next)) => {
            let ghost bytes = b@;
            match string_from_utf8(b) {
                None => None,
                Some(s) => {
                    proof {
                        vstd::utf8::decode_utf8_encode_utf8(bytes);
                    }
                    Some((s, next))
                },
            }
        },
    }
}

/// Appends a string's UTF-8 bytes preceded by their length.
pub fn push_string(out: &mut Vec<u8>, s: &String)
    requires
        string_bytes(s).len() <= u32::MAX,
    ensures
        final(out)@ == old(out)@ + str_bytes(string_bytes(s)),
{
    push_bytes(out, s.as_str().as_bytes());
}

/// Writes `bytes` over the start of `dst`, keeping its length and the rest of
/// its bytes.
pub fn write_prefix(dst: &mut Vec<u8>, bytes: &Vec<u8>)
    requires
        bytes@.len() <= old(dst)@.len(),
    ensures
        final(dst)@ == overwrite(old(dst)@, bytes@),
{
    let mut i: usize = 0;
    while i < bytes.len()
        invariant
            i <= bytes@.len(),
            bytes@.len() <= old(dst)@.len(),
            dst@.len() == old(dst)@.len(),
            forall|j: int| 0 <= j < i ==> dst@[j] == bytes@[j],
            forall|j: int| i <= j < dst@.len() ==> dst@[j] == old(dst)@[j],
        decreases bytes@.len() - i,
    {
        dst.set(i, bytes[i]);
        i = i + 1;
    }
    assert(dst@ =~= overwrite(old(dst)@, bytes@));
}

/// A slice of `s` within a prefix `b` of it is the same slice of `b`.
pub proof fn lemma_slice_of_prefix(s: Seq<u8>, b: Seq<u8>, x: int, y: int)
    requires
        b.len() <= s.len(),
        s.subrange(0, b.len() as int) == b,
        0 <= x <= y <= b.len(),
    ensures
        s.subrange(x, y) == b.subrange(x, y),
{
    assert forall|i: int| 0 <= i < y - x implies s.subrange(x, y)[i] == b.subrange(x, y)[i] by {
        assert(s.subrange(0, b.len() as int)[x + i] == s[x + i]);
    }
    assert(s.subrange(x, y) =~= b.subrange(x, y));
}

/// An optional key written at `at` reads back.
pub proof fn lemma_parse_opt_key(s: Seq<u8>, at: int, k: Option<Seq<u8>>)
    requires
        0 <= at,
        at + opt_key_bytes(k).len() <= s.len(),
        s.subrange(at, at + opt_key_bytes(k).len()) == opt_key_bytes(k),
        k matches Some(x) ==> x.len() == 32,
    ensures
        parse_opt_key(s, at) == Some((k, at + opt_key_bytes(k).len())),
{
    let b = opt_key_bytes(k);
    assert(s[at] == s.subrange(at, at + b.len())[0]);
    match k {
        None => {},
        Some(x) => {
            assert(s.subrange(at + 1, at + 33) =~= x) by {
                assert forall|i: int| 0 <= i < 32 implies s.subrange(at + 1, at + 33)[i] == x[i] by {
                    assert(s.subrange(at, at + b.len())[1 + i] == s[at + 1 + i]);
                    assert(b[1 + i] == x[i]);
                }
            }
        },
    }
}

/// Four little-endian bytes at `at` read back as the integer written.
pub proof fn lemma_parse_u32(s: Seq<u8>, at: int, x: u32)
    requires
        0 <= at,
        at + 4 <= s.len(),
        s.subrange(at, at + 4) == u32_le(x),
    ensures
        u32_from_le(s.subrange(at, at + 4)) == x,
{
    lemma_u32_round_trip(x);
}

/// A length-prefixed byte string written at `at` reads back.
pub proof fn lemma_parse_bytes(s: Seq<u8>, at: int, b: Seq<u8>)
    requires
        0 <= at,
        b.len() <= u32::MAX,
        at + 4 + b.len() <= s.len(),
        s.subrange(at, at + 4 + b.len()) == str_bytes(b),
    ensures
        parse_bytes(s, at) == Some((b, at + 4 + b.len())),
        valid_utf8(b) ==> parse_str(s, at) == Some((b, at + 4 + b.len())),
{
    let w = str_bytes(b);
    assert(s.subrange(at, at + 4) =~= u32_le(b.len() as u32)) by {
        let u = u32_le(b.len() as u32);
        assert forall|i: int| 0 <= i < 4 implies #[trigger] s.subrange(at, at + 4)[i] == u[i] by {
            assert(s.subrange(at, at + 4 + b.len())[i] == s[at + i]);
        }
    }
    lemma_u32_round_trip(b.len() as u32);
    assert(s.subrange(at + 4, at + 4 + b.len()) =~= b) by {
        assert forall|i: int| 0 <= i < b.len() implies s.subrange(at + 4, at + 4 + b.len())[i]
            == b[i] by {
            assert(s.subrange(at, at + 4 + b.len())[4 + i] == s[at + 4 + i]);
            assert(w[4 + i] == b[i]);
        }
    }
}

/// Eight little-endian bytes at `at` read back as the integer written.
pub proof fn lemma_parse_u64(s: Seq<u8>, at: int, x: u64)
    requires
        0 <= at,
        at + 8 <= s.len(),
        s.subrange(at, at + 8) == u64_le(x),
    ensures
        u64_from_le(s.subrange(at, at + 8)) == x,
{
    lemma_u64_round_trip(x);
}

} // verus!
