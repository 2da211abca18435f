//! The records kept in slots, their byte layouts, and their checked decoding.
//!
//! Every record starts with a type byte. A freshly allocated slot is all zero,
//! so its type byte reads as `Uninitialized`, and decoding it succeeds with
//! default field values.
use crate::address::{
    create_address, derived_address, directory_seeds, directory_seeds_of, find_address, found_view,
    key_opt_view, message_seeds, message_seeds_of, profile_seeds, profile_seeds_of,
    program_address_of, thread_seeds, thread_seeds_of,
};
use crate::codec::{
    opt_key_bytes, parse_bytes, parse_opt_key, parse_str, push_bytes, push_key, push_opt_key,
    push_string, push_u32, push_u64, read_bytes, read_key, read_opt_key, read_string, read_u32,
    read_u64, str_bytes, string_bytes, u32_from_le, u32_le, u64_from_le, u64_le,
};
use crate::codec::{
    lemma_parse_bytes, lemma_parse_opt_key, lemma_parse_u32, lemma_parse_u64,
    lemma_slice_of_prefix, overwrite,
};
use crate::account::Slot;
use crate::error::JabberError;
use vstd::utf8::valid_utf8;
use vstd::prelude::*;

verus! {

/// Most bytes in a profile's name.
pub const MAX_NAME_LENGTH: usize = 32;

/// Most bytes in a profile's bio.
pub const MAX_BIO_LENGTH: usize = 100;

/// Most bytes in a message's payload.
pub const MAX_MSG_LEN: usize = 1000;

/// Size of a profile slot: type, name and bio with their lengths, fee, and
/// the optional newest thread.
pub const MAX_PROFILE_LEN: usize = 1 + 4 + MAX_NAME_LENGTH + 4 + MAX_BIO_LENGTH + 8 + 33;

/// Size of a thread slot: type, counter, two optional links, two keys.
pub const MAX_THREAD_LEN: usize = 1 + 4 + 33 + 33 + 32 + 32;

/// Size of the largest message record: type, kind, timestamp, payload with its
/// length.
pub const MAX_MESSAGE_LEN: usize = 1 + 1 + 8 + 4 + MAX_MSG_LEN;

/// Size of the root directory slot: type and the optional newest thread.
pub const MAX_DIRECTORY_LEN: usize = 1 + 33;

/// The type byte that starts every record.
#[derive(Clone, Copy, Debug, PartialEq, Eq, Structural)]
pub enum Tag {
    Uninitialized,
    Profile,
    Thread,
    Message,
    Jabber,
}

/// The byte that stands for a record type.
pub open spec fn tag_byte(t: Tag) -> u8 {
    match t {
        Tag::Uninitialized => 0,
        Tag::Profile => 1,
        Tag::Thread => 2,
        Tag::Message => 3,
        Tag::Jabber => 4,
    }
}

/// The record type a byte stands for, if any.
pub open spec fn tag_of(b: u8) -> Option<Tag> {
    if b == 0 {
        Some(Tag::Uninitialized)
    } else if b == 1 {
        Some(Tag::Profile)
    } else if b == 2 {
        Some(Tag::Thread)
    } else if b == 3 {
        Some(Tag::Message)
    } else if b == 4 {
        Some(Tag::Jabber)
    } else {
        None
    }
}

impl Tag {
    pub fn to_byte(&self) -> (r: u8)
        ensures
            r == tag_byte(*self),
    {
        match self {
            Tag::Uninitialized => 0,
            Tag::Profile => 1,
            Tag::Thread => 2,
            Tag::Message => 3,
            Tag::Jabber => 4,
        }
    }

    pub fn from_byte(b: u8) -> (r: Option<Tag>)
        ensures
            r == tag_of(b),
    {
        if b == 0 {
            Some(Tag::Uninitialized)
        } else if b == 1 {
            Some(Tag::Profile)
        } else if b == 2 {
            Some(Tag::Thread)
        } else if b == 3 {
            Some(Tag::Message)
        } else if b == 4 {
            Some(Tag::Jabber)
        } else {
            None
        }
    }
}

/// The decode check shared by all records: the slot has exactly the expected
/// length, and its type byte is the expected one or `Uninitialized`.
pub open spec fn header_ok(s: Seq<u8>, expected: Tag, expected_len: nat) -> bool {
    s.len() == expected_len && expected_len > 0 && (s[0] == tag_byte(expected) || s[0] == 0)
}

/// Checks a slot's length and type byte before its record is read.
pub fn check_header(data: &Vec<u8>, expected: Tag, expected_len: usize) -> (r: Result<
    (),
    JabberError,
>)
    ensures
        r is Ok <==> header_ok(data@, expected, expected_len as nat),
        r matches Err(e) ==> e == JabberError::DataTypeMismatch,
{
    if data.len() != expected_len || expected_len == 0 {
        return Err(JabberError::DataTypeMismatch);
    }
    let b = data[0];
    if b != expected.to_byte() && b != 0 {
        return Err(JabberError::DataTypeMismatch);
    }
    Ok(())
}

// ---------------------------------------------------------------------------
// Profile

/// A user's profile: display name and bio, the fee asked per message, and the
/// newest thread the user takes part in (the head of the user's chain of
/// threads).
#[derive(Debug)]
pub struct Profile {
    pub tag: Tag,
    pub name: String,
    pub bio: String,
    pub lamports_per_message: u64,
    pub newest_thread: Option<[u8; 32]>,
}

/// A profile with its strings as their UTF-8 bytes and its key as bytes.
pub struct ProfileView {
    pub tag: Tag,
    pub name: Seq<u8>,
    pub bio: Seq<u8>,
    pub lamports_per_message: u64,
    pub newest_thread: Option<Seq<u8>>,
}

impl View for Profile {
    type V = ProfileView;

    open spec fn view(&self) -> ProfileView {
        ProfileView {
            tag: self.tag,
            name: string_bytes(&self.name),
            bio: string_bytes(&self.bio),
            lamports_per_message: self.lamports_per_message,
            newest_thread: key_opt_view(self.newest_thread),
        }
    }
}

/// The layout of a profile.
pub open spec fn profile_bytes(p: ProfileView) -> Seq<u8> {
    seq![tag_byte(p.tag)] + str_bytes(p.name) + str_bytes(p.bio) + u64_le(p.lamports_per_message)
        + opt_key_bytes(p.newest_thread)
}

/// A profile whose name and bio are within their bounds, and so fits its slot.
pub open spec fn profile_fits(p: ProfileView) -> bool {
    p.name.len() <= MAX_NAME_LENGTH && p.bio.len() <= MAX_BIO_LENGTH
}

/// Reads a profile from the start of `s`; bytes after it are ignored.
pub open spec fn parse_profile(s: Seq<u8>) -> Option<ProfileView> {
    if s.len() < 1 {
        None
    } else {
        match tag_of(s[0]) {
            None => None,
            Some(tag) => match parse_str(s, 1) {
                None => None,
                Some((name, at)) => match parse_str(s, at) {
                    None => None,
                    Some((bio, at)) => if at + 8 > s.len() {
                        None
                    } else {
                        match parse_opt_key(s, at + 8) {
                            None => None,
                            Some((newest_thread, _)) => Some(
                                ProfileView {
                                    tag,
                                    name,
                                    bio,
                                    lamports_per_message: u64_from_le(s.subrange(at, at + 8)),
                                    newest_thread,
                                },
                            ),
                        }
                    },
                },
            },
        }
    }
}

/// What decoding a profile slot gives.
pub open spec fn decode_profile(s: Seq<u8>) -> Result<ProfileView, JabberError> {
    if !header_ok(s, Tag::Profile, MAX_PROFILE_LEN as nat) {
        Err(JabberError::DataTypeMismatch)
    } else {
        match parse_profile(s) {
            Some(p) => if profile_fits(p) {
                Ok(p)
            } else {
                Err(JabberError::DataTypeMismatch)
            },
            None => Err(JabberError::DataTypeMismatch),
        }
    }
}

impl Profile {
    /// The address and bump of the profile of `user_key`.
    pub fn find_from_user_key(user_key: &[u8; 32], program_id: &[u8; 32]) -> (r: Option<
        ([u8; 32], u8),
    >)
        ensures
            found_view(r) == derived_address(profile_seeds(user_key@), program_id@),
    {
        find_address(&profile_seeds_of(user_key), program_id)
    }

    /// The address of the profile of `user_key` for a known bump.
    pub fn create_from_keys(user_key: &[u8; 32], program_id: &[u8; 32], bump: u8) -> (r: Option<
        [u8; 32],
    >)
        ensures
            key_opt_view(r) == program_address_of(
                profile_seeds(user_key@).push(seq![bump]),
                program_id@,
            ),
    {
        create_address(profile_seeds_of(user_key), program_id, bump)
    }

    pub fn new(name: String, bio: String, lamports_per_message: u64) -> (r: Profile)
        ensures
            r.tag == Tag::Profile,
            r.name == name,
            r.bio == bio,
            r.lamports_per_message == lamports_per_message,
            r.newest_thread is None,
    {
        Profile { tag: Tag::Profile, name, bio, lamports_per_message, newest_thread: None }
    }

    /// The record's bytes.
    pub fn to_bytes(&self) -> (r: Vec<u8>)
        requires
            self@.name.len() <= u32::MAX,
            self@.bio.len() <= u32::MAX,
        ensures
            r@ == profile_bytes(self@),
    {
        let mut out: Vec<u8> = Vec::new();
        out.push(self.tag.to_byte());
        push_string(&mut out, &self.name);
        push_string(&mut out, &self.bio);
        push_u64(&mut out, self.lamports_per_message);
        push_opt_key(&mut out, &self.newest_thread);
        assert(out@ =~= profile_bytes(self@));
        out
    }

    /// Writes the record over the start of `dst`; the rest of `dst` is kept.
    pub fn save(&self, dst: &mut Vec<u8>)
        requires
            self@.name.len() <= u32::MAX,
            self@.bio.len() <= u32::MAX,
            profile_bytes(self@).len() <= old(dst)@.len(),
        ensures
            final(dst)@ == crate::codec::overwrite(old(dst)@, profile_bytes(self@)),
    {
        let bytes = self.to_bytes();
        crate::codec::write_prefix(dst, &bytes);
    }

    /// Reads the profile held in a slot.
    pub fn from_account_info(a: &Slot) -> (r: Result<Profile, JabberError>)
        ensures
            match r {
                Ok(x) => decode_profile(a.data@) == Ok::<ProfileView, JabberError>(x@),
                Err(e) => decode_profile(a.data@) == Err::<ProfileView, JabberError>(e),
            },
    {
        Profile::from_bytes(&a.data)
    }

    /// Reads the profile held in a profile slot's bytes.
    pub fn from_bytes(data: &Vec<u8>) -> (r: Result<Profile, JabberError>)
        ensures
            match r {
                Ok(p) => decode_profile(data@) == Ok::<ProfileView, JabberError>(p@),
                Err(e) => decode_profile(data@) == Err::<ProfileView, JabberError>(e),
            },
    {
        check_header(data, Tag::Profile, MAX_PROFILE_LEN)?;
        let tag = match Tag::from_byte(data[0]) {
            Some(t) => t,
            None => return Err(JabberError::DataTypeMismatch),
        };
        let (name, at) = match read_string(data, 1) {
            Some(x) => x,
            None => return Err(JabberError::DataTypeMismatch),
        };
        let (bio, at) = match read_string(data, at) {
            Some(x) => x,
            None => return Err(JabberError::DataTypeMismatch),
        };
        if at > data.len() || data.len() - at < 8 {
            return Err(JabberError::DataTypeMismatch);
        }
        let lamports_per_message = read_u64(data, at);
        let (newest_thread, _) = match read_opt_key(data, at + 8) {
            Some(x) => x,
            None => return Err(JabberError::DataTypeMismatch),
        };
        if name.as_str().as_bytes().len() > MAX_NAME_LENGTH || bio.as_str().as_bytes().len()
            > MAX_BIO_LENGTH {
            return Err(JabberError::DataTypeMismatch);
        }
        Ok(Profile { tag, name, bio, lamports_per_message, newest_thread })
    }
}

// ---------------------------------------------------------------------------
// Thread

/// A conversation between two users. `backward_link_1` and `backward_link_2`
/// point to the thread that was newest for `user_1` and for `user_2` before
/// this one, forming each user's chain of threads.
#[derive(Debug)]
pub struct Thread {
    pub tag: Tag,
    pub msg_count: u32,
    pub backward_link_1: Option<[u8; 32]>,
    pub backward_link_2: Option<[u8; 32]>,
    pub user_1: [u8; 32],
    pub user_2: [u8; 32],
}

/// A thread with its keys as bytes.
pub struct ThreadView {
    pub tag: Tag,
    pub msg_count: u32,
    pub backward_link_1: Option<Seq<u8>>,
    pub backward_link_2: Option<Seq<u8>>,
    pub user_1: Seq<u8>,
    pub user_2: Seq<u8>,
}

impl View for Thread {
    type V = ThreadView;

    open spec fn view(&self) -> ThreadView {
        ThreadView {
            tag: self.tag,
            msg_count: self.msg_count,
            backward_link_1: key_opt_view(self.backward_link_1),
            backward_link_2: key_opt_view(self.backward_link_2),
            user_1: self.user_1@,
            user_2: self.user_2@,
        }
    }
}

/// The layout of a thread.
pub open spec fn thread_bytes(t: ThreadView) -> Seq<u8> {
    seq![tag_byte(t.tag)] + u32_le(t.msg_count) + opt_key_bytes(t.backward_link_1) + opt_key_bytes(
        t.backward_link_2,
    ) + t.user_1 + t.user_2
}

/// Reads a thread from the start of `s`; bytes after it are ignored.
pub open spec fn parse_thread(s: Seq<u8>) -> Option<ThreadView> {
    if s.len() < 5 {
        None
    } else {
        match tag_of(s[0]) {
            None => None,
            Some(tag) => match parse_opt_key(s, 5) {
                None => None,
                Some((backward_link_1, at)) => match parse_opt_key(s, at) {
                    None => None,
                    Some((backward_link_2, at)) => if at + 64 > s.len() {
                        None
                    } else {
                        Some(
                            ThreadView {
                                tag,
                                msg_count: u32_from_le(s.subrange(1, 5)),
                                backward_link_1,
                                backward_link_2,
                                user_1: s.subrange(at, at + 32),
                                user_2: s.subrange(at + 32, at + 64),
                            },
                        )
                    },
                },
            },
        }
    }
}

/// What decoding a thread slot gives.
pub open spec fn decode_thread(s: Seq<u8>) -> Result<ThreadView, JabberError> {
    if !header_ok(s, Tag::Thread, MAX_THREAD_LEN as nat) {
        Err(JabberError::DataTypeMismatch)
    } else {
        match parse_thread(s) {
            Some(t) => Ok(t),
            None => Err(JabberError::DataTypeMismatch),
        }
    }
}

impl Thread {
    /// The address and bump of the one thread between two users, whichever
    /// order they are given in.
    pub fn find_from_users_keys(user_1: &[u8; 32], user_2: &[u8; 32], program_id: &[u8; 32]) -> (r:
        Option<([u8; 32], u8)>)
        ensures
            found_view(r) == derived_address(thread_seeds(user_1@, user_2@), program_id@),
    {
        find_address(&thread_seeds_of(user_1, user_2), program_id)
    }

    /// The address of the thread between two users for a known bump.
    pub fn create_from_user_keys(
        user_1: &[u8; 32],
        user_2: &[u8; 32],
        program_id: &[u8; 32],
        bump: u8,
    ) -> (r: Option<[u8; 32]>)
        ensures
            key_opt_view(r) == program_address_of(
                thread_seeds(user_1@, user_2@).push(seq![bump]),
                program_id@,
            ),
    {
        create_address(thread_seeds_of(user_1, user_2), program_id, bump)
    }

    /// A new thread between two users, with no message yet.
    pub fn new(user_1: [u8; 32], user_2: [u8; 32]) -> (r: Thread)
        ensures
            r.tag == Tag::Thread,
            r.msg_count == 0,
            r.backward_link_1 is None,
            r.backward_link_2 is None,
            r.user_1 == user_1,
            r.user_2 == user_2,
    {
        Thread {
            tag: Tag::Thread,
            msg_count: 0,
            backward_link_1: None,
            backward_link_2: None,
            user_1,
            user_2,
        }
    }

    /// Counts one more message.
    pub fn increment_msg_count(&mut self)
        requires
            old(self).msg_count < u32::MAX,
        ensures
            final(self).msg_count == old(self).msg_count + 1,
            final(self).tag == old(self).tag,
            final(self).backward_link_1 == old(self).backward_link_1,
            final(self).backward_link_2 == old(self).backward_link_2,
            final(self).user_1 == old(self).user_1,
            final(self).user_2 == old(self).user_2,
    {
        self.msg_count = self.msg_count + 1;
    }

    /// The record's bytes.
    pub fn to_bytes(&self) -> (r: Vec<u8>)
        ensures
            r@ == thread_bytes(self@),
            r@.len() <= MAX_THREAD_LEN,
    {
        let mut out: Vec<u8> = Vec::new();
        out.push(self.tag.to_byte());
        push_u32(&mut out, self.msg_count);
        push_opt_key(&mut out, &self.backward_link_1);
        push_opt_key(&mut out, &self.backward_link_2);
        push_key(&mut out, &self.user_1);
        push_key(&mut out, &self.user_2);
        assert(out@ =~= thread_bytes(self@));
        out
    }

    /// Writes the record over the start of `dst`; the rest of `dst` is kept.
    pub fn save(&self, dst: &mut Vec<u8>)
        requires
            MAX_THREAD_LEN <= old(dst)@.len(),
        ensures
            final(dst)@ == crate::codec::overwrite(old(dst)@, thread_bytes(self@)),
    {
        let bytes = self.to_bytes();
        crate::codec::write_prefix(dst, &bytes);
    }

    /// Reads the thread held in a slot.
    pub fn from_account_info(a: &Slot) -> (r: Result<Thread, JabberError>)
        ensures
            match r {
                Ok(x) => decode_thread(a.data@) == Ok::<ThreadView, JabberError>(x@),
                Err(e) => decode_thread(a.data@) == Err::<ThreadView, JabberError>(e),
            },
    {
        Thread::from_bytes(&a.data)
    }

    /// Reads the thread held in a thread slot's bytes.
    pub fn from_bytes(data: &Vec<u8>) -> (r: Result<Thread, JabberError>)
        ensures
            match r {
                Ok(t) => decode_thread(data@) == Ok::<ThreadView, JabberError>(t@),
                Err(e) => decode_thread(data@) == Err::<ThreadView, JabberError>(e),
            },
    {
        check_header(data, Tag::Thread, MAX_THREAD_LEN)?;
        let tag = match Tag::from_byte(data[0]) {
            Some(t) => t,
            None => return Err(JabberError::DataTypeMismatch),
        };
        let msg_count = read_u32(data, 1);
        let (backward_link_1, at) = match read_opt_key(data, 5) {
            Some(x) => x,
            None => return Err(JabberError::DataTypeMismatch),
        };
        let (backward_link_2, at) = match read_opt_key(data, at) {
            Some(x) => x,
            None => return Err(JabberError::DataTypeMismatch),
        };
        if at > data.len() || data.len() - at < 64 {
            return Err(JabberError::DataTypeMismatch);
        }
        let user_1 = read_key(data, at);
        let user_2 = read_key(data, at + 32);
        Ok(Thread { tag, msg_count, backward_link_1, backward_link_2, user_1, user_2 })
    }
}

// ---------------------------------------------------------------------------
// Message

/// Whether a message's payload is encrypted by its participants.
#[derive(Clone, Copy, Debug, PartialEq, Eq, Structural)]
pub enum MessageType {
    Encrypted,
    Unencrypted,
}

/// The byte that stands for a message kind.
pub open spec fn kind_byte(k: MessageType) -> u8 {
    match k {
        MessageType::Encrypted => 0,
        MessageType::Unencrypted => 1,
    }
}

/// The message kind a byte stands for, if any.
pub open spec fn kind_of(b: u8) -> Option<MessageType> {
    if b == 0 {
        Some(MessageType::Encrypted)
    } else if b == 1 {
        Some(MessageType::Unencrypted)
    } else {
        None
    }
}

impl MessageType {
    pub fn to_byte(&self) -> (r: u8)
        ensures
            r == kind_byte(*self),
    {
        match self {
            MessageType::Encrypted => 0,
            MessageType::Unencrypted => 1,
        }
    }

    pub fn from_byte(b: u8) -> (r: Option<MessageType>)
        ensures
            r == kind_of(b),
    {
        if b == 0 {
            Some(MessageType::Encrypted)
        } else if b == 1 {
            Some(MessageType::Unencrypted)
        } else {
            None
        }
    }
}

/// One message of a thread, written once and never changed.
#[derive(Debug)]
pub struct Message {
    pub tag: Tag,
    pub kind: MessageType,
    pub timestamp: i64,
    pub msg: Vec<u8>,
}

/// A message with its payload as bytes.
pub struct MessageView {
    pub tag: Tag,
    pub kind: MessageType,
    pub timestamp: i64,
    pub msg: Seq<u8>,
}

impl View for Message {
    type V = MessageView;

    open spec fn view(&self) -> MessageView {
        MessageView { tag: self.tag, kind: self.kind, timestamp: self.timestamp, msg: self.msg@ }
    }
}

/// The layout of a message.
pub open spec fn message_bytes(m: MessageView) -> Seq<u8> {
    seq![tag_byte(m.tag), kind_byte(m.kind)] + crate::codec::i64_le(m.timestamp) + str_bytes(m.msg)
}

/// Reads a message from the start of `s`; bytes after it are ignored.
pub open spec fn parse_message(s: Seq<u8>) -> Option<MessageView> {
    if s.len() < 10 {
        None
    } else {
        match (tag_of(s[0]), kind_of(s[1])) {
            (Some(tag), Some(kind)) => match parse_bytes(s, 10) {
                None => None,
                Some((msg, _)) => Some(
                    MessageView {
                        tag,
                        kind,
                        timestamp: u64_from_le(s.subrange(2, 10)) as i64,
                        msg,
                    },
                ),
            },
            _ => None,
        }
    }
}

/// What decoding a message slot gives. A message slot is exactly the size of
/// the largest message record; the record fills its start.
pub open spec fn decode_message(s: Seq<u8>) -> Result<MessageView, JabberError> {
    if !header_ok(s, Tag::Message, MAX_MESSAGE_LEN as nat) {
        Err(JabberError::DataTypeMismatch)
    } else {
        match parse_message(s) {
            Some(m) => Ok(m),
            None => Err(JabberError::DataTypeMismatch),
        }
    }
}

impl Message {
    /// The address and bump of message `index` of the thread between two
    /// users.
    pub fn find_from_keys(index: u32, from_key: &[u8; 32], to_key: &[u8; 32], program_id: &[u8; 32]) -> (r:
        Option<([u8; 32], u8)>)
        ensures
            found_view(r) == derived_address(message_seeds(index, from_key@, to_key@), program_id@),
    {
        find_address(&message_seeds_of(index, from_key, to_key), program_id)
    }

    /// The address of message `index` of the thread between two users for a
    /// known bump.
    pub fn create_from_keys(
        index: u32,
        from_key: &[u8; 32],
        to_key: &[u8; 32],
        program_id: &[u8; 32],
        bump: u8,
    ) -> (r: Option<[u8; 32]>)
        ensures
            key_opt_view(r) == program_address_of(
                message_seeds(index, from_key@, to_key@).push(seq![bump]),
                program_id@,
            ),
    {
        create_address(message_seeds_of(index, from_key, to_key), program_id, bump)
    }

    /// The number of bytes the record takes.
    pub fn get_len(&self) -> (r: usize)
        requires
            self.msg@.len() <= MAX_MSG_LEN,
        ensures
            r == message_bytes(self@).len(),
    {
        1 + 1 + 8 + 4 + self.msg.len()
    }

    pub fn new(kind: MessageType, timestamp: i64, msg: Vec<u8>) -> (r: Message)
        ensures
            r.tag == Tag::Message,
            r.kind == kind,
            r.timestamp == timestamp,
            r.msg == msg,
    {
        Message { tag: Tag::Message, kind, timestamp, msg }
    }

    /// The record's bytes.
    pub fn to_bytes(&self) -> (r: Vec<u8>)
        requires
            self.msg@.len() <= u32::MAX,
        ensures
            r@ == message_bytes(self@),
    {
        let mut out: Vec<u8> = Vec::new();
        out.push(self.tag.to_byte());
        out.push(self.kind.to_byte());
        push_u64(&mut out, self.timestamp as u64);
        push_bytes(&mut out, self.msg.as_slice());
        assert(out@ =~= message_bytes(self@));
        out
    }

    /// Writes the record over the start of `dst`; the rest of `dst` is kept.
    pub fn save(&self, dst: &mut Vec<u8>)
        requires
            self.msg@.len() <= u32::MAX,
            message_bytes(self@).len() <= old(dst)@.len(),
        ensures
            final(dst)@ == crate::codec::overwrite(old(dst)@, message_bytes(self@)),
    {
        let bytes = self.to_bytes();
        crate::codec::write_prefix(dst, &bytes);
    }

    /// Reads the message held in a slot.
    pub fn from_account_info(a: &Slot) -> (r: Result<Message, JabberError>)
        ensures
            match r {
                Ok(x) => decode_message(a.data@) == Ok::<MessageView, JabberError>(x@),
                Err(e) => decode_message(a.data@) == Err::<MessageView, JabberError>(e),
            },
    {
        Message::from_bytes(&a.data)
    }

    /// Reads the message held in a message slot's bytes.
    pub fn from_bytes(data: &Vec<u8>) -> (r: Result<Message, JabberError>)
        ensures
            match r {
                Ok(m) => decode_message(data@) == Ok::<MessageView, JabberError>(m@),
                Err(e) => decode_message(data@) == Err::<MessageView, JabberError>(e),
            },
    {
        check_header(data, Tag::Message, MAX_MESSAGE_LEN)?;
        let tag = match Tag::from_byte(data[0]) {
            Some(t) => t,
            None => return Err(JabberError::DataTypeMismatch),
        };
        let kind = match MessageType::from_byte(data[1]) {
            Some(k) => k,
            None => return Err(JabberError::DataTypeMismatch),
        };
        let timestamp = read_u64(data, 2) as i64;
        let (msg, _) = match read_bytes(data, 10) {
            Some(x) => x,
            None => return Err(JabberError::DataTypeMismatch),
        };
        Ok(Message { tag, kind, timestamp, msg })
    }
}

// ---------------------------------------------------------------------------
// Root directory

/// The one root directory: the head of the chain of threads whose recipient
/// had no profile when the thread got its first message.
#[derive(Debug)]
pub struct RootDirectory {
    pub tag: Tag,
    pub unregistered_newest_thread: Option<[u8; 32]>,
}

/// The root directory with its key as bytes.
pub struct RootDirectoryView {
    pub tag: Tag,
    pub unregistered_newest_thread: Option<Seq<u8>>,
}

impl View for RootDirectory {
    type V = RootDirectoryView;

    open spec fn view(&self) -> RootDirectoryView {
        RootDirectoryView {
            tag: self.tag,
            unregistered_newest_thread: key_opt_view(self.unregistered_newest_thread),
        }
    }
}

/// The layout of the root directory.
pub open spec fn directory_bytes(d: RootDirectoryView) -> Seq<u8> {
    seq![tag_byte(d.tag)] + opt_key_bytes(d.unregistered_newest_thread)
}

/// Reads the root directory from the start of `s`.
pub open spec fn parse_directory(s: Seq<u8>) -> Option<RootDirectoryView> {
    if s.len() < 1 {
        None
    } else {
        match tag_of(s[0]) {
            None => None,
            Some(tag) => match parse_opt_key(s, 1) {
                None => None,
                Some((unregistered_newest_thread, _)) => Some(
                    RootDirectoryView { tag, unregistered_newest_thread },
                ),
            },
        }
    }
}

/// What decoding the root directory slot gives.
pub open spec fn decode_directory(s: Seq<u8>) -> Result<RootDirectoryView, JabberError> {
    if !header_ok(s, Tag::Jabber, MAX_DIRECTORY_LEN as nat) {
        Err(JabberError::DataTypeMismatch)
    } else {
        match parse_directory(s) {
            Some(d) => Ok(d),
            None => Err(JabberError::DataTypeMismatch),
        }
    }
}

impl RootDirectory {
    /// The address and bump of the root directory of `program_id`.
    pub fn find_from_program_id(program_id: &[u8; 32]) -> (r: Option<([u8; 32], u8)>)
        ensures
            found_view(r) == derived_address(directory_seeds(program_id@), program_id@),
    {
        find_address(&directory_seeds_of(program_id), program_id)
    }

    /// The record's bytes.
    pub fn to_bytes(&self) -> (r: Vec<u8>)
        ensures
            r@ == directory_bytes(self@),
    {
        let mut out: Vec<u8> = Vec::new();
        out.push(self.tag.to_byte());
        push_opt_key(&mut out, &self.unregistered_newest_thread);
        assert(out@ =~= directory_bytes(self@));
        out
    }

    /// Writes the record over the start of `dst`; the rest of `dst` is kept.
    pub fn save(&self, dst: &mut Vec<u8>)
        requires
            MAX_DIRECTORY_LEN <= old(dst)@.len(),
        ensures
            final(dst)@ == crate::codec::overwrite(old(dst)@, directory_bytes(self@)),
    {
        let bytes = self.to_bytes();
        crate::codec::write_prefix(dst, &bytes);
    }

    /// Reads the root directory held in its slot's bytes.
    pub fn from_bytes(data: &Vec<u8>) -> (r: Result<RootDirectory, JabberError>)
        ensures
            match r {
                Ok(d) => decode_directory(data@) == Ok::<RootDirectoryView, JabberError>(d@),
                Err(e) => decode_directory(data@) == Err::<RootDirectoryView, JabberError>(e),
            },
    {
        check_header(data, Tag::Jabber, MAX_DIRECTORY_LEN)?;
        let tag = match Tag::from_byte(data[0]) {
            Some(t) => t,
            None => return Err(JabberError::DataTypeMismatch),
        };
        let (unregistered_newest_thread, _) = match read_opt_key(data, 1) {
            Some(x) => x,
            None => return Err(JabberError::DataTypeMismatch),
        };
        Ok(RootDirectory { tag, unregistered_newest_thread })
    }
}

// ---------------------------------------------------------------------------
// Reading back what was written

/// An optional key of the right length.
pub open spec fn key_wf(k: Option<Seq<u8>>) -> bool {
    k matches Some(x) ==> x.len() == 32
}

/// A thread whose keys have the right length.
pub open spec fn thread_wf(t: ThreadView) -> bool {
    key_wf(t.backward_link_1) && key_wf(t.backward_link_2) && t.user_1.len() == 32
        && t.user_2.len() == 32
}

/// A profile that can be stored: UTF-8 name and bio within their bounds, and
/// a key of the right length.
pub open spec fn profile_wf(p: ProfileView) -> bool {
    profile_fits(p) && valid_utf8(p.name) && valid_utf8(p.bio) && key_wf(p.newest_thread)
}

/// A thread read from a slot has keys of the right length.
pub proof fn lemma_decoded_thread_wf(s: Seq<u8>)
    ensures
        decode_thread(s) matches Ok(t) ==> thread_wf(t),
{
}

/// A profile read from a slot can be stored again.
pub proof fn lemma_decoded_profile_wf(s: Seq<u8>)
    ensures
        decode_profile(s) matches Ok(p) ==> profile_wf(p),
{
}

/// The root directory read from its slot holds a key of the right length.
pub proof fn lemma_decoded_directory_wf(s: Seq<u8>)
    ensures
        decode_directory(s) matches Ok(d) ==> key_wf(d.unregistered_newest_thread),
{
}

/// A thread written over a thread slot reads back unchanged.
pub proof fn lemma_thread_round_trip(t: ThreadView, old: Seq<u8>)
    requires
        thread_wf(t),
        old.len() == MAX_THREAD_LEN,
        t.tag == Tag::Thread,
    ensures
        decode_thread(overwrite(old, thread_bytes(t))) == Ok::<ThreadView, JabberError>(t),
{
    let b = thread_bytes(t);
    let s = overwrite(old, b);
    let l1 = opt_key_bytes(t.backward_link_1);
    let l2 = opt_key_bytes(t.backward_link_2);
    let o2: int = 5 + l1.len() as int;
    let o3: int = o2 + l2.len();
    assert(b.len() == o3 + 64);
    assert(s.subrange(0, b.len() as int) =~= b);
    assert(s[0] == b[0]);
    lemma_slice_of_prefix(s, b, 1, 5);
    assert(b.subrange(1, 5) =~= u32_le(t.msg_count));
    lemma_parse_u32(s, 1, t.msg_count);
    lemma_slice_of_prefix(s, b, 5, o2);
    assert(b.subrange(5, o2) =~= l1);
    lemma_parse_opt_key(s, 5, t.backward_link_1);
    lemma_slice_of_prefix(s, b, o2, o3);
    assert(b.subrange(o2, o3) =~= l2);
    lemma_parse_opt_key(s, o2, t.backward_link_2);
    lemma_slice_of_prefix(s, b, o3, o3 + 32);
    assert(b.subrange(o3, o3 + 32) =~= t.user_1);
    lemma_slice_of_prefix(s, b, o3 + 32, o3 + 64);
    assert(b.subrange(o3 + 32, o3 + 64) =~= t.user_2);
}

/// A profile written over a profile slot reads back unchanged.
pub proof fn lemma_profile_round_trip(p: ProfileView, old: Seq<u8>)
    requires
        profile_wf(p),
        old.len() == MAX_PROFILE_LEN,
        p.tag == Tag::Profile,
    ensures
        decode_profile(overwrite(old, profile_bytes(p))) == Ok::<ProfileView, JabberError>(p),
{
    let b = profile_bytes(p);
    let s = overwrite(old, b);
    let n = str_bytes(p.name);
    let o2: int = 1 + n.len() as int;
    let o3: int = o2 + str_bytes(p.bio).len();
    let k = opt_key_bytes(p.newest_thread);
    assert(b.len() == o3 + 8 + k.len());
    assert(s.subrange(0, b.len() as int) =~= b);
    assert(s[0] == b[0]);
    lemma_slice_of_prefix(s, b, 1, o2);
    assert(b.subrange(1, o2) =~= n);
    lemma_parse_bytes(s, 1, p.name);
    lemma_slice_of_prefix(s, b, o2, o3);
    assert(b.subrange(o2, o3) =~= str_bytes(p.bio));
    lemma_parse_bytes(s, o2, p.bio);
    lemma_slice_of_prefix(s, b, o3, o3 + 8);
    assert(b.subrange(o3, o3 + 8) =~= u64_le(p.lamports_per_message));
    lemma_parse_u64(s, o3, p.lamports_per_message);
    lemma_slice_of_prefix(s, b, o3 + 8, o3 + 8 + k.len() as int);
    assert(b.subrange(o3 + 8, o3 + 8 + k.len() as int) =~= k);
    lemma_parse_opt_key(s, o3 + 8, p.newest_thread);
}

/// The root directory written over its slot reads back unchanged.
pub proof fn lemma_directory_round_trip(d: RootDirectoryView, old: Seq<u8>)
    requires
        key_wf(d.unregistered_newest_thread),
        old.len() == MAX_DIRECTORY_LEN,
        d.tag == Tag::Jabber,
    ensures
        decode_directory(overwrite(old, directory_bytes(d))) == Ok::<
            RootDirectoryView,
            JabberError,
        >(d),
{
    let b = directory_bytes(d);
    let s = overwrite(old, b);
    let k = opt_key_bytes(d.unregistered_newest_thread);
    assert(s.subrange(0, b.len() as int) =~= b);
    assert(s[0] == b[0]);
    lemma_slice_of_prefix(s, b, 1, 1 + k.len() as int);
    assert(b.subrange(1, 1 + k.len() as int) =~= k);
    lemma_parse_opt_key(s, 1, d.unregistered_newest_thread);
}

/// A message written over the start of a message slot reads back unchanged.
pub proof fn lemma_message_round_trip(m: MessageView, old: Seq<u8>)
    requires
        m.msg.len() <= MAX_MSG_LEN,
        m.tag == Tag::Message,
        old.len() == MAX_MESSAGE_LEN,
    ensures
        decode_message(overwrite(old, message_bytes(m))) == Ok::<MessageView, JabberError>(m),
{
    let b = message_bytes(m);
    let s = overwrite(old, b);
    assert(s.subrange(0, b.len() as int) =~= b);
    assert(s[0] == b[0]);
    assert(s[1] == b[1]);
    lemma_slice_of_prefix(s, b, 2, 10);
    assert(b.subrange(2, 10) =~= crate::codec::i64_le(m.timestamp));
    crate::codec::lemma_i64_round_trip(m.timestamp);
    lemma_slice_of_prefix(s, b, 10, b.len() as int);
    assert(b.subrange(10, b.len() as int) =~= str_bytes(m.msg));
    lemma_parse_bytes(s, 10, m.msg);
}

} // verus!
