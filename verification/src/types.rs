//! The records of the board and the values they are made of.

use crate::conf::USERNAME_MAX_LENGTH;
use crate::masked_oid::RecordId;
use blake2::digest::consts::U16;
use blake2::{Blake2b, Digest};
use rand::RngCore;
use vstd::prelude::*;
use vstd::string::StringSliceAdditionalSpecFns;
use vstd::utf8::encode_utf8;

verus! {

/// Whether the byte is an ASCII letter or digit.
pub open spec fn is_ascii_alphanumeric(byte: u8) -> bool {
    ||| 0x30 <= byte <= 0x39
    ||| 0x41 <= byte <= 0x5a
    ||| 0x61 <= byte <= 0x7a
}

/// Whether the bytes spell a username: 1 to 32 ASCII letters and digits.
pub open spec fn is_username(bytes: Seq<u8>) -> bool {
    &&& 1 <= bytes.len() <= USERNAME_MAX_LENGTH
    &&& forall|i: int| 0 <= i < bytes.len() ==> is_ascii_alphanumeric(#[trigger] bytes[i])
}

/// The name of a user: 1 to 32 ASCII letters and digits.
#[derive(Clone, Debug, PartialEq, Eq, PartialOrd, Ord, Hash)]
pub struct Username(String);

/// A string that is no username.
#[derive(Clone, Copy, Debug)]
pub struct UsernameInvalid;

impl View for Username {
    type V = Seq<char>;

    closed spec fn view(&self) -> Seq<char> {
        self.0@
    }
}

impl Username {
    /// Takes a string for a username if it spells one.
    pub fn try_from(s: String) -> (result: Result<Username, UsernameInvalid>)
        ensures
            is_username(encode_utf8(s@)) ==> (result matches Ok(username) && username@ == s@),
            !is_username(encode_utf8(s@)) ==> result is Err,
    {
        let bytes = s.as_str().as_bytes();
        if bytes.len() < 1 || bytes.len() > USERNAME_MAX_LENGTH {
            return Err(UsernameInvalid);
        }
        let mut i: usize = 0;
        while i < bytes.len()
            invariant
                i <= bytes.len(),
                bytes@ == encode_utf8(s@),
                forall|j: int| 0 <= j < i ==> is_ascii_alphanumeric(#[trigger] bytes@[j]),
            decreases bytes.len() - i,
        {
            let byte = bytes[i];
            let alphanumeric = (0x30 <= byte && byte <= 0x39) || (0x41 <= byte && byte <= 0x5a) || (
            0x61 <= byte && byte <= 0x7a);
            if !alphanumeric {
                return Err(UsernameInvalid);
            }
            i += 1;
        }
        Ok(Username(s))
    }

    /// The username as text.
    pub fn as_ref(&self) -> (text: &str)
        ensures
            text@ == self@,
    {
        self.0.as_str()
    }

    /// The username as a string of its own.
    pub fn into_string(self) -> (text: String)
        ensures
            text@ == self@,
    {
        self.0
    }
}

impl UsernameInvalid {
    /// The message shown for a string that is no username.
    pub fn message(&self) -> (text: String)
        ensures
            text@ == "invalid username"@,
    {
        String::from_str("invalid username")
    }
}

/// The various years of study the creator of a post can be.
#[derive(Clone, Copy, Debug)]
pub enum PosterYearOfStudy {
    One,
    Two,
    Three,
    Four,
    Five,
    Graduate,
    PhD,
    Alumni,
}

/// The various faculties the creator of a post can be associated with.
#[derive(Clone, Copy, Debug)]
pub enum PosterFaculty {
    Business,
    Medicine,
    SocialScience,
    History,
    Engineering,
    ComputerScience,
    Psychology,
    Communication,
    Arts,
    Education,
}

/// A school that users belong to.
#[derive(Clone, Debug)]
pub struct School {
    pub id: String,
    pub name: String,
}

/// A user of the board.
#[derive(Clone, Debug)]
pub struct User {
    pub id: RecordId,
    pub username: Username,
    /// Year of study of the poster.
    pub year_of_study: Option<PosterYearOfStudy>,
    /// Faculty of the poster.
    pub faculty: Option<PosterFaculty>,
    /// School of the user.
    pub school_id: String,
    /// Watched universities of the user.
    pub watched_school_ids: Vec<String>,
}

/// A session of a user.
#[derive(Clone, Debug)]
pub struct Session {
    pub id: SessionTokenHash,
    pub user: RecordId,
    /// When the session was last used, in milliseconds since the Unix epoch.
    pub last_used: i64,
}

/// A comment as it is stored.
#[derive(Clone, Debug)]
pub struct Comment {
    pub id: RecordId,
    pub owner: RecordId,
    pub username: String,
    pub parent_post: RecordId,
    pub parent_comments: Vec<RecordId>,
    pub text: String,
    pub deleted: bool,
    pub replies: i32,
    pub votes_up: i32,
    pub votes_down: i32,
}

/// A post as it is stored.
#[derive(Clone, Debug)]
pub struct Post {
    pub id: RecordId,
    pub sequential_id: i32,
    pub owner: RecordId,
    pub text: String,
    pub votes_up: i32,
    pub votes_down: i32,
    pub absolute_score: i32,
}

/// The current vote of a user on a piece of content.
#[derive(Clone, Copy, Debug)]
pub struct Vote {
    pub content: RecordId,
    pub user: RecordId,
    pub value: i32,
}

/// Whether the byte can stand in a bearer token: a letter from `A` to `P`,
/// in either case.
pub open spec fn is_token_byte(byte: u8) -> bool {
    0x61 <= (byte | 32) <= 0x70
}

/// Whether the bytes are a bearer token: 24 letters from `A` to `P`.
pub open spec fn is_token(bytes: Seq<u8>) -> bool {
    &&& bytes.len() == 24
    &&& forall|i: int| 0 <= i < bytes.len() ==> is_token_byte(#[trigger] bytes[i])
}

/// The letter that a random byte gives.
pub open spec fn token_byte(raw: u8) -> u8 {
    ((raw & 0x2f) + 0x41) as u8
}

/// The 16-byte BLAKE2b digest of a message.
pub uninterp spec fn blake2b_128(message: Seq<u8>) -> Seq<u8>;

/// A 120-bit bearer token.
#[derive(Clone, Copy, Debug)]
pub struct SessionToken([u8; 24]);

/// A string that is no bearer token.
#[derive(Clone, Copy, Debug)]
pub struct InvalidTokenFormat;

/// A 128-bit hash of a [`SessionToken`].
#[derive(Clone, Copy, Debug)]
pub struct SessionTokenHash([u8; 16]);

/// A hash that is not 16 bytes long.
#[derive(Clone, Copy, Debug)]
pub struct InvalidHashLength;

impl View for SessionToken {
    type V = Seq<u8>;

    closed spec fn view(&self) -> Seq<u8> {
        self.0@
    }
}

impl View for SessionTokenHash {
    type V = Seq<u8>;

    closed spec fn view(&self) -> Seq<u8> {
        self.0@
    }
}

/// Calls `RngCore::fill_bytes` of the `rand` crate on `rand::thread_rng()`.
/// Trusted: nothing but that 24 bytes come back.
#[verifier::external_body]
fn random_bytes() -> (raw: [u8; 24]) {
    let mut raw = [0u8; 24];
    rand::thread_rng().fill_bytes(&mut raw);
    raw
}

/// Calls `Blake2b::<U16>::new`, `Digest::update` and `Digest::finalize` of the
/// `blake2` crate. Trusted: the result is the 16-byte BLAKE2b digest of the
/// message.
#[verifier::external_body]
fn hash_token(message: &[u8; 24]) -> (digest: [u8; 16])
    ensures
        digest@ == blake2b_128(message@),
{
    let mut hasher = Blake2b::<U16>::new();
    hasher.update(message);
    hasher.finalize().into()
}

/// Calls `String::from_utf8` of std. Trusted: for ASCII bytes the string has
/// one character for each byte, with its value.
#[verifier::external_body]
fn ascii_text(bytes: Vec<u8>) -> (text: String)
    requires
        forall|i: int| 0 <= i < bytes@.len() ==> bytes@[i] < 0x80,
    ensures
        text@ == Seq::new(bytes@.len(), |i: int| bytes@[i] as char),
{
    String::from_utf8(bytes).unwrap()
}

impl SessionToken {
    /// Every token is 24 letters from `A` to `P`, in either case.
    #[verifier::type_invariant]
    spec fn well_formed(&self) -> bool {
        is_token(self.0@)
    }

    /// The token that 24 random bytes give: of each byte the bits 0 to 3 and
    /// the bit 5 are kept and `A` is added.
    pub fn from_random(raw: [u8; 24]) -> (token: SessionToken)
        ensures
            token@.len() == 24,
            forall|i: int| 0 <= i < 24 ==> token@[i] == token_byte(#[trigger] raw@[i]),
            is_token(token@),
    {
        let mut bytes = raw;
        let mut i: usize = 0;
        while i < 24
            invariant
                i <= 24,
                forall|j: int| 0 <= j < i ==> bytes@[j] == token_byte(#[trigger] raw@[j]),
                forall|j: int| 0 <= j < i ==> is_token_byte(#[trigger] bytes@[j]),
                forall|j: int| i <= j < 24 ==> bytes@[j] == raw@[j],
            decreases 24 - i,
        {
            let c: u8 = raw[i];
            assert((c & 0x2f) <= 0x2f) by (bit_vector);
            assert(0x61 <= ((((c & 0x2f) + 0x41) as u8) | 32) <= 0x70) by (bit_vector);
            bytes[i] = (c & 0x2f) + 0x41;
            i += 1;
        }
        SessionToken(bytes)
    }

    /// A fresh random token.
    pub fn generate() -> (token: SessionToken)
        ensures
            is_token(token@),
    {
        SessionToken::from_random(random_bytes())
    }

    /// The hash under which the token's session is stored.
    pub fn hash(&self) -> (hash: SessionTokenHash)
        ensures
            hash@ == blake2b_128(self@),
    {
        SessionTokenHash(hash_token(&self.0))
    }

    /// The token as text.
    pub fn to_text(&self) -> (text: String)
        ensures
            is_token(self@),
            text@ == Seq::new(24, |i: int| self@[i] as char),
    {
        proof {
            use_type_invariant(self);
        }
        let mut bytes: Vec<u8> = Vec::new();
        let mut i: usize = 0;
        while i < 24
            invariant
                i <= 24,
                is_token(self.0@),
                bytes@.len() == i,
                forall|j: int| 0 <= j < i ==> bytes@[j] == self.0@[j],
                forall|j: int| 0 <= j < i ==> bytes@[j] < 0x80,
            decreases 24 - i,
        {
            let byte: u8 = self.0[i];
            assert(is_token_byte(byte));
            assert(0x61 <= (byte | 32) <= 0x70 ==> byte < 0x80) by (bit_vector);
            bytes.push(byte);
            i += 1;
        }
        let text = ascii_text(bytes);
        assert(text@ =~= Seq::new(24, |i: int| self@[i] as char));
        text
    }

    /// Takes bytes for a token if they are 24 letters from `A` to `P`, in
    /// either case.
    pub fn from_bytes(bytes: &[u8]) -> (result: Result<SessionToken, InvalidTokenFormat>)
        ensures
            is_token(bytes@) ==> (result matches Ok(token) && token@ == bytes@),
            !is_token(bytes@) ==> result is Err,
    {
        if bytes.len() != 24 {
            return Err(InvalidTokenFormat);
        }
        let mut token = [0u8;24];
        let mut i: usize = 0;
        while i < 24
            invariant
                i <= 24,
                bytes@.len() == 24,
                forall|j: int| 0 <= j < i ==> is_token_byte(#[trigger] bytes@[j]),
                forall|j: int| 0 <= j < i ==> token@[j] == bytes@[j],
            decreases 24 - i,
        {
            let byte: u8 = bytes[i];
            let folded: u8 = byte | 32;
            if !(0x61 <= folded && folded <= 0x70) {
                return Err(InvalidTokenFormat);
            }
            token[i] = byte;
            i += 1;
        }
        assert(token@ =~= bytes@);
        Ok(SessionToken(token))
    }

    /// Takes a string for a token if it is 24 letters from `A` to `P`, in
    /// either case.
    pub fn from_str(s: &str) -> (result: Result<SessionToken, InvalidTokenFormat>)
        ensures
            is_token(s.spec_bytes()) ==> (result matches Ok(token) && token@ == s.spec_bytes()),
            !is_token(s.spec_bytes()) ==> result is Err,
    {
        SessionToken::from_bytes(s.as_bytes())
    }
}

impl SessionTokenHash {
    /// Takes 16 bytes for a hash.
    pub fn try_from(bytes: Vec<u8>) -> (result: Result<SessionTokenHash, InvalidHashLength>)
        ensures
            bytes@.len() == 16 ==> (result matches Ok(hash) && hash@ == bytes@),
            bytes@.len() != 16 ==> result is Err,
    {
        if bytes.len() != 16 {
            return Err(InvalidHashLength);
        }
        let mut hash = [0u8;16];
        let mut i: usize = 0;
        while i < 16
            invariant
                i <= 16,
                bytes@.len() == 16,
                forall|j: int| 0 <= j < i ==> hash@[j] == bytes@[j],
            decreases 16 - i,
        {
            hash[i] = bytes[i];
            i += 1;
        }
        assert(hash@ =~= bytes@);
        Ok(SessionTokenHash(hash))
    }

    /// The 16 bytes of the hash.
    pub fn to_bytes(&self) -> (bytes: Vec<u8>)
        ensures
            bytes@ == self@,
    {
        let mut bytes: Vec<u8> = Vec::new();
        let mut i: usize = 0;
        while i < 16
            invariant
                i <= 16,
                bytes@ == self.0@.subrange(0, i as int),
            decreases 16 - i,
        {
            bytes.push(self.0[i]);
            assert(bytes@ =~= self.0@.subrange(0, i + 1));
            i += 1;
        }
        assert(bytes@ =~= self.0@);
        bytes
    }

    /// Whether two hashes are the same.
    pub fn same(&self, other: &SessionTokenHash) -> (same: bool)
        ensures
            same == (self@ == other@),
    {
        let mut i: usize = 0;
        while i < 16
            invariant
                i <= 16,
                forall|j: int| 0 <= j < i ==> self.0@[j] == other.0@[j],
            decreases 16 - i,
        {
            if self.0[i] != other.0[i] {
                return false;
            }
            i += 1;
        }
        assert(self@ =~= other@);
        true
    }
}

impl InvalidHashLength {
    /// The message shown for a hash of the wrong length.
    pub fn message(&self) -> (text: String)
        ensures
            text@ == "invalid hash length"@,
    {
        String::from_str("invalid hash length")
    }
}

} // verus!
