//! Keyed, reversible masking of record identifiers and sequential counters.
//!
//! A plaintext is one 16-byte block: the payload followed by a type tag that
//! fills the rest of the block. The token is the block under AES-128.

use aes::cipher::{BlockDecrypt, BlockEncrypt, KeyInit};
use aes::Aes128;
use crate::api_types::Failure;
use vstd::bytes::{
    lemma_auto_spec_u128_to_from_le_bytes, lemma_auto_spec_u64_to_from_le_bytes,
    spec_u128_from_le_bytes, spec_u128_to_le_bytes, spec_u64_from_le_bytes,
    spec_u64_to_le_bytes, u128_from_le_bytes, u64_from_le_bytes, u64_to_le_bytes,
};
use vstd::prelude::*;

verus! {

/// Tag that fills the block behind a record identifier.
pub const TYPE_OBJECT_ID: u8 = 0;

/// Tag that fills the block behind a sequential counter.
pub const TYPE_SEQUENTIAL_ID: u8 = 1;

/// The AES-128 encryption of one 16-byte block under a 16-byte key.
pub uninterp spec fn aes128_encrypt(key: Seq<u8>, block: Seq<u8>) -> Seq<u8>;

/// The AES-128 decryption of one 16-byte block under a 16-byte key.
pub uninterp spec fn aes128_decrypt(key: Seq<u8>, block: Seq<u8>) -> Seq<u8>;

/// Calls `Aes128::new` and `BlockEncrypt::encrypt_block_b2b` of the `aes`
/// crate. Trusted: the result is the AES-128 encryption of `block` under
/// `key`, and decrypting it under the same key gives `block` back (a block
/// cipher is a permutation of the blocks).
#[verifier::external_body]
fn encrypt_block(key: &[u8; 16], block: &[u8; 16]) -> (out: [u8; 16])
    ensures
        out@ == aes128_encrypt(key@, block@),
        aes128_decrypt(key@, out@) == block@,
{
    let mut out = [0u8; 16];
    Aes128::new(key.into()).encrypt_block_b2b(block.into(), (&mut out).into());
    out
}

/// Calls `Aes128::new` and `BlockDecrypt::decrypt_block_b2b` of the `aes`
/// crate. Trusted: the result is the AES-128 decryption of `block` under
/// `key`, and encrypting it under the same key gives `block` back.
#[verifier::external_body]
fn decrypt_block(key: &[u8; 16], block: &[u8; 16]) -> (out: [u8; 16])
    ensures
        out@ == aes128_decrypt(key@, block@),
        aes128_encrypt(key@, out@) == block@,
{
    let mut out = [0u8; 16];
    Aes128::new(key.into()).decrypt_block_b2b(block.into(), (&mut out).into());
    out
}

/// The 12-byte internal identifier of a stored record.
#[derive(Clone, Copy, Debug)]
pub struct RecordId {
    pub bytes: [u8; 12],
}

/// The masked form of a record identifier.
#[derive(Clone, Copy, Debug)]
pub struct MaskedObjectId {
    pub bytes: [u8; 16],
}

/// The masked form of a sequential counter.
#[derive(Clone, Copy, Debug)]
pub struct MaskedSequentialId {
    pub bytes: [u8; 16],
}

/// The process-wide secret under which identifiers are masked.
pub struct MaskingKey {
    key: [u8; 16],
}

/// A token did not carry the expected tag bytes.
#[derive(Clone, Copy, Debug)]
pub struct PaddingError;

impl View for RecordId {
    type V = Seq<u8>;

    open spec fn view(&self) -> Seq<u8> {
        self.bytes@
    }
}

impl View for MaskedObjectId {
    type V = Seq<u8>;

    open spec fn view(&self) -> Seq<u8> {
        self.bytes@
    }
}

impl View for MaskedSequentialId {
    type V = Seq<u8>;

    open spec fn view(&self) -> Seq<u8> {
        self.bytes@
    }
}

impl View for MaskingKey {
    type V = Seq<u8>;

    closed spec fn view(&self) -> Seq<u8> {
        self.key@
    }
}

/// A token as a number: its 16 bytes, the lowest first.
pub open spec fn token_number(token: Seq<u8>) -> u128 {
    spec_u128_from_le_bytes(token)
}

/// Tokens with one number are one token.
pub proof fn lemma_numbers_tell_tokens_apart(first: Seq<u8>, second: Seq<u8>)
    requires
        first.len() == 16,
        second.len() == 16,
        token_number(first) == token_number(second),
    ensures
        first == second,
{
    lemma_auto_spec_u128_to_from_le_bytes();
    assert(spec_u128_to_le_bytes(spec_u128_from_le_bytes(first)) == first);
    assert(spec_u128_to_le_bytes(spec_u128_from_le_bytes(second)) == second);
}

/// `n` copies of `tag`.
pub open spec fn tag_fill(tag: u8, n: nat) -> Seq<u8> {
    Seq::new(n, |i: int| tag)
}

/// The plaintext block of a record identifier of 12 bytes.
pub open spec fn object_block(id: Seq<u8>) -> Seq<u8> {
    id + tag_fill(TYPE_OBJECT_ID, 4)
}

/// The plaintext block of a sequential counter.
pub open spec fn sequential_block(seq: u64) -> Seq<u8> {
    spec_u64_to_le_bytes(seq) + tag_fill(TYPE_SEQUENTIAL_ID, 8)
}

/// The token of a record identifier under `key`.
pub open spec fn mask_spec(key: Seq<u8>, id: Seq<u8>) -> Seq<u8> {
    aes128_encrypt(key, object_block(id))
}

/// The token of a sequential counter under `key`.
pub open spec fn mask_sequential_spec(key: Seq<u8>, seq: u64) -> Seq<u8> {
    aes128_encrypt(key, sequential_block(seq))
}

/// What a token decodes to as a record identifier: the first 12 bytes of the
/// decrypted block where its last 4 bytes are the record tag, else nothing.
pub open spec fn unmask_spec(key: Seq<u8>, token: Seq<u8>) -> Option<Seq<u8>> {
    let block = aes128_decrypt(key, token);
    if block.len() == 16 && block.subrange(12, 16) == tag_fill(TYPE_OBJECT_ID, 4) {
        Some(block.subrange(0, 12))
    } else {
        None
    }
}

/// What a token decodes to as a sequential counter: the little-endian value
/// of the first 8 bytes of the decrypted block where its last 8 bytes are the
/// counter tag, else nothing.
pub open spec fn unmask_sequential_spec(key: Seq<u8>, token: Seq<u8>) -> Option<u64> {
    let block = aes128_decrypt(key, token);
    if block.len() == 16 && block.subrange(8, 16) == tag_fill(TYPE_SEQUENTIAL_ID, 8) {
        Some(spec_u64_from_le_bytes(block.subrange(0, 8)))
    } else {
        None
    }
}

impl PaddingError {
    /// What a token that does not decode makes of the request that carries
    /// it: a bad request.
    pub fn to_failure(&self) -> (failure: Failure<()>)
        ensures
            failure matches Failure::BadRequest(detail) && detail@ == "bad masked id"@,
    {
        Failure::BadRequest("bad masked id")
    }

    /// The message shown for a token that does not decode.
    pub fn message(&self) -> (text: String)
        ensures
            text@ == "Invalid id"@,
    {
        String::from_str("Invalid id")
    }
}

impl RecordId {
    /// The identifier with the given bytes.
    pub fn from_bytes(bytes: [u8; 12]) -> (id: Self)
        ensures
            id@ == bytes@,
    {
        RecordId { bytes }
    }

    /// Seconds since the Unix epoch at which the record was created: the
    /// first four bytes, big-endian.
    pub open spec fn spec_timestamp_seconds(&self) -> int {
        self.bytes@[0] as int * 0x100_0000 + self.bytes@[1] as int * 0x1_0000
            + self.bytes@[2] as int * 0x100 + self.bytes@[3] as int
    }

    /// Seconds since the Unix epoch at which the record was created.
    pub fn timestamp_seconds(&self) -> (seconds: u32)
        ensures
            seconds as int == self.spec_timestamp_seconds(),
    {
        let b0: u32 = self.bytes[0] as u32;
        let b1: u32 = self.bytes[1] as u32;
        let b2: u32 = self.bytes[2] as u32;
        let b3: u32 = self.bytes[3] as u32;
        b0 * 0x100_0000 + b1 * 0x1_0000 + b2 * 0x100 + b3
    }
}

impl MaskedObjectId {
    /// The token with the given bytes.
    pub fn from_bytes(bytes: [u8; 16]) -> (token: Self)
        ensures
            token@ == bytes@,
    {
        MaskedObjectId { bytes }
    }

    /// The token as a number: its bytes, the lowest first.
    pub fn number(&self) -> (number: u128)
        ensures
            number == token_number(self@),
    {
        u128_from_le_bytes(self.bytes.as_slice())
    }

    /// Whether two tokens hold the same bytes.
    pub fn same(&self, other: &MaskedObjectId) -> (same: bool)
        ensures
            same == (self@ == other@),
    {
        let mut i: usize = 0;
        while i < 16
            invariant
                i <= 16,
                forall|j: int| 0 <= j < i ==> self.bytes@[j] == other.bytes@[j],
            decreases 16 - i,
        {
            if self.bytes[i] != other.bytes[i] {
                return false;
            }
            i += 1;
        }
        assert(self@ =~= other@);
        true
    }
}

impl MaskedSequentialId {
    /// The token with the given bytes.
    pub fn from_bytes(bytes: [u8; 16]) -> (token: Self)
        ensures
            token@ == bytes@,
    {
        MaskedSequentialId { bytes }
    }
}

/// The plaintext block of a record identifier: its 12 bytes, then the
/// record tag four times.
pub fn block_of_record_id(oid: &RecordId) -> (block: [u8; 16])
    ensures
        block@ == object_block(oid@),
{
    let mut block = [TYPE_OBJECT_ID;16];
    let mut i: usize = 0;
    while i < 12
        invariant
            i <= 12,
            forall|j: int| 0 <= j < i ==> block@[j] == oid.bytes@[j],
            forall|j: int| i <= j < 16 ==> block@[j] == TYPE_OBJECT_ID,
        decreases 12 - i,
    {
        block[i] = oid.bytes[i];
        i += 1;
    }
    assert(block@ =~= object_block(oid@));
    block
}

/// Reads a plaintext block as a record identifier: its first 12 bytes, if
/// its last four are the record tag.
pub fn record_id_of_block(block: &[u8; 16]) -> (result: Result<RecordId, PaddingError>)
    ensures
        match result {
            Ok(id) => block@.subrange(12, 16) == tag_fill(TYPE_OBJECT_ID, 4) && id@
                == block@.subrange(0, 12),
            Err(_) => block@.subrange(12, 16) != tag_fill(TYPE_OBJECT_ID, 4),
        },
{
    let mut i: usize = 12;
    while i < 16
        invariant
            12 <= i <= 16,
            forall|j: int| 12 <= j < i ==> block@[j] == TYPE_OBJECT_ID,
        decreases 16 - i,
    {
        if block[i] != TYPE_OBJECT_ID {
            proof {
                let tail = block@.subrange(12, 16);
                assert(tail[i - 12] == block@[i as int]);
                assert(tag_fill(TYPE_OBJECT_ID, 4)[i - 12] == TYPE_OBJECT_ID);
            }
            return Err(PaddingError);
        }
        i += 1;
    }
    let mut bytes = [0u8;12];
    let mut k: usize = 0;
    while k < 12
        invariant
            k <= 12,
            forall|j: int| 0 <= j < k ==> bytes@[j] == block@[j],
        decreases 12 - k,
    {
        bytes[k] = block[k];
        k += 1;
    }
    proof {
        assert(block@.subrange(12, 16) =~= tag_fill(TYPE_OBJECT_ID, 4));
        assert(bytes@ =~= block@.subrange(0, 12));
    }
    Ok(RecordId { bytes })
}

/// The plaintext block of a sequential counter: its 8 bytes, the lowest
/// first, then the counter tag eight times.
pub fn block_of_counter(seq: u64) -> (block: [u8; 16])
    ensures
        block@ == sequential_block(seq),
{
    let le = u64_to_le_bytes(seq);
    let mut block = [TYPE_SEQUENTIAL_ID;16];
    let mut i: usize = 0;
    while i < 8
        invariant
            i <= 8,
            le@.len() == 8,
            forall|j: int| 0 <= j < i ==> block@[j] == le@[j],
            forall|j: int| i <= j < 16 ==> block@[j] == TYPE_SEQUENTIAL_ID,
        decreases 8 - i,
    {
        block[i] = le[i];
        i += 1;
    }
    assert(block@ =~= sequential_block(seq));
    block
}

/// Reads a plaintext block as a sequential counter: the value of its first
/// 8 bytes, the lowest first, if its last eight are the counter tag.
pub fn counter_of_block(block: &[u8; 16]) -> (result: Result<u64, PaddingError>)
    ensures
        match result {
            Ok(seq) => block@.subrange(8, 16) == tag_fill(TYPE_SEQUENTIAL_ID, 8) && seq
                == spec_u64_from_le_bytes(block@.subrange(0, 8)),
            Err(_) => block@.subrange(8, 16) != tag_fill(TYPE_SEQUENTIAL_ID, 8),
        },
{
    let mut i: usize = 8;
    while i < 16
        invariant
            8 <= i <= 16,
            forall|j: int| 8 <= j < i ==> block@[j] == TYPE_SEQUENTIAL_ID,
        decreases 16 - i,
    {
        if block[i] != TYPE_SEQUENTIAL_ID {
            proof {
                let tail = block@.subrange(8, 16);
                assert(tail[i - 8] == block@[i as int]);
                assert(tag_fill(TYPE_SEQUENTIAL_ID, 8)[i - 8] == TYPE_SEQUENTIAL_ID);
            }
            return Err(PaddingError);
        }
        i += 1;
    }
    let mut payload: Vec<u8> = Vec::new();
    let mut k: usize = 0;
    while k < 8
        invariant
            k <= 8,
            payload@.len() == k,
            forall|j: int| 0 <= j < k ==> payload@[j] == block@[j],
        decreases 8 - k,
    {
        payload.push(block[k]);
        k += 1;
    }
    let seq = u64_from_le_bytes(payload.as_slice());
    proof {
        assert(block@.subrange(8, 16) =~= tag_fill(TYPE_SEQUENTIAL_ID, 8));
        assert(payload@ =~= block@.subrange(0, 8));
    }
    Ok(seq)
}

impl MaskingKey {
    /// The masking key with the given 16 secret bytes.
    pub fn new(key: &[u8; 16]) -> (masking_key: Self)
        ensures
            masking_key@ == key@,
    {
        MaskingKey { key: *key }
    }

    /// Masks a record identifier. The token decodes back to `oid` as a record
    /// identifier and does not decode as a sequential counter.
    pub fn mask(&self, oid: &RecordId) -> (token: MaskedObjectId)
        ensures
            token@ == mask_spec(self@, oid@),
            unmask_spec(self@, token@) == Some(oid@),
            unmask_sequential_spec(self@, token@) is None,
    {
        let plain_block = block_of_record_id(oid);
        let token = MaskedObjectId { bytes: encrypt_block(&self.key, &plain_block) };
        proof {
            assert(plain_block@.subrange(12, 16) =~= tag_fill(TYPE_OBJECT_ID, 4));
            assert(plain_block@.subrange(0, 12) =~= oid@);
            assert(plain_block@.subrange(8, 16)[7] == TYPE_OBJECT_ID);
            assert(tag_fill(TYPE_SEQUENTIAL_ID, 8)[7] == TYPE_SEQUENTIAL_ID);
        }
        token
    }

    /// Decodes a token as a record identifier. Fails exactly when the
    /// decrypted block does not end in the record tag; a token that decodes
    /// is the mask of what it decodes to.
    pub fn unmask(&self, masked_oid: &MaskedObjectId) -> (result: Result<RecordId, PaddingError>)
        ensures
            match result {
                Ok(oid) => unmask_spec(self@, masked_oid@) == Some(oid@)
                    && mask_spec(self@, oid@) == masked_oid@,
                Err(_) => unmask_spec(self@, masked_oid@) is None,
            },
    {
        let plain_block = decrypt_block(&self.key, &masked_oid.bytes);
        let result = record_id_of_block(&plain_block);
        proof {
            if let Ok(oid) = result {
                assert(object_block(oid@) =~= plain_block@);
            }
        }
        result
    }

    /// Masks a sequential counter. The token decodes back to `seq` as a
    /// sequential counter and does not decode as a record identifier.
    pub fn mask_sequential(&self, seq: u64) -> (token: MaskedSequentialId)
        ensures
            token@ == mask_sequential_spec(self@, seq),
            unmask_sequential_spec(self@, token@) == Some(seq),
            unmask_spec(self@, token@) is None,
    {
        let plain_block = block_of_counter(seq);
        let token = MaskedSequentialId { bytes: encrypt_block(&self.key, &plain_block) };
        proof {
            lemma_auto_spec_u64_to_from_le_bytes();
            assert(plain_block@.subrange(8, 16) =~= tag_fill(TYPE_SEQUENTIAL_ID, 8));
            assert(plain_block@.subrange(0, 8) =~= spec_u64_to_le_bytes(seq));
            assert(plain_block@.subrange(12, 16)[0] == TYPE_SEQUENTIAL_ID);
            assert(tag_fill(TYPE_OBJECT_ID, 4)[0] == TYPE_OBJECT_ID);
        }
        token
    }

    /// Decodes a token as a sequential counter. Fails exactly when the
    /// decrypted block does not end in the counter tag; a token that decodes
    /// is the mask of what it decodes to.
    pub fn unmask_sequential(&self, masked_seq: &MaskedSequentialId) -> (result: Result<
        u64,
        PaddingError,
    >)
        ensures
            match result {
                Ok(seq) => unmask_sequential_spec(self@, masked_seq@) == Some(seq)
                    && mask_sequential_spec(self@, seq) == masked_seq@,
                Err(_) => unmask_sequential_spec(self@, masked_seq@) is None,
            },
    {
        let plain_block = decrypt_block(&self.key, &masked_seq.bytes);
        let result = counter_of_block(&plain_block);
        proof {
            if let Ok(seq) = result {
                lemma_auto_spec_u64_to_from_le_bytes();
                assert(sequential_block(seq) =~= plain_block@);
            }
        }
        result
    }
}

impl MaskingKey {
    /// Masks every identifier of a list.
    pub fn mask_all(&self, ids: &Vec<RecordId>) -> (tokens: Vec<MaskedObjectId>)
        ensures
            tokens@.len() == ids@.len(),
            forall|i: int| 0 <= i < ids@.len() ==> tokens@[i]@ == mask_spec(self@, ids@[i]@),
    {
        let mut tokens: Vec<MaskedObjectId> = Vec::new();
        let mut i: usize = 0;
        while i < ids.len()
            invariant
                i <= ids.len(),
                tokens@.len() == i,
                forall|j: int| 0 <= j < i ==> tokens@[j]@ == mask_spec(self@, ids@[j]@),
            decreases ids.len() - i,
        {
            tokens.push(self.mask(&ids[i]));
            i += 1;
        }
        tokens
    }

    /// Decodes every token of a list as a record identifier. Fails exactly
    /// when one of them does not decode.
    pub fn unmask_all(&self, masked: &Vec<MaskedObjectId>) -> (result: Result<
        Vec<RecordId>,
        PaddingError,
    >)
        ensures
            match result {
                Ok(ids) => ids@.len() == masked@.len() && forall|i: int|
                    0 <= i < masked@.len() ==> unmask_spec(self@, #[trigger] masked@[i]@) == Some(
                        ids@[i]@,
                    ),
                Err(_) => exists|i: int|
                    0 <= i < masked@.len() && unmask_spec(self@, #[trigger] masked@[i]@) is None,
            },
    {
        let mut ids: Vec<RecordId> = Vec::new();
        let mut i: usize = 0;
        while i < masked.len()
            invariant
                i <= masked.len(),
                ids@.len() == i,
                forall|j: int|
                    0 <= j < i ==> unmask_spec(self@, #[trigger] masked@[j]@) == Some(ids@[j]@),
            decreases masked.len() - i,
        {
            match self.unmask(&masked[i]) {
                Ok(id) => {
                    ids.push(id);
                },
                Err(error) => {
                    assert(unmask_spec(self@, masked@[i as int]@) is None);
                    return Err(error);
                },
            }
            i += 1;
        }
        Ok(ids)
    }
}

/// Decodes the token by which a request names a record. A token that does
/// not decode makes the request a bad one.
pub fn decode_target(key: &MaskingKey, token: &MaskedObjectId) -> (result: Result<
    RecordId,
    Failure<()>,
>)
    ensures
        match result {
            Ok(id) => unmask_spec(key@, token@) == Some(id@),
            Err(Failure::BadRequest(detail)) => detail@ == "bad masked id"@ && unmask_spec(
                key@,
                token@,
            ) is None,
            Err(_) => false,
        },
{
    match key.unmask(token) {
        Ok(id) => Ok(id),
        Err(error) => Err(error.to_failure()),
    }
}

} // verus!
