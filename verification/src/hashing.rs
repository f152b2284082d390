use vstd::prelude::*;

verus! {

/// The 64-bit xxHash digest that `sp_crypto_hashing::twox_64` computes.
pub uninterp spec fn spec_twox_64(data: Seq<u8>) -> Seq<u8>;

/// The 128-bit xxHash digest that `sp_crypto_hashing::twox_128` computes.
pub uninterp spec fn spec_twox_128(data: Seq<u8>) -> Seq<u8>;

/// The 256-bit xxHash digest that `sp_crypto_hashing::twox_256` computes.
pub uninterp spec fn spec_twox_256(data: Seq<u8>) -> Seq<u8>;

/// The 128-bit Blake2b digest that `sp_crypto_hashing::blake2_128` computes.
pub uninterp spec fn spec_blake2_128(data: Seq<u8>) -> Seq<u8>;

/// The 256-bit Blake2b digest that `sp_crypto_hashing::blake2_256` computes.
pub uninterp spec fn spec_blake2_256(data: Seq<u8>) -> Seq<u8>;

/// Calls `sp_crypto_hashing::twox_64`: the digest is `spec_twox_64` of the input, 8 bytes long.
#[verifier::external_body]
pub(crate) fn twox_64(data: &[u8]) -> (digest: Vec<u8>)
    ensures
        digest@ == spec_twox_64(data@),
        digest@.len() == 8,
{
    sp_crypto_hashing::twox_64(data).to_vec()
}

/// Calls `sp_crypto_hashing::twox_128`: the digest is `spec_twox_128` of the input, 16 bytes long.
#[verifier::external_body]
pub(crate) fn twox_128(data: &[u8]) -> (digest: Vec<u8>)
    ensures
        digest@ == spec_twox_128(data@),
        digest@.len() == 16,
{
    sp_crypto_hashing::twox_128(data).to_vec()
}

/// Calls `sp_crypto_hashing::twox_256`: the digest is `spec_twox_256` of the input, 32 bytes long.
#[verifier::external_body]
pub(crate) fn twox_256(data: &[u8]) -> (digest: Vec<u8>)
    ensures
        digest@ == spec_twox_256(data@),
        digest@.len() == 32,
{
    sp_crypto_hashing::twox_256(data).to_vec()
}

/// Calls `sp_crypto_hashing::blake2_128`: the digest is `spec_blake2_128` of the input, 16 bytes long.
#[verifier::external_body]
pub(crate) fn blake2_128(data: &[u8]) -> (digest: Vec<u8>)
    ensures
        digest@ == spec_blake2_128(data@),
        digest@.len() == 16,
{
    sp_crypto_hashing::blake2_128(data).to_vec()
}

/// Calls `sp_crypto_hashing::blake2_256`: the digest is `spec_blake2_256` of the input, 32 bytes long.
#[verifier::external_body]
pub(crate) fn blake2_256(data: &[u8]) -> (digest: Vec<u8>)
    ensures
        digest@ == spec_blake2_256(data@),
        digest@.len() == 32,
{
    sp_crypto_hashing::blake2_256(data).to_vec()
}

/// How a storage map hashes the encoding of a key.
#[allow(non_camel_case_types)]
#[derive(Clone, Copy, Debug, PartialEq, Eq, Structural)]
pub enum StorageHasher {
    Blake2_128,
    Blake2_256,
    Blake2_128Concat,
    Twox128,
    Twox256,
    Twox64Concat,
    Identity,
}

/// The bytes that `hasher` makes of an encoded key.
pub open spec fn spec_key_hash(encoded_key: Seq<u8>, hasher: StorageHasher) -> Seq<u8> {
    match hasher {
        StorageHasher::Identity => encoded_key,
        StorageHasher::Blake2_128 => spec_blake2_128(encoded_key),
        StorageHasher::Blake2_128Concat => spec_blake2_128(encoded_key) + encoded_key,
        StorageHasher::Blake2_256 => spec_blake2_256(encoded_key),
        StorageHasher::Twox128 => spec_twox_128(encoded_key),
        StorageHasher::Twox256 => spec_twox_256(encoded_key),
        StorageHasher::Twox64Concat => spec_twox_64(encoded_key) + encoded_key,
    }
}

/// The length of what `hasher` makes of a key of `n` encoded bytes.
pub open spec fn key_hash_len(n: nat, hasher: StorageHasher) -> nat {
    match hasher {
        StorageHasher::Identity => n,
        StorageHasher::Blake2_128 => 16,
        StorageHasher::Blake2_128Concat => 16 + n,
        StorageHasher::Blake2_256 => 32,
        StorageHasher::Twox128 => 16,
        StorageHasher::Twox256 => 32,
        StorageHasher::Twox64Concat => 8 + n,
    }
}

/// Hashes the encoding of a storage key as `hasher` says.
pub fn key_hash(encoded_key: &[u8], hasher: &StorageHasher) -> (hashed: Vec<u8>)
    ensures
        hashed@ == spec_key_hash(encoded_key@, *hasher),
        hashed@.len() == key_hash_len(encoded_key@.len(), *hasher),
{
    match hasher {
        StorageHasher::Identity => vstd::slice::slice_to_vec(encoded_key),
        StorageHasher::Blake2_128 => blake2_128(encoded_key),
        StorageHasher::Blake2_128Concat => {
            let mut bytes = blake2_128(encoded_key);
            bytes.extend_from_slice(encoded_key);
            bytes
        },
        StorageHasher::Blake2_256 => blake2_256(encoded_key),
        StorageHasher::Twox128 => twox_128(encoded_key),
        StorageHasher::Twox256 => twox_256(encoded_key),
        StorageHasher::Twox64Concat => {
            let mut bytes = twox_64(encoded_key);
            bytes.extend_from_slice(encoded_key);
            bytes
        },
    }
}

/// The concatenating hashers keep the encoded key whole at the end of what
/// they make of it, so the key can be read back from a storage key.
pub proof fn lemma_concat_hasher_keeps_key(encoded_key: Seq<u8>, hasher: StorageHasher)
    requires
        hasher == StorageHasher::Blake2_128Concat || hasher == StorageHasher::Twox64Concat
            || hasher == StorageHasher::Identity,
    ensures
        ({
            let h = spec_key_hash(encoded_key, hasher);
            h.len() >= encoded_key.len() && h.subrange(
                h.len() - encoded_key.len(),
                h.len() as int,
            ) == encoded_key
        }),
{
    let h = spec_key_hash(encoded_key, hasher);
    assert(h.subrange(h.len() - encoded_key.len(), h.len() as int) =~= encoded_key);
}

} // verus!
