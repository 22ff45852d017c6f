//! Hashes and encodings that other crates define, under names that contracts can speak of.
use vstd::prelude::*;

verus! {

/// The partition of an epoch's rewards that an address falls into: what
/// `solana_epoch_rewards_hasher` computes from the address, the number of partitions and the seed.
pub uninterp spec fn reward_partition(
    address: Seq<u8>,
    num_partitions: usize,
    seed: Seq<u8>,
) -> usize;

/// `EpochRewardsHasher::new` followed by `hash_address_to_partition`: the result depends on the
/// three arguments alone, and is below the number of partitions where there is one.
#[verifier::external_body]
fn hash_address_to_partition(address: &[u8; 32], num_partitions: usize, seed: &[u8; 32]) -> (r: usize)
    ensures
        r == reward_partition(address@, num_partitions, seed@),
        num_partitions > 0 ==> r < num_partitions,
{
    solana_epoch_rewards_hasher::EpochRewardsHasher::new(
        num_partitions,
        &solana_hash::Hash::new_from_array(*seed),
    ).hash_address_to_partition(&solana_pubkey::Pubkey::new_from_array(*address))
}

/// The partition that the stake rewards of an address are paid in.
pub fn inflation_reward_partition(address: &[u8; 32], num_partitions: usize, seed: &[u8; 32]) -> (r:
    usize)
    ensures
        r == reward_partition(address@, num_partitions, seed@),
        num_partitions > 0 ==> r < num_partitions,
{
    hash_address_to_partition(address, num_partitions, seed)
}

/// What `ch_cityhash102::cityhash64` computes from some bytes.
pub uninterp spec fn cityhash(bytes: Seq<u8>) -> u64;

/// `ch_cityhash102::cityhash64`: the result depends on the bytes alone.
#[verifier::external_body]
pub(crate) fn city_hash(bytes: &[u8]) -> (r: u64)
    ensures
        r == cityhash(bytes@),
{
    ch_cityhash102::cityhash64(bytes)
}

/// The bytes of an optional vector.
pub open spec fn opt_bytes(v: Option<Vec<u8>>) -> Option<Seq<u8>> {
    match v {
        Some(bytes) => Some(bytes@),
        None => None,
    }
}

/// The bytes of an optional key.
pub open spec fn opt_key(v: Option<[u8; 32]>) -> Option<Seq<u8>> {
    match v {
        Some(bytes) => Some(bytes@),
        None => None,
    }
}

/// The bytes that `bs58::decode` reads from a text, where it accepts the text.
pub uninterp spec fn base58_decoded(text: Seq<char>) -> Option<Seq<u8>>;

/// The text that `bs58::encode` writes for some bytes.
pub uninterp spec fn base58_text(bytes: Seq<u8>) -> Seq<char>;

/// `bs58::decode` with the default alphabet: the result depends on the text alone.
#[verifier::external_body]
pub(crate) fn base58_decode(text: &str) -> (r: Option<Vec<u8>>)
    ensures
        opt_bytes(r) == base58_decoded(text@),
{
    bs58::decode(text).into_vec().ok()
}

/// `bs58::encode` with the default alphabet: the result depends on the bytes alone.
#[verifier::external_body]
pub(crate) fn base58_encode(bytes: &[u8]) -> (r: String)
    ensures
        r@ == base58_text(bytes@),
{
    bs58::encode(bytes).into_string()
}

/// The 32 bytes that `solana_pubkey::Pubkey::from_str` reads from a text, where it accepts it.
pub uninterp spec fn parsed_pubkey(text: Seq<char>) -> Option<Seq<u8>>;

/// `solana_pubkey::Pubkey::from_str`: the result depends on the text alone.
#[verifier::external_body]
pub(crate) fn parse_pubkey(text: &str) -> (r: Option<[u8; 32]>)
    ensures
        opt_key(r) == parsed_pubkey(text@),
{
    <solana_pubkey::Pubkey as std::str::FromStr>::from_str(text).ok().map(|key| key.to_bytes())
}

} // verus!
