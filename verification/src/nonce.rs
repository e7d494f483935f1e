//! Per-coordinator nonces that guard admin actions against replay.

use vstd::prelude::*;
use soroban_sdk::Env;
use crate::error::{fails_with, ContractError};
use crate::host::{host_sha256, sha256_digest};
use crate::keyed_map::{bytes_eq, KeyedMap};

verus! {

/// The last accepted nonce state of a coordinator.
#[derive(Clone, Debug, PartialEq, Eq)]
pub struct NonceState {
    /// The nonce the next admin action must carry.
    pub nonce: u64,
    /// The salt signature that came with the last accepted action.
    pub salt_signature: Vec<u8>,
}

/// The nonce a coordinator must present next: 0 before its first action.
pub open spec fn stored_nonce(nonces: Map<Seq<u8>, NonceState>, coordinator: Seq<u8>) -> u64 {
    if nonces.contains_key(coordinator) {
        nonces[coordinator].nonce
    } else {
        0
    }
}

/// The eight bytes of `n`, most significant first.
pub open spec fn be_bytes(n: u64) -> Seq<u8> {
    Seq::new(8, |i: int| ((n as int / pow256(7 - i)) % 256) as u8)
}

/// `256` raised to `k`, for `0 <= k`.
pub open spec fn pow256(k: int) -> int
    decreases k,
{
    if k <= 0 {
        1
    } else {
        256 * pow256(k - 1)
    }
}

/// The payload whose digest signs a salt: the nonce in big-endian bytes
/// followed by the salt.
pub open spec fn salt_payload(nonce: u64, salt: Seq<u8>) -> Seq<u8> {
    be_bytes(nonce) + salt
}

/// The salt signature that an admin action with `nonce` and `salt` must carry.
pub open spec fn expected_salt_signature(nonce: u64, salt: Seq<u8>) -> Seq<u8> {
    sha256_digest(salt_payload(nonce, salt))
}

fn nonce_to_be_bytes(n: u64) -> (bytes: Vec<u8>)
    ensures
        bytes@ == be_bytes(n),
{
    proof {
        reveal_with_fuel(pow256, 8);
        assert((n >> 56u64) & 0xff == (n / 72057594037927936u64) % 256) by (bit_vector);
        assert((n >> 48u64) & 0xff == (n / 281474976710656u64) % 256) by (bit_vector);
        assert((n >> 40u64) & 0xff == (n / 1099511627776u64) % 256) by (bit_vector);
        assert((n >> 32u64) & 0xff == (n / 4294967296u64) % 256) by (bit_vector);
        assert((n >> 24u64) & 0xff == (n / 16777216u64) % 256) by (bit_vector);
        assert((n >> 16u64) & 0xff == (n / 65536u64) % 256) by (bit_vector);
        assert((n >> 8u64) & 0xff == (n / 256u64) % 256) by (bit_vector);
        assert(n & 0xff == n % 256) by (bit_vector);
    }
    let bytes: Vec<u8> = vec![
        ((n >> 56u64) & 0xff) as u8,
        ((n >> 48u64) & 0xff) as u8,
        ((n >> 40u64) & 0xff) as u8,
        ((n >> 32u64) & 0xff) as u8,
        ((n >> 24u64) & 0xff) as u8,
        ((n >> 16u64) & 0xff) as u8,
        ((n >> 8u64) & 0xff) as u8,
        (n & 0xff) as u8,
    ];
    assert(bytes@ =~= be_bytes(n));
    bytes
}

/// Derive the salt signature of an admin action: the SHA-256 digest, computed
/// by the host, of the nonce in big-endian bytes followed by the salt.
pub fn derive_salt_signature(env: &Env, nonce: u64, salt: &Vec<u8>) -> (signature: Vec<u8>)
    ensures
        signature@ == expected_salt_signature(nonce, salt@),
{
    let mut payload = nonce_to_be_bytes(nonce);
    let mut i: usize = 0;
    while i < salt.len()
        invariant
            i <= salt.len(),
            payload@ == be_bytes(nonce) + salt@.take(i as int),
        decreases salt.len() - i,
    {
        payload.push(salt[i]);
        assert(salt@.take(i + 1) =~= salt@.take(i as int).push(salt@[i as int]));
        assert(be_bytes(nonce) + salt@.take(i + 1) =~= (be_bytes(nonce) + salt@.take(i as int)).push(salt@[i as int]));
        i = i + 1;
    }
    assert(salt@.take(salt.len() as int) =~= salt@);
    host_sha256(env, &payload)
}

/// The nonce that `coordinator` must present next.
pub fn get_nonce(nonces: &KeyedMap<NonceState>, coordinator: &Vec<u8>) -> (nonce: u64)
    ensures
        nonce == stored_nonce(nonces@, coordinator@),
{
    match nonces.get(coordinator) {
        Some(state) => state.nonce,
        None => 0,
    }
}

/// Accepting `incoming_nonce` would move the stored nonce past `u64::MAX`:
/// the nonce and its salt signature are valid and the nonce is the largest.
pub open spec fn nonce_step_overflows(
    nonces: Map<Seq<u8>, NonceState>,
    coordinator: Seq<u8>,
    incoming_nonce: u64,
    salt: Seq<u8>,
    salt_signature: Seq<u8>,
) -> bool {
    &&& incoming_nonce == stored_nonce(nonces, coordinator)
    &&& salt_signature == expected_salt_signature(incoming_nonce, salt)
    &&& incoming_nonce == u64::MAX
}

/// Whether accepting `incoming_nonce` would move the stored nonce past
/// `u64::MAX`; the digest is computed by the host only for that nonce.
pub fn nonce_step_would_overflow(
    env: &Env,
    nonces: &KeyedMap<NonceState>,
    coordinator: &Vec<u8>,
    incoming_nonce: u64,
    salt: &Vec<u8>,
    salt_signature: &Vec<u8>,
) -> (overflows: bool)
    ensures
        overflows == nonce_step_overflows(nonces@, coordinator@, incoming_nonce, salt@, salt_signature@),
{
    if incoming_nonce != u64::MAX || incoming_nonce != get_nonce(nonces, coordinator) {
        return false;
    }
    let expected = derive_salt_signature(env, incoming_nonce, salt);
    bytes_eq(salt_signature, &expected)
}

/// Accept an admin action of `coordinator` that carries `incoming_nonce`,
/// `salt` and `salt_signature`: the nonce must be the stored one and the
/// signature the digest of nonce and salt. On success the stored nonce moves
/// on by one and the signature is kept; on failure nothing changes.
pub fn consume_nonce(
    env: &Env,
    nonces: &mut KeyedMap<NonceState>,
    coordinator: &Vec<u8>,
    incoming_nonce: u64,
    salt: &Vec<u8>,
    salt_signature: Vec<u8>,
) -> (r: Result<(), ContractError>)
    requires
        !nonce_step_overflows(old(nonces)@, coordinator@, incoming_nonce, salt@, salt_signature@),
    ensures
        incoming_nonce != stored_nonce(old(nonces)@, coordinator@) ==> fails_with(r, ContractError::InvalidNonce),
        incoming_nonce == stored_nonce(old(nonces)@, coordinator@) && salt_signature@ != expected_salt_signature(incoming_nonce, salt@)
            ==> fails_with(r, ContractError::InvalidSaltSignature),
        r is Err ==> final(nonces)@ == old(nonces)@,
        r is Ok <==> incoming_nonce == stored_nonce(old(nonces)@, coordinator@) && salt_signature@ == expected_salt_signature(incoming_nonce, salt@),
        r is Ok ==> final(nonces)@ == old(nonces)@.insert(
            coordinator@,
            NonceState { nonce: (incoming_nonce + 1) as u64, salt_signature },
        ),
{
    let current = get_nonce(nonces, coordinator);
    if incoming_nonce != current {
        return Err(ContractError::InvalidNonce);
    }
    let expected_signature = derive_salt_signature(env, incoming_nonce, salt);
    if !bytes_eq(&salt_signature, &expected_signature) {
        return Err(ContractError::InvalidSaltSignature);
    }
    let key: Vec<u8> = crate::keyed_map::copy_bytes(coordinator);
    nonces.set(key, NonceState { nonce: current + 1, salt_signature });
    Ok(())
}

/// Once a nonce has been accepted, the same nonce is refused: the stored
/// nonce has moved past it.
pub proof fn lemma_accepted_nonce_not_replayed(
    nonces: Map<Seq<u8>, NonceState>,
    coordinator: Seq<u8>,
    accepted: u64,
    salt_signature: Vec<u8>,
)
    requires
        accepted < u64::MAX,
    ensures
        stored_nonce(
            nonces.insert(coordinator, NonceState { nonce: (accepted + 1) as u64, salt_signature }),
            coordinator,
        ) != accepted,
{
}

} // verus!
