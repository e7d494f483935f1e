//! The Soroban host objects that the verified logic touches, and the
//! trusted contracts of the host calls it makes.

use vstd::prelude::*;
use soroban_sdk::Env;
use soroban_sdk::Map as HostMap;

verus! {

#[verifier::external_type_specification]
#[verifier::external_body]
pub struct ExEnv(Env);

#[verifier::external_type_specification]
#[verifier::external_body]
#[verifier::reject_recursive_types(K)]
#[verifier::reject_recursive_types(V)]
pub struct ExHostMap<K, V>(HostMap<K, V>);

/// The key-value pairs held by a host map from price values to positions.
pub uninterp spec fn value_index_entries(index: HostMap<u64, u64>) -> Map<u64, u64>;

/// `soroban_sdk::Map::new`: a fresh host map holds no entries. Like every
/// host call it is charged to the invocation's budget, and an exhausted
/// budget aborts the invocation; no clause states that.
#[verifier::external_body]
pub(crate) fn value_index_new(env: &Env) -> (fresh: HostMap<u64, u64>)
    ensures
        value_index_entries(fresh) =~= Map::empty(),
{
    HostMap::new(env)
}

/// `soroban_sdk::Map::get`: the value stored under `key`, if any (the host
/// checks presence, then reads). Budget exhaustion is not stated.
#[verifier::external_body]
pub(crate) fn value_index_get(index: &HostMap<u64, u64>, key: u64) -> (found: Option<u64>)
    ensures
        found == (if value_index_entries(*index).contains_key(key) {
            Some(value_index_entries(*index)[key])
        } else {
            None::<u64>
        }),
{
    index.get(key)
}

/// `soroban_sdk::Map::set`: the map afterwards holds `value` under `key`,
/// replacing any earlier value, and is otherwise unchanged. Budget exhaustion
/// is not stated.
#[verifier::external_body]
pub(crate) fn value_index_set(index: &mut HostMap<u64, u64>, key: u64, value: u64)
    ensures
        value_index_entries(*final(index)) == value_index_entries(*old(index)).insert(key, value),
{
    index.set(key, value)
}

/// The SHA-256 digest of a byte string.
pub uninterp spec fn sha256_digest(data: Seq<u8>) -> Seq<u8>;

/// `soroban_sdk::crypto::Crypto::sha256`, run by the host of `env`: the
/// SHA-256 digest of `data`, 32 bytes long. The host charges the call to the
/// invocation's budget; an exhausted budget aborts the invocation, which no
/// clause states.
#[verifier::external_body]
pub(crate) fn host_sha256(env: &Env, data: &Vec<u8>) -> (digest: Vec<u8>)
    ensures
        digest@ == sha256_digest(data@),
        digest@.len() == 32,
{
    env.crypto().sha256(&soroban_sdk::Bytes::from_slice(env, data.as_slice())).to_array().to_vec()
}

} // verus!
