//! Rules of the payload store: where a payload is kept and for how long.

use vstd::prelude::*;
use vstd::string::StringExecFns;
use crate::domain::hash_id::HashId;
use crate::domain::payload::Payload;
use crate::domain::time::Timestamp;

verus! {

/// Redis configuration
#[derive(Debug, Clone, PartialEq, Eq)]
pub struct RedisConfig {
    /// Redis URL (e.g. "redis://localhost:6379")
    pub url: String,
    /// Maximum number of connections in the pool
    pub pool_max_size: usize,
    /// Connection timeout in seconds
    pub connection_timeout: u64,
}

impl Default for RedisConfig {
    fn default() -> (config: RedisConfig)
        ensures
            config.url@ == "redis://localhost:6379"@,
            config.pool_max_size == 16,
            config.connection_timeout == 5,
    {
        RedisConfig {
            url: String::from_str("redis://localhost:6379"),
            pool_max_size: 16,
            connection_timeout: 5,
        }
    }
}

/// Key under which the payload with this identifier is kept.
pub open spec fn payload_key_of(hash_id: Seq<char>) -> Seq<char> {
    "payload:"@ + hash_id
}

/// Computes the key under which a payload is kept.
pub fn payload_key(hash_id: &HashId) -> (key: String)
    ensures
        key@ == payload_key_of(hash_id@),
{
    String::from_str("payload:").concat(hash_id.as_string())
}

/// Payloads with different identifiers are kept under different keys.
pub proof fn lemma_payload_key_injective(a: Seq<char>, b: Seq<char>)
    ensures
        payload_key_of(a) == payload_key_of(b) <==> a == b,
{
    let prefix = "payload:"@;
    if payload_key_of(a) == payload_key_of(b) {
        assert(a =~= payload_key_of(a).subrange(prefix.len() as int, payload_key_of(a).len() as int));
        assert(b =~= payload_key_of(b).subrange(prefix.len() as int, payload_key_of(b).len() as int));
    }
}

/// Seconds for which a payload saved at `now` is kept: the whole seconds
/// from `now` to its expiry. A payload whose expiry is not at least a
/// second away is not saved at all.
pub fn save_ttl(payload: &Payload, now: Timestamp) -> (ttl: Option<u64>)
    ensures
        match ttl {
            Some(seconds) => seconds == payload@.expiry_time.seconds - now.seconds && seconds > 0,
            None => payload@.expiry_time.seconds - now.seconds <= 0,
        },
{
    payload.expiry_time().seconds_since(&now)
}

} // verus!
