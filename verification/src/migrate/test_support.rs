//! Streams to try the import with.

use vstd::prelude::*;
use crate::cache::persistent::StateView;
use crate::migrate::protocol::{LegacyCacheState, ProtocolErrorView};

verus! {

/// The stream that holds a state.
pub fn encode_hpcache_v1(state: &LegacyCacheState) -> (r: Vec<u8>)
    ensures
        r@ == crate::migrate::protocol::stream(
            state.cache_count,
            state.cache_size,
            state.lru_clear_pointer,
            state.static_range_ages.pairs(),
            state.lru_cache_table@,
        ),
        crate::migrate::protocol::sha256_digest(
            crate::migrate::protocol::stream_body(
                state.cache_count,
                state.cache_size,
                state.lru_clear_pointer,
                state.static_range_ages.pairs(),
                state.lru_cache_table@,
            ),
        ).len() == 32,
        r@.len() == 66 + crate::migrate::protocol::range_entries(
            state.static_range_ages.pairs(),
        ).len() + 2 * state.lru_cache_table@.len(),
        crate::migrate::protocol::streamable(
            state.lru_clear_pointer,
            state.static_range_ages.pairs(),
            state.lru_cache_table@,
        ) ==> crate::migrate::protocol::read_result(r@) == Ok::<
            (StateView, Seq<(Seq<char>, u64)>),
            ProtocolErrorView,
        >((state@, state.static_range_ages.pairs())),
{
    crate::migrate::protocol::encode_hpcache_v1_for_test(state)
}

} // verus!
