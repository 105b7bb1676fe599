//! The files that an imported state is published as.

use vstd::prelude::*;
use crate::migrate::protocol::LegacyCacheState;
use crate::migrate::transaction::ImportError;

verus! {

/// The three files of a state, with the hashes of the binary ones.
pub struct EncodedSnapshot {
    pub ages: Vec<u8>,
    pub lru: Vec<u8>,
    pub info: Vec<u8>,
    pub ages_hash: String,
    pub lru_hash: String,
}

/// Whether the files are those of a state whose ages are listed as `pairs`.
pub open spec fn is_snapshot_of(
    s: EncodedSnapshot,
    state: crate::cache::persistent::StateView,
    pairs: Seq<(Seq<char>, u64)>,
) -> bool {
    &&& s.ages@ == crate::cache::persistent::encoded_ages(pairs)
    &&& s.lru@ == crate::cache::persistent::encoded_table(state.lru_cache_table)
    &&& s.ages_hash@ == crate::utils::sha1_text(s.ages@)
    &&& s.lru_hash@ == crate::utils::sha1_text(s.lru@)
    &&& s.info@ == vstd::utf8::encode_utf8(
        crate::cache::persistent::info_text(
            state.cache_count,
            state.cache_size,
            state.lru_clear_pointer,
            s.ages_hash@,
            s.lru_hash@,
        ),
    )
}

/// The files of a state. Every state has its files.
pub fn encode(state: &LegacyCacheState) -> (r: Result<EncodedSnapshot, ImportError>)
    ensures
        r matches Ok(s) && is_snapshot_of(s, state@, state.static_range_ages.pairs()),
{
    let e = crate::cache::persistent::encode_state(
        state.cache_count,
        state.cache_size,
        state.lru_clear_pointer,
        &state.static_range_ages,
        &state.lru_cache_table,
    );
    Ok(
        EncodedSnapshot {
            ages: e.ages,
            lru: e.lru,
            info: vstd::slice::slice_to_vec(e.info.as_str().as_bytes()),
            ages_hash: e.ages_hash,
            lru_hash: e.lru_hash,
        },
    )
}

/// The SHA-1 digest of some bytes as hexadecimal text.
pub fn sha1_hex(bytes: &[u8]) -> (r: String)
    ensures
        r@ == crate::utils::sha1_text(bytes@),
{
    crate::utils::sha1_bytes(bytes)
}

/// The client restores from the files of an imported state exactly that state.
pub proof fn imported_state_is_restored(
    s: EncodedSnapshot,
    state: crate::cache::persistent::StateView,
    pairs: Seq<(Seq<char>, u64)>,
)
    requires
        is_snapshot_of(s, state, pairs),
        state.static_range_ages == crate::cache::ages::map_of(pairs),
        crate::cache::persistent::fits(pairs),
        state.lru_cache_table.len() <= u64::MAX,
    ensures
        crate::cache::persistent::restored(
            vstd::utf8::decode_utf8(s.info@),
            s.ages@,
            s.lru@,
        ) == Some(state),
{
    crate::cache::persistent::saved_state_is_restored(
        state.cache_count,
        state.cache_size,
        state.lru_clear_pointer,
        pairs,
        state.lru_cache_table,
    );
    vstd::utf8::encode_utf8_decode_utf8(
        crate::cache::persistent::info_text(
            state.cache_count,
            state.cache_size,
            state.lru_clear_pointer,
            s.ages_hash@,
            s.lru_hash@,
        ),
    );
}

} // verus!
