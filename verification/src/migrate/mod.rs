//! Import of a persistent cache from an HPCACHE/1 stream.

pub mod protocol;
pub mod test_support;
pub mod transaction;
pub mod writer;

use vstd::prelude::*;

verus! {

/// Reads a stream and gives the files to publish.
pub fn import_from_reader(input: &[u8]) -> (r: Result<
    writer::EncodedSnapshot,
    transaction::ImportError,
>)
    ensures
        match r {
            Ok(s) => protocol::read_result(input@) is Ok && writer::is_snapshot_of(
                s,
                protocol::read_result(input@)->Ok_0.0,
                protocol::read_result(input@)->Ok_0.1,
            ),
            Err(transaction::ImportError::Protocol(e)) => protocol::read_result(input@) == Err::<
                (crate::cache::persistent::StateView, Seq<(Seq<char>, u64)>),
                protocol::ProtocolErrorView,
            >(e@),
            Err(_) => false,
        },
{
    match protocol::read(input) {
        Ok(state) => writer::encode(&state),
        Err(e) => Err(transaction::ImportError::Protocol(e)),
    }
}

} // verus!
