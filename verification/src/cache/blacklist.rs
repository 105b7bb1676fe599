//! Files that the servers want gone.

use vstd::prelude::*;
use crate::rpc::{ResponseStatus, ServerResponse};

verus! {

/// The seconds of changes that are asked for at startup.
pub const INITIAL_DELTA: u64 = 259_200;

/// The seconds of changes that are asked for later.
pub const PERIODIC_DELTA: u64 = 43_200;

/// The files that an answer of the servers lists, where the call went well.
pub fn listed_files(reply: Option<&ServerResponse>) -> (r: Option<Vec<String>>)
    ensures
        match r {
            Some(v) => reply matches Some(s) && s.status == ResponseStatus::Okay && crate::text::texts(v@)
                == s@.lines,
            None => !(reply matches Some(s) && s.status == ResponseStatus::Okay),
        },
{
    match reply {
        Some(s) => {
            if s.status == ResponseStatus::Okay {
                Some(crate::text::copy_all(&s.lines))
            } else {
                None
            }
        },
        None => None,
    }
}

} // verus!
