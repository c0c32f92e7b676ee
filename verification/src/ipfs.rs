//! Off-chain content access: JSON parsing and the streaming-map
//! orchestrator's decision logic.
//!
//! Fetching bytes, opening the lazy record stream and spawning sandbox
//! instances are the embedder's work; this module decides. The flag set
//! must carry the marker `json` before anything is fetched, and the
//! collected per-record outcomes become one block state per record, in
//! stream order — any per-record failure aborts the whole operation.

use vstd::prelude::*;
use vstd::string::{StringExecFns, StrSliceExecFns};
use crate::errors::HostExportError;
use crate::state::BlockState;
use crate::value::{contains_str, str_vec_contains};

verus! {

broadcast use vstd::std_specs::vec::group_vec_axioms, vstd::seq::group_seq_axioms;

/// What one spawned sandbox instance produced for one streamed record.
pub enum CallbackOutcome {
    /// The callback ran to completion with this block state.
    State(BlockState),
    /// The callback failed with this message.
    Failure(String),
}

/// Every streamed record's callback ran to completion.
pub open spec fn all_states(outcomes: Seq<CallbackOutcome>) -> bool {
    forall|i: int| 0 <= i < outcomes.len() ==> (#[trigger] outcomes[i]) is State
}

/// The contextual prefix every streaming-map failure carries: it names
/// the callback and the source content identifier.
pub open spec fn ipfs_map_err_prefix(link: Seq<char>, callback: Seq<char>) -> Seq<char> {
    "ipfs_map: callback '"@ + callback + "' failed when processing file '"@ + link + "': "@
}

/// Renders the contextual failure prefix.
fn ipfs_map_errmsg(link: &String, callback: &String) -> (r: String)
    ensures
        r@ == ipfs_map_err_prefix(link@, callback@),
{
    let mut m = String::from_str("ipfs_map: callback '");
    m.append(callback.as_str());
    m.append("' failed when processing file '");
    m.append(link.as_str());
    m.append("': ");
    m
}

/// Folds the streaming map's collected outcomes: the flag set must hold
/// the marker `json` before anything else happens; then every record's
/// callback must have produced a block state, and the states come back
/// in stream order, one per record. Any per-record failure aborts the
/// whole operation with a retryable error naming the callback and the
/// content identifier.
pub fn ipfs_map(
    link: &String,
    callback: &String,
    flags: &Vec<String>,
    outcomes: Vec<CallbackOutcome>,
) -> (r: Result<Vec<BlockState>, HostExportError>)
    ensures
        !contains_str(flags@, "json"@) ==> (r matches Err(e) && e is Deterministic),
        contains_str(flags@, "json"@) && all_states(outcomes@) ==> (r matches Ok(v) && v@.len()
            == outcomes@.len() && (forall|i: int|
            0 <= i < outcomes@.len() ==> ((#[trigger] outcomes@[i]) matches CallbackOutcome::State(
                s,
            ) && v@[i] == s))),
        contains_str(flags@, "json"@) && !all_states(outcomes@) ==> (r matches Err(e) && e
            matches HostExportError::Unknown(m) && m@.len() >= ipfs_map_err_prefix(
            link@,
            callback@,
        ).len() && m@.take(ipfs_map_err_prefix(link@, callback@).len() as int)
            == ipfs_map_err_prefix(link@, callback@)),
{
    let json_flag = String::from_str("json");
    if !str_vec_contains(flags, &json_flag) {
        return Err(HostExportError::Deterministic(String::from_str("flags must contain 'json'")));
    }
    let n = outcomes.len();
    let mut rem = outcomes;
    let mut states: Vec<BlockState> = Vec::new();
    let ghost all = rem@;
    proof {
        assert(rem@ =~= all.skip(0));
    }
    let mut i: usize = 0;
    while i < n
        invariant
            i <= n,
            n == all.len(),
            all == outcomes@,
            contains_str(flags@, "json"@),
            rem@ == all.skip(i as int),
            states@.len() == i as int,
            forall|j: int|
                0 <= j < i as int ==> ((#[trigger] all[j]) matches CallbackOutcome::State(s)
                    && states@[j] == s),
        decreases n - i,
    {
        proof {
            assert(rem@[0] == all.skip(i as int)[0]);
            assert(all.skip(i as int)[0] == all[i as int]);
            assert(rem@.skip(1) =~= all.skip(i as int + 1));
        }
        let o = rem.remove(0);
        match o {
            CallbackOutcome::State(s) => {
                states.push(s);
            },
            CallbackOutcome::Failure(m) => {
                proof {
                    assert(!((all[i as int]) is State));
                    assert(!all_states(all));
                }
                let mut full = ipfs_map_errmsg(link, callback);
                full.append(m.as_str());
                proof {
                    assert(full@.take(ipfs_map_err_prefix(link@, callback@).len() as int)
                        =~= ipfs_map_err_prefix(link@, callback@));
                }
                return Err(HostExportError::Unknown(full));
            },
        }
        i = i + 1;
    }
    Ok(states)
}

} // verus!
