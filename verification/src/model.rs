//! The chain as mathematics: a sequence of records, oldest first.

use crate::digest::{sha256_hex, DIGEST_LIMIT};
use vstd::prelude::*;

verus! {

/// What one node of a chain holds, apart from its predecessor.
pub struct Record {
    pub hash: Seq<char>,
    pub value: Seq<char>,
}

/// The hash that the successor of a record with this hash and value carries:
/// the digest of the two, hash first.
pub open spec fn commitment(hash: Seq<char>, value: Seq<char>) -> Seq<char> {
    sha256_hex(hash + value)
}

/// The record's hash and value together are short enough to be digested.
pub open spec fn fits(record: Record) -> bool {
    record.hash.len() + record.value.len() < DIGEST_LIMIT
}

/// Every record that has a successor can be digested, which is what a walk
/// over the links needs.
pub open spec fn digestible(chain: Seq<Record>) -> bool {
    forall|i: int| 0 <= i < chain.len() - 1 ==> fits(#[trigger] chain[i])
}

/// Record `i` carries the commitment to record `i - 1`.
pub open spec fn link_holds(chain: Seq<Record>, i: int) -> bool {
    chain[i].hash == commitment(chain[i - 1].hash, chain[i - 1].value)
}

/// Every record but the first carries the commitment to its predecessor.
/// Nothing is asked of the first record's own hash.
pub open spec fn intact(chain: Seq<Record>) -> bool {
    forall|i: int| 1 <= i < chain.len() ==> #[trigger] link_holds(chain, i)
}

/// Link `i` is broken and every link after it holds: `i` is where a walk
/// from the newest record towards the oldest stops.
pub open spec fn first_break(chain: Seq<Record>, i: int) -> bool {
    &&& 1 <= i < chain.len()
    &&& !link_holds(chain, i)
    &&& forall|j: int| i < j < chain.len() ==> #[trigger] link_holds(chain, j)
}

/// The link at which a walk from the newest record stops, if there is one.
pub open spec fn broken_link(chain: Seq<Record>) -> int {
    choose|i: int| first_break(chain, i)
}

/// The chain with one more record, which holds `value` and the commitment
/// to the record that was newest so far.
pub open spec fn extended(chain: Seq<Record>, value: Seq<char>) -> Seq<Record>
    recommends
        chain.len() > 0,
{
    chain.push(Record { hash: commitment(chain.last().hash, chain.last().value), value })
}

/// The chain that starts with `first` and is extended by each of `values`
/// in turn.
pub open spec fn grown(first: Record, values: Seq<Seq<char>>) -> Seq<Record>
    decreases values.len(),
{
    if values.len() == 0 {
        seq![first]
    } else {
        extended(grown(first, values.drop_last()), values.last())
    }
}

/// The chain after the value of record `i` was changed to `value`.
pub open spec fn with_value(chain: Seq<Record>, i: int, value: Seq<char>) -> Seq<Record>
    recommends
        0 <= i < chain.len(),
{
    chain.update(i, Record { hash: chain[i].hash, value })
}

/// The chain after the hash of record `i` was changed to `hash`.
pub open spec fn with_hash(chain: Seq<Record>, i: int, hash: Seq<char>) -> Seq<Record>
    recommends
        0 <= i < chain.len(),
{
    chain.update(i, Record { hash, value: chain[i].value })
}

/// The chain after record `i` was given another parent: `upstream` stands
/// where the records before record `i` stood, its last record being the new
/// parent.
pub open spec fn with_past(chain: Seq<Record>, i: int, upstream: Seq<Record>) -> Seq<Record>
    recommends
        1 <= i < chain.len(),
        upstream.len() >= 1,
{
    upstream + chain.skip(i)
}

/// A count as a `u64` holds it: the count itself, or the largest `u64`
/// where the count is beyond it.
pub open spec fn clamped(n: int) -> u64 {
    if n <= u64::MAX {
        n as u64
    } else {
        u64::MAX
    }
}

} // verus!
