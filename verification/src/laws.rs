//! What holds of every chain, proved over the records.

use crate::audit::{judges, IntegrityFailure};
use crate::model::{
    broken_link, commitment, extended, first_break, grown, intact, link_holds, with_hash,
    with_past, with_value, Record,
};
use vstd::prelude::*;

verus! {

/// A chain of one record is intact: there is no link to check.
pub proof fn lemma_genesis_intact(first: Record)
    ensures
        intact(seq![first]),
{
}

/// A chain with one more record is intact exactly if it was intact before
/// and the new record carries the commitment to the one that was newest.
pub proof fn lemma_push_intact(chain: Seq<Record>, record: Record)
    requires
        chain.len() >= 1,
    ensures
        intact(chain.push(record)) <==> intact(chain) && record.hash == commitment(
            chain.last().hash,
            chain.last().value,
        ),
{
    let longer = chain.push(record);
    let n = chain.len() as int;
    if intact(longer) {
        assert forall|i: int| 1 <= i < n implies #[trigger] link_holds(chain, i) by {
            assert(link_holds(longer, i));
        }
        assert(link_holds(longer, n));
    }
    if intact(chain) && record.hash == commitment(chain.last().hash, chain.last().value) {
        assert forall|i: int| 1 <= i < longer.len() implies #[trigger] link_holds(longer, i) by {
            if i < n {
                assert(link_holds(chain, i));
            }
        }
    }
}

/// Extending an intact chain leaves it intact.
pub proof fn lemma_extended_intact(chain: Seq<Record>, value: Seq<char>)
    requires
        chain.len() >= 1,
        intact(chain),
    ensures
        intact(extended(chain, value)),
{
    lemma_push_intact(chain, extended(chain, value).last());
}

/// One more commit on a chain that was made by commits gives the chain that
/// was made with one more value.
pub proof fn lemma_grown_push(first: Record, values: Seq<Seq<char>>, value: Seq<char>)
    ensures
        grown(first, values.push(value)) == extended(grown(first, values), value),
{
    assert(values.push(value).drop_last() == values);
}

/// A chain that was made by one first record and any number of commits is
/// intact, whatever the values and whatever the hash of the first record.
pub proof fn lemma_grown_intact(first: Record, values: Seq<Seq<char>>)
    ensures
        intact(grown(first, values)),
    decreases values.len(),
{
    if values.len() > 0 {
        lemma_grown_intact(first, values.drop_last());
        lemma_extended_intact(grown(first, values.drop_last()), values.last());
    }
}

/// A chain that was made by one first record and `k` commits has `k + 1`
/// records.
pub proof fn lemma_grown_len(first: Record, values: Seq<Seq<char>>)
    ensures
        grown(first, values).len() == values.len() + 1,
    decreases values.len(),
{
    if values.len() > 0 {
        lemma_grown_len(first, values.drop_last());
    }
}

/// Changing the value of a record breaks the link to its successor, unless
/// the digest does not tell the new value from the old one. The newest
/// record has no successor, and no link speaks of its value.
pub proof fn lemma_value_tamper_detected(chain: Seq<Record>, i: int, value: Seq<char>)
    requires
        intact(chain),
        0 <= i < chain.len() - 1,
        commitment(chain[i].hash, value) != commitment(chain[i].hash, chain[i].value),
    ensures
        !intact(with_value(chain, i, value)),
{
    let tampered = with_value(chain, i, value);
    assert(link_holds(chain, i + 1));
    assert(!link_holds(tampered, i + 1));
}

/// Changing the hash of any record but the first breaks the link to its
/// predecessor.
pub proof fn lemma_hash_tamper_detected(chain: Seq<Record>, i: int, hash: Seq<char>)
    requires
        intact(chain),
        1 <= i < chain.len(),
        hash != chain[i].hash,
    ensures
        !intact(with_hash(chain, i, hash)),
{
    let tampered = with_hash(chain, i, hash);
    assert(link_holds(chain, i));
    assert(!link_holds(tampered, i));
}

/// Giving record `i` of an intact chain another past: the records before it
/// are replaced by `upstream`. The result is intact exactly if `upstream` is
/// intact by itself and ends in a record that record `i` commits to. In
/// every other case a link is broken, at the junction or further up.
pub proof fn lemma_parent_substitution(chain: Seq<Record>, i: int, upstream: Seq<Record>)
    requires
        intact(chain),
        1 <= i < chain.len(),
        upstream.len() >= 1,
    ensures
        intact(with_past(chain, i, upstream)) <==> intact(upstream) && chain[i].hash
            == commitment(upstream.last().hash, upstream.last().value),
{
    let spliced = with_past(chain, i, upstream);
    let n = upstream.len() as int;
    if intact(spliced) {
        assert forall|j: int| 1 <= j < n implies #[trigger] link_holds(upstream, j) by {
            assert(link_holds(spliced, j));
        }
        assert(link_holds(spliced, n));
    }
    if intact(upstream) && chain[i].hash == commitment(
        upstream.last().hash,
        upstream.last().value,
    ) {
        assert forall|j: int| 1 <= j < spliced.len() implies #[trigger] link_holds(spliced, j) by {
            if j < n {
                assert(link_holds(upstream, j));
            } else if j > n {
                assert(link_holds(chain, j - n + i));
            }
        }
    }
}

/// The link that a walk from the newest record finds broken first is the
/// only one of its kind: whoever knows such a link knows `broken_link`.
pub proof fn lemma_broken_link_is(chain: Seq<Record>, i: int)
    requires
        first_break(chain, i),
    ensures
        broken_link(chain) == i,
{
    let j = broken_link(chain);
    assert(first_break(chain, j));
    if i < j {
        assert(link_holds(chain, j));
    } else if j < i {
        assert(link_holds(chain, i));
    }
}

/// A chain that is not intact has a link at which a walk from the newest
/// record stops.
pub proof fn lemma_broken_chain_has_first_break(chain: Seq<Record>)
    requires
        !intact(chain),
    ensures
        first_break(chain, broken_link(chain)),
    decreases chain.len(),
{
    let last = chain.len() - 1;
    if !link_holds(chain, last) {
        assert(first_break(chain, last));
    } else {
        let shorter = chain.drop_last();
        assert(!intact(shorter)) by {
            if intact(shorter) {
                assert forall|i: int| 1 <= i < chain.len() implies #[trigger] link_holds(
                    chain,
                    i,
                ) by {
                    if i < last {
                        assert(link_holds(shorter, i));
                    }
                }
            }
        }
        lemma_broken_chain_has_first_break(shorter);
        let k = broken_link(shorter);
        assert forall|j: int| k < j < chain.len() implies #[trigger] link_holds(chain, j) by {
            if j < last {
                assert(link_holds(shorter, j));
            }
        }
        assert(first_break(chain, k));
    }
}

/// Auditing the same records again gives the same answer: two verdicts on
/// one chain are both `Ok`, or both failures with the same height, hash and
/// value.
pub proof fn lemma_verdicts_agree(
    chain: Seq<Record>,
    first: Result<(), IntegrityFailure>,
    second: Result<(), IntegrityFailure>,
)
    requires
        judges(chain, first),
        judges(chain, second),
    ensures
        first is Ok <==> second is Ok,
        first matches Err(a) ==> second matches Err(b) && a.height == b.height && a.hash@
            == b.hash@ && a.value@ == b.value@,
{
}

} // verus!
