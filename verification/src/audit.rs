//! Walking the links of a chain and saying where they break.

use crate::digest::{digest_of_pair, DIGEST_LIMIT};
use crate::model::{
    broken_link, clamped, digestible, first_break, fits, intact, link_holds, Record,
};
use crate::node::{Node, NodeE};
use vstd::prelude::*;
use vstd::string::StrSliceExecFns;

verus! {

/// Where a walk over the links stopped: the node that its successor does not
/// commit to.
#[derive(Debug, PartialEq, Eq)]
pub struct IntegrityFailure {
    /// Height of that node: 1 for the first node of the chain.
    pub height: u64,
    /// Its hash.
    pub hash: String,
    /// Its value.
    pub value: String,
}

impl IntegrityFailure {
    /// The failure names link `i` of `chain`: it holds the height, hash and
    /// value of record `i - 1`, the older end of the link.
    pub open spec fn reports(&self, chain: Seq<Record>, i: int) -> bool {
        &&& self.height == clamped(i)
        &&& self.hash@ == chain[i - 1].hash
        &&& self.value@ == chain[i - 1].value
    }
}

/// What an audit of `chain` answers. `Ok` says that the chain is intact. An
/// error says that it is not, and describes the link at which a walk from
/// the newest record stops.
pub open spec fn judges(chain: Seq<Record>, verdict: Result<(), IntegrityFailure>) -> bool {
    match verdict {
        Ok(_) => intact(chain),
        Err(failure) => {
            &&& !intact(chain)
            &&& first_break(chain, broken_link(chain))
            &&& failure.reports(chain, broken_link(chain))
        },
    }
}

impl Node {
    /// Decides the link between this node and its successor, given the hash
    /// that the successor carries and the commitment that was computed from
    /// this node. Where the two differ, the failure describes this node.
    pub fn check_link(&self, carried: &String, computed: &String) -> (verdict: Result<
        (),
        IntegrityFailure,
    >)
        ensures
            verdict is Ok <==> carried@ == computed@,
            verdict matches Err(failure) ==> failure.height == clamped(self@.len() as int)
                && failure.hash@ == self.hash@ && failure.value@ == self.value@,
    {
        if *carried == *computed {
            Ok(())
        } else {
            Err(
                IntegrityFailure {
                    height: self.depth(),
                    hash: self.hash.clone(),
                    value: self.value.clone(),
                },
            )
        }
    }

    /// Walks from this node towards the first one and recomputes, for each
    /// node, the commitment to its parent. The walk stops at the first link
    /// whose commitment differs from the hash that the node carries, and the
    /// failure then describes the parent of that link. The hash of the first
    /// node is compared with nothing.
    ///
    /// Every node that has a successor must stay below the limit of the
    /// digest.
    pub fn audit(&self) -> (verdict: Result<(), IntegrityFailure>)
        requires
            digestible(self@),
        ensures
            judges(self@, verdict),
    {
        let mut cur: &Node = self;
        loop
            invariant
                1 <= cur@.len() <= self@.len(),
                cur@ == self@.take(cur@.len() as int),
                forall|j: int| cur@.len() <= j < self@.len() ==> #[trigger] link_holds(self@, j),
                digestible(self@),
            decreases cur@.len(),
        {
            match &cur.parent {
                NodeE::Start => {
                    return Ok(());
                },
                NodeE::Parent(p) => {
                    let ghost i = cur@.len() - 1;
                    proof {
                        p.lemma_tail();
                        assert(self@[i] == cur@[i]);
                        assert(p@ == self@.take(i));
                    }
                    let computed = digest_of_pair(p.hash.as_str(), p.value.as_str());
                    let link = p.check_link(&cur.hash, &computed);
                    if link.is_err() {
                        assert(first_break(self@, i));
                        return link;
                    }
                    cur = &**p;
                },
            }
        }
    }

    /// Whether every node but the first carries the commitment to its
    /// parent. The chain is taken apart on the way.
    ///
    /// Every node that has a successor must stay below the limit of the
    /// digest.
    pub fn verify(self) -> (ok: bool)
        requires
            digestible(self@),
        ensures
            ok == intact(self@),
    {
        let ok = self.audit().is_ok();
        self.release();
        ok
    }

    /// Whether the hash and value of this node are together short enough to
    /// be digested: what `commit` asks of the node it extends.
    pub fn is_committable(&self) -> (yes: bool)
        ensures
            yes == fits(self.record()),
    {
        let hash_len = self.hash.as_str().unicode_len();
        let value_len = self.value.as_str().unicode_len();
        (hash_len as u64) < DIGEST_LIMIT && (value_len as u64) < DIGEST_LIMIT - (hash_len as u64)
    }

    /// Whether every node that has a successor can be digested: what `audit`
    /// and `verify` ask of the chain.
    pub fn is_digestible(&self) -> (yes: bool)
        ensures
            yes == digestible(self@),
    {
        let mut cur: &Node = self;
        loop
            invariant
                1 <= cur@.len() <= self@.len(),
                cur@ == self@.take(cur@.len() as int),
                forall|j: int| cur@.len() - 1 <= j < self@.len() - 1 ==> fits(#[trigger] self@[j]),
            decreases cur@.len(),
        {
            match &cur.parent {
                NodeE::Start => {
                    return true;
                },
                NodeE::Parent(p) => {
                    proof {
                        p.lemma_tail();
                        assert(p@ == self@.take(cur@.len() - 1));
                    }
                    if !p.is_committable() {
                        return false;
                    }
                    cur = &**p;
                },
            }
        }
    }
}

} // verus!
