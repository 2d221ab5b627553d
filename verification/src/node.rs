//! The chain node: record and chain in one.

use crate::digest::{digest_of_pair, sha256_hex, DIGEST_LIMIT};
use crate::laws::lemma_push_intact;
use crate::model::{clamped, commitment, extended, fits, intact, Record};
use crate::nonce::{
    clock_nanos, decimal_text, lemma_decimal_len, pow10, stamped, NANOS_DIGITS, NANOS_PER_SEC,
};
use vstd::prelude::*;

verus! {

/// What precedes a node.
#[derive(Debug)]
pub enum NodeE {
    /// The node before this one, owned by it.
    Parent(Box<Node>),
    /// Nothing: the node is the first of its chain.
    Start,
}

/// A record of the chain together with everything before it. The node that
/// a caller holds is the newest one, the tail.
#[derive(Debug)]
pub struct Node {
    pub hash: String,
    pub value: String,
    pub parent: NodeE,
}

impl View for Node {
    type V = Seq<Record>;

    /// The records of the chain, oldest first.
    open spec fn view(&self) -> Seq<Record> {
        self.records()
    }
}

impl Node {
    /// The hash and value of this node alone.
    pub open spec fn record(&self) -> Record {
        Record { hash: self.hash@, value: self.value@ }
    }

    /// The records from the first node of the chain up to this one.
    pub open spec fn records(&self) -> Seq<Record>
        decreases self,
    {
        match self.parent {
            NodeE::Start => seq![self.record()],
            NodeE::Parent(p) => p.records().push(self.record()),
        }
    }

    /// The node `k` steps back from this one: the node itself for 0, the
    /// first node of the chain for every `k` that leads beyond it.
    pub open spec fn ancestor(&self, k: nat) -> Node
        decreases k,
    {
        if k == 0 {
            *self
        } else {
            match self.parent {
                NodeE::Start => *self,
                NodeE::Parent(p) => p.ancestor((k - 1) as nat),
            }
        }
    }

    /// `texts` holds the hash and value of the first nodes of the walk back
    /// from this one, each of which has a parent.
    spec fn copied(&self, texts: Seq<(String, String)>) -> bool {
        forall|k: int|
            0 <= k < texts.len() ==> {
                let node = #[trigger] self.ancestor(k as nat);
                &&& texts[k].0 == node.hash
                &&& texts[k].1 == node.value
                &&& node.parent == NodeE::Parent(Box::new(self.ancestor((k + 1) as nat)))
            }
    }

    /// A chain is never empty, and its newest record is that of the node
    /// one holds.
    pub proof fn lemma_tail(&self)
        ensures
            self@.len() >= 1,
            self@.last() == self.record(),
            self.parent is Start ==> self@ == seq![self.record()],
            self.parent matches NodeE::Parent(p) ==> self@ == p@.push(self.record()),
    {
    }

    /// One step further back from the node `k` steps back is the node
    /// `k + 1` steps back.
    proof fn lemma_ancestor_step(&self, k: nat)
        ensures
            self.ancestor(k).parent matches NodeE::Parent(p) ==> *p == self.ancestor(k + 1),
        decreases k,
    {
        reveal_with_fuel(Node::ancestor, 2);
        if k > 0 {
            match self.parent {
                NodeE::Start => {},
                NodeE::Parent(p) => {
                    p.lemma_ancestor_step((k - 1) as nat);
                },
            }
        }
    }

    /// A first node with the given hash and value. No link will ever speak
    /// of this hash, so any text is as good as another.
    pub fn genesis(hash: String, val: &str) -> (node: Box<Node>)
        ensures
            node.hash@ == hash@,
            node.value@ == val@,
            node.parent is Start,
            node@ == seq![node.record()],
            intact(node@),
    {
        Box::new(Node { hash, value: val.to_owned(), parent: NodeE::Start })
    }

    /// A first node that holds `val`. Its hash is the digest of `nonce`
    /// followed by `val`, so that two chains that start with the same value
    /// start with different hashes as long as their nonces differ.
    ///
    /// The two texts together must stay below the limit of the digest.
    pub fn with_nonce(nonce: &str, val: &str) -> (node: Box<Node>)
        requires
            nonce@.len() + val@.len() < DIGEST_LIMIT,
        ensures
            node.hash@ == sha256_hex(nonce@ + val@),
            node.hash@.len() == 64,
            node.value@ == val@,
            node.parent is Start,
            node@ == seq![node.record()],
            intact(node@),
    {
        let hash = digest_of_pair(nonce, val);
        Node::genesis(hash, val)
    }

    /// A first node that holds `val`, with the nanosecond part of the
    /// current time, written in decimal, as its nonce. Which reading the
    /// clock gave is not known afterwards: the hash is that of one of them.
    ///
    /// The value must leave room for the nonce below the limit of the
    /// digest.
    pub fn new(val: &str) -> (node: Box<Node>)
        requires
            val@.len() + NANOS_DIGITS < DIGEST_LIMIT,
        ensures
            exists|nanos: nat|
                nanos < NANOS_PER_SEC && node.hash@ == #[trigger] stamped(nanos, val@),
            node.hash@.len() == 64,
            node.value@ == val@,
            node.parent is Start,
            node@ == seq![node.record()],
            intact(node@),
    {
        let nanos = clock_nanos();
        let nonce = decimal_text(nanos as u64);
        proof {
            assert(pow10(9) == NANOS_PER_SEC) by {
                reveal_with_fuel(pow10, 10);
            }
            lemma_decimal_len(nanos as nat, 9);
        }
        let node = Node::with_nonce(nonce.as_str(), val);
        assert(node.hash@ == stamped(nanos as nat, val@));
        node
    }

    /// Puts a node with the given hash and value on top of this one, which
    /// the new node owns as its parent from now on. The longer chain is
    /// intact exactly if this one is and `hash` is the commitment to this
    /// node.
    pub fn append(self, hash: String, val: &str) -> (node: Box<Node>)
        ensures
            node.hash@ == hash@,
            node.value@ == val@,
            node.parent == NodeE::Parent(Box::new(self)),
            node@ == self@.push(node.record()),
            intact(node@) <==> intact(self@) && hash@ == commitment(self.hash@, self.value@),
    {
        proof {
            lemma_push_intact(self@, (Record { hash: hash@, value: val@ }));
        }
        Box::new(Node { hash, value: val.to_owned(), parent: NodeE::Parent(Box::new(self)) })
    }

    /// Extends the chain by a node that holds `val`. The new node owns this
    /// one as its parent, and its hash is the commitment to this node's hash
    /// and value as they are now.
    ///
    /// Hash and value of this node must together stay below the limit of
    /// the digest.
    pub fn commit(self, val: &str) -> (node: Box<Node>)
        requires
            fits(self.record()),
        ensures
            node.hash@ == commitment(self.hash@, self.value@),
            node.hash@.len() == 64,
            node.value@ == val@,
            node.parent == NodeE::Parent(Box::new(self)),
            node@ == extended(self@, val@),
            node@.len() == self@.len() + 1,
            intact(self@) ==> intact(node@),
    {
        let hash = digest_of_pair(self.hash.as_str(), self.value.as_str());
        self.append(hash, val)
    }

    /// Counts the nodes from this one back to the first, which counts too.
    /// The walk is a loop, however long the chain. A count beyond the
    /// largest `u64` comes out as that number.
    pub fn depth(&self) -> (count: u64)
        ensures
            count == clamped(self@.len() as int),
    {
        let mut count: u64 = 1;
        let mut cur: &Node = self;
        loop
            invariant
                1 <= cur@.len() <= self@.len(),
                count == clamped(self@.len() - cur@.len() + 1),
            ensures
                cur@.len() == 1,
            decreases cur@.len(),
        {
            match &cur.parent {
                NodeE::Start => {
                    break ;
                },
                NodeE::Parent(p) => {
                    if count < u64::MAX {
                        count = count + 1;
                    }
                    cur = &**p;
                },
            }
        }
        count
    }

    /// The number of nodes in the chain: 1 for a first node alone, one more
    /// with each commit. The chain is taken apart on the way.
    pub fn height(self) -> (count: u64)
        ensures
            count == clamped(self@.len() as int),
    {
        let count = self.depth();
        self.release();
        count
    }

    /// Frees the chain node by node, from this one back to the first, so
    /// that giving up a long chain takes no deep recursion.
    pub(crate) fn release(self) {
        let mut cur = self;
        loop
            invariant
                cur@.len() >= 1,
            decreases cur@.len(),
        {
            match cur.parent {
                NodeE::Start => {
                    break ;
                },
                NodeE::Parent(p) => {
                    cur = *p;
                },
            }
        }
    }
}

impl Clone for Node {
    /// A copy of the whole chain. It is made in two loops, one back to the
    /// first node and one forward again, so its depth costs no stack.
    fn clone(&self) -> (copy: Self)
        ensures
            copy == *self,
    {
        let mut texts: Vec<(String, String)> = Vec::new();
        let mut cur: &Node = self;
        loop
            invariant
                *cur == self.ancestor(texts@.len()),
                self.copied(texts@),
            ensures
                cur.parent is Start,
            decreases cur@.len(),
        {
            match &cur.parent {
                NodeE::Start => {
                    break ;
                },
                NodeE::Parent(p) => {
                    proof {
                        self.lemma_ancestor_step(texts@.len());
                    }
                    texts.push((cur.hash.clone(), cur.value.clone()));
                    cur = &**p;
                },
            }
        }
        let mut copy = Node {
            hash: cur.hash.clone(),
            value: cur.value.clone(),
            parent: NodeE::Start,
        };
        while texts.len() > 0
            invariant
                copy == self.ancestor(texts@.len()),
                self.copied(texts@),
            decreases texts@.len(),
        {
            let (hash, value) = texts.pop().unwrap();
            copy = Node { hash, value, parent: NodeE::Parent(Box::new(copy)) };
        }
        copy
    }
}

impl Clone for NodeE {
    fn clone(&self) -> (copy: Self)
        ensures
            copy == *self,
    {
        match self {
            NodeE::Start => NodeE::Start,
            NodeE::Parent(p) => NodeE::Parent(Box::new((**p).clone())),
        }
    }
}

} // verus!
