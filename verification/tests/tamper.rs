use blockchain::{Node, NodeE};

#[test]
fn valid_blockchain_is_valid() {
    let b = Node::new("hello").commit("1").commit("2");
    assert!(b.verify());
}

#[test]
fn value_tampered_blockchain_is_invalid() {
    let mut b = Node::new("hello").commit("1").commit("2");

    match b.parent {
        NodeE::Parent(ref mut b) => {
            b.value = "pies".to_owned();
        }
        _ => {}
    }

    assert!(!b.verify());
}

#[test]
fn hash_tampered_blockchain_is_invalid() {
    let mut b = Node::new("hello").commit("1").commit("2");

    match b.parent {
        NodeE::Parent(ref mut b) => {
            b.hash = "hash pies".to_owned();
        }
        _ => {}
    }

    assert!(!b.verify());
}

#[test]
fn parent_tampered_blockchain_is_invalid() {
    let mut b = Node::new("hello").commit("1").commit("2");

    match b.parent {
        NodeE::Parent(ref mut b) => match b.clone().parent {
            NodeE::Parent(ref mut b2) => {
                let n = Node {
                    hash: b2.clone().hash,
                    value: "bad parent".to_owned(),
                    parent: b2.clone().parent,
                };

                b.parent = NodeE::Parent(Box::new(n));
            }
            _ => {}
        },
        _ => {}
    }

    assert!(!b.verify());
}

#[test]
fn scenario_height_then_verify_then_tamper() {
    let chain = Node::new("hello").commit("1").commit("2");
    assert_eq!(chain.clone().height(), 3);
    assert!(chain.clone().verify());

    let mut tampered = chain;
    match tampered.parent {
        NodeE::Parent(ref mut middle) => middle.value = "pies".to_owned(),
        NodeE::Start => panic!("the tail has a parent"),
    }
    assert!(!tampered.verify());
}

#[test]
fn value_tamper_is_reported_at_the_tampered_node() {
    let mut chain = Node::with_nonce("42", "hello").commit("1").commit("2");
    match chain.parent {
        NodeE::Parent(ref mut middle) => middle.value = "pies".to_owned(),
        NodeE::Start => panic!("the tail has a parent"),
    }
    let failure = chain.audit().unwrap_err();
    assert_eq!(failure.height, 2);
    assert_eq!(
        failure.hash,
        "138efa82135d3cc8244f8907df51277ec91e85f1ddb034ff2dd7f71ef4e0cb47"
    );
    assert_eq!(failure.value, "pies");
}

#[test]
fn hash_tamper_is_reported_at_the_tampered_node() {
    let mut chain = Node::with_nonce("42", "hello").commit("1").commit("2");
    match chain.parent {
        NodeE::Parent(ref mut middle) => middle.hash = "hash pies".to_owned(),
        NodeE::Start => panic!("the tail has a parent"),
    }
    let failure = chain.audit().unwrap_err();
    assert_eq!(failure.height, 2);
    assert_eq!(failure.hash, "hash pies");
    assert_eq!(failure.value, "1");
}

#[test]
fn hash_tamper_of_the_tail_is_reported_at_its_parent() {
    let mut chain = Node::with_nonce("42", "hello").commit("1").commit("2");
    chain.hash = "0".repeat(64);
    let failure = chain.audit().unwrap_err();
    assert_eq!(failure.height, 2);
    assert_eq!(failure.value, "1");
    assert!(!chain.verify());
}

#[test]
fn substituted_first_node_is_reported_at_height_one() {
    let mut chain = Node::with_nonce("42", "hello").commit("1").commit("2");
    match chain.parent {
        NodeE::Parent(ref mut middle) => {
            let first_hash = match middle.parent {
                NodeE::Parent(ref first) => first.hash.clone(),
                NodeE::Start => panic!("the middle node has a parent"),
            };
            middle.parent = NodeE::Parent(Box::new(Node {
                hash: first_hash,
                value: "bad parent".to_owned(),
                parent: NodeE::Start,
            }));
        }
        NodeE::Start => panic!("the tail has a parent"),
    }
    let failure = chain.audit().unwrap_err();
    assert_eq!(failure.height, 1);
    assert_eq!(
        failure.hash,
        "bf8f966b65e6eb0f8d61707f0313574c67e98a8d468bc78439e963363487dc13"
    );
    assert_eq!(failure.value, "bad parent");
    assert!(!chain.verify());
}

#[test]
fn substituted_parent_with_another_past_is_detected() {
    let other = Node::with_nonce("7", "other").commit("x");
    let mut chain = Node::with_nonce("42", "hello").commit("1").commit("2");
    match chain.parent {
        NodeE::Parent(ref mut middle) => {
            let stand_in = Node {
                hash: middle.hash.clone(),
                value: middle.value.clone(),
                parent: NodeE::Parent(other),
            };
            **middle = stand_in;
        }
        NodeE::Start => panic!("the tail has a parent"),
    }
    let failure = chain.audit().unwrap_err();
    assert_eq!(failure.height, 2);
    assert_eq!(failure.value, "x");
    assert!(!chain.verify());
}

#[test]
fn only_the_first_break_from_the_tail_is_reported() {
    let mut chain = Node::with_nonce("42", "a")
        .commit("b")
        .commit("c")
        .commit("d");
    match chain.parent {
        NodeE::Parent(ref mut third) => {
            third.value = "C".to_owned();
            match third.parent {
                NodeE::Parent(ref mut second) => second.value = "B".to_owned(),
                NodeE::Start => panic!("the third node has a parent"),
            }
        }
        NodeE::Start => panic!("the tail has a parent"),
    }
    let failure = chain.audit().unwrap_err();
    assert_eq!(failure.height, 3);
    assert_eq!(failure.value, "C");
}

#[test]
fn value_of_the_tail_is_bound_by_no_link() {
    let mut chain = Node::new("hello").commit("1").commit("2");
    chain.value = "pies".to_owned();
    assert!(chain.verify());
}

#[test]
fn hash_of_the_first_node_is_checked_through_its_successor_only() {
    let mut alone = Node::new("hello");
    alone.hash = "anything".to_owned();
    assert!(alone.verify());

    let mut chain = Node::new("hello").commit("1");
    match chain.parent {
        NodeE::Parent(ref mut first) => first.hash = "anything".to_owned(),
        NodeE::Start => panic!("the tail has a parent"),
    }
    assert!(!chain.verify());
}

#[test]
fn cutting_off_the_past_goes_unnoticed() {
    let mut chain = Node::new("hello").commit("1").commit("2");
    match chain.parent {
        NodeE::Parent(ref mut middle) => middle.parent = NodeE::Start,
        NodeE::Start => panic!("the tail has a parent"),
    }
    assert!(chain.clone().verify());
    assert_eq!(chain.height(), 2);
}
