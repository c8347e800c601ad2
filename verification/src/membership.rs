//! Cluster membership.
use std::collections::HashSet;
use vstd::prelude::*;
use vstd::std_specs::iter::IteratorSpec;

verus! {

/// The ID of a Raft node.
pub type NodeId = u64;

/// The membership configuration of a cluster.
#[derive(Debug)]
pub struct MembershipConfig {
    /// All members of the cluster.
    pub members: HashSet<NodeId>,
    /// All members once joint consensus is finalized; present only during joint consensus.
    pub members_after_consensus: Option<HashSet<NodeId>>,
}

/// What a `MembershipConfig` holds.
pub struct MembershipView {
    pub members: Set<u64>,
    pub members_after_consensus: Option<Set<u64>>,
}

impl View for MembershipConfig {
    type V = MembershipView;

    open spec fn view(&self) -> MembershipView {
        MembershipView {
            members: self.members@,
            members_after_consensus: match self.members_after_consensus {
                Some(members) => Some(members@),
                None => None,
            },
        }
    }
}

/// The configuration of a cluster that consists of one node.
pub open spec fn initial_membership(id: NodeId) -> MembershipView {
    MembershipView { members: set![id], members_after_consensus: None }
}

/// Calls `async_raft::raft::MembershipConfig::new_initial`, which makes the configuration that
/// holds the given node and no other, outside joint consensus.
#[verifier::external_body]
fn new_initial_config(id: NodeId) -> (config: MembershipConfig)
    ensures
        config@ == initial_membership(id),
{
    let config = async_raft::raft::MembershipConfig::new_initial(id);
    MembershipConfig {
        members: config.members,
        members_after_consensus: config.members_after_consensus,
    }
}

/// Copies a set of node IDs.
fn clone_members(members: &HashSet<NodeId>) -> (copy: HashSet<NodeId>)
    ensures
        copy@ == members@,
{
    let iter = members.iter();
    let ghost ids = iter.remaining().unref();
    let mut copy: HashSet<NodeId> = HashSet::new();
    for id in it: iter
        invariant
            it.seq().unref() == ids,
            ids.to_set() == members@,
            copy@ == ids.take(it.index() as int).to_set(),
    {
        copy.insert(*id);
        proof {
            let seen = ids.take(it.index() as int);
            seen.lemma_push_to_set_commute(*id);
            assert(ids.take(it.index() + 1) == seen.push(*id));
        }
    }
    assert(ids.take(ids.len() as int) == ids);
    copy
}

impl MembershipConfig {
    /// The configuration of a pristine node: the node alone.
    pub fn new_initial(id: NodeId) -> (config: MembershipConfig)
        ensures
            config@ == initial_membership(id),
    {
        new_initial_config(id)
    }
}

impl Clone for MembershipConfig {
    fn clone(&self) -> (copy: Self)
        ensures
            copy@ == self@,
    {
        MembershipConfig {
            members: clone_members(&self.members),
            members_after_consensus: match &self.members_after_consensus {
                Some(members) => Some(clone_members(members)),
                None => None,
            },
        }
    }
}

} // verus!
