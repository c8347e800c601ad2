//! Routing between the nodes of a cluster that runs in one process.
use crate::decimal::{decimal, decimal_text};
use crate::membership::NodeId;
use crate::ordered::in_order;
use crate::request::{ClientRequest, RequestView};
use std::collections::{BTreeMap, HashSet};
use vstd::prelude::*;

verus! {

/// A table of nodes, and of those among them that are cut off from the network.
///
/// `N` is the handle by which a node is reached.
pub struct RaftRouter<N> {
    routing_table: BTreeMap<NodeId, N>,
    isolated_nodes: HashSet<NodeId>,
}

/// What a `RaftRouter` holds.
#[verifier::reject_recursive_types(N)]
#[verifier::ext_equal]
pub struct RouterView<N> {
    /// The nodes currently known to the router.
    pub nodes: Map<u64, N>,
    /// Nodes which are isolated can neither send nor receive frames.
    pub isolated: Set<u64>,
}

impl<N> View for RaftRouter<N> {
    type V = RouterView<N>;

    closed spec fn view(&self) -> RouterView<N> {
        RouterView { nodes: self.routing_table@, isolated: self.isolated_nodes@ }
    }
}

/// What the router reads of a node's metrics.
#[derive(Clone, Copy, Debug, PartialEq, Eq, Structural)]
pub struct NodeMetrics {
    /// The ID of the node.
    pub id: NodeId,
    /// The node that it takes for the leader of the cluster.
    pub current_leader: Option<NodeId>,
}

/// Why the router refused.
#[derive(Clone, Copy, Debug, PartialEq, Eq, Structural)]
pub enum RouterError {
    /// The node is not in the routing table.
    NodeNotFound { node: NodeId },
    /// The sender or the target of a frame is isolated.
    TargetIsolated,
}

impl RouterError {
    /// The text of the error.
    pub open spec fn text(self) -> Seq<char> {
        match self {
            RouterError::NodeNotFound { node } => "node "@ + decimal(node as nat)
                + " not found in routing table"@,
            RouterError::TargetIsolated => "target node is isolated"@,
        }
    }

    /// The text of the error.
    pub fn message(&self) -> (text: String)
        ensures
            text@ == self.text(),
    {
        match self {
            RouterError::NodeNotFound { node } => {
                let mut text = "node ".to_string();
                text.append(decimal_text(*node).as_str());
                text.append(" not found in routing table");
                text
            },
            RouterError::TargetIsolated => "target node is isolated".to_string(),
        }
    }
}

impl<N> RouterView<N> {
    /// A frame can pass between the two nodes.
    pub open spec fn connected(self, source: NodeId, target: NodeId) -> bool {
        !self.isolated.contains(source) && !self.isolated.contains(target)
    }

    /// The node takes itself for the leader, and the network sees it.
    pub open spec fn leads(self, node: NodeMetrics) -> bool {
        node.current_leader == Some(node.id) && !self.isolated.contains(node.id)
    }

    /// The first node among `metrics` that leads.
    pub open spec fn leader(self, metrics: Seq<NodeMetrics>) -> Option<NodeId>
        decreases metrics.len(),
    {
        if metrics.len() == 0 {
            None
        } else if self.leads(metrics.first()) {
            Some(metrics.first().id)
        } else {
            self.leader(metrics.drop_first())
        }
    }
}

impl<N> RaftRouter<N> {
    /// Create a new instance.
    pub fn new() -> (router: Self)
        ensures
            router@ == (RouterView::<N> { nodes: Map::empty(), isolated: Set::empty() }),
    {
        RaftRouter { routing_table: BTreeMap::new(), isolated_nodes: HashSet::new() }
    }

    /// Register a new node bearing the given ID; a node that bore it before is given back.
    pub fn new_raft_node(&mut self, id: NodeId, node: N) -> (replaced: Option<N>)
        ensures
            final(self)@ == (RouterView { nodes: old(self)@.nodes.insert(id, node), ..old(self)@ }),
            match replaced {
                Some(n) => old(self)@.nodes.contains_pair(id, n),
                None => !old(self)@.nodes.contains_key(id),
            },
    {
        self.routing_table.insert(id, node)
    }

    /// Remove the target node from the routing table & isolation.
    pub fn remove_node(&mut self, id: NodeId) -> (removed: Option<N>)
        ensures
            final(self)@ == (RouterView {
                nodes: old(self)@.nodes.remove(id),
                isolated: old(self)@.isolated.remove(id),
            }),
            match removed {
                Some(n) => old(self)@.nodes.contains_pair(id, n),
                None => !old(self)@.nodes.contains_key(id),
            },
    {
        let removed = self.routing_table.remove(&id);
        self.isolated_nodes.remove(&id);
        removed
    }

    /// The IDs of the nodes in the routing table, in increasing order.
    pub fn node_ids(&self) -> (ids: Vec<NodeId>)
        ensures
            ids@.to_set() == self@.nodes.dom(),
            forall|i: int, j: int| 0 <= i < j < ids@.len() ==> ids@[i] < ids@[j],
    {
        let items = in_order(&self.routing_table);
        let mut ids: Vec<NodeId> = Vec::new();
        let mut i: usize = 0;
        while i < items.len()
            invariant
                i <= items@.len(),
                ids@.len() == i,
                forall|j: int| 0 <= j < i ==> #[trigger] ids@[j] == items@[j].0,
            decreases items@.len() - i,
        {
            ids.push(items[i].0);
            i += 1;
        }
        proof {
            assert forall|k: u64| ids@.to_set().contains(k) == self@.nodes.dom().contains(k) by {
                if self@.nodes.contains_key(k) {
                    let p = choose|p: int| 0 <= p < items@.len() && (#[trigger] items@[p]).0 == k;
                    assert(ids@[p] == k);
                }
                if ids@.contains(k) {
                    let p = choose|p: int| 0 <= p < ids@.len() && ids@[p] == k;
                    assert(self.routing_table@.contains_pair(items@[p].0, *items@[p].1));
                }
            }
            assert(ids@.to_set() =~= self@.nodes.dom());
        }
        ids
    }

    /// Whether the routing table knows the node.
    pub fn contains_node(&self, id: NodeId) -> (known: bool)
        ensures
            known == self@.nodes.contains_key(id),
    {
        self.routing_table.contains_key(&id)
    }

    /// The handle of a node in the routing table.
    pub fn node(&self, id: NodeId) -> (node: &N)
        requires
            self@.nodes.contains_key(id),
        ensures
            *node == self@.nodes[id],
    {
        self.routing_table.get(&id).unwrap()
    }

    /// The node that is to initialize the cluster, and the members that it is to initialize it
    /// with: all nodes of the routing table.
    pub fn initialize_from_single_node(&self, node: NodeId) -> (start: Result<
        (&N, HashSet<NodeId>),
        RouterError,
    >)
        ensures
            match start {
                Ok((handle, members)) => {
                    &&& self@.nodes.contains_pair(node, *handle)
                    &&& members@ == self@.nodes.dom()
                },
                Err(error) => {
                    &&& !self@.nodes.contains_key(node)
                    &&& error == RouterError::NodeNotFound { node }
                },
            },
    {
        let ids = self.node_ids();
        let mut members: HashSet<NodeId> = HashSet::new();
        let mut i: usize = 0;
        assert(ids@.take(0).to_set() =~= Set::<u64>::empty());
        while i < ids.len()
            invariant
                i <= ids@.len(),
                members@ == ids@.take(i as int).to_set(),
            decreases ids@.len() - i,
        {
            members.insert(ids[i]);
            proof {
                let seen = ids@.take(i as int);
                seen.lemma_push_to_set_commute(ids@[i as int]);
                assert(ids@.take(i + 1) == seen.push(ids@[i as int]));
            }
            i += 1;
        }
        assert(ids@.take(i as int) == ids@);
        match self.routing_table.get(&node) {
            Some(handle) => Ok((handle, members)),
            None => Err(RouterError::NodeNotFound { node }),
        }
    }

    /// Isolate the network of the specified node.
    pub fn isolate_node(&mut self, id: NodeId)
        ensures
            final(self)@ == (RouterView { isolated: old(self)@.isolated.insert(id), ..old(self)@ }),
    {
        self.isolated_nodes.insert(id);
    }

    /// Restore the network of the specified node.
    pub fn restore_node(&mut self, id: NodeId)
        ensures
            final(self)@ == (RouterView { isolated: old(self)@.isolated.remove(id), ..old(self)@ }),
    {
        self.isolated_nodes.remove(&id);
    }

    /// Get the ID of the current leader: the first node among `metrics` that takes itself for the
    /// leader and is not isolated.
    pub fn leader(&self, metrics: &[NodeMetrics]) -> (leader: Option<NodeId>)
        ensures
            leader == self@.leader(metrics@),
    {
        let mut i: usize = 0;
        assert(metrics@.skip(0) =~= metrics@);
        while i < metrics.len()
            invariant
                i <= metrics@.len(),
                self@.leader(metrics@) == self@.leader(metrics@.skip(i as int)),
            decreases metrics@.len() - i,
        {
            let node = metrics[i];
            assert(metrics@.skip(i as int).drop_first() =~= metrics@.skip(i + 1));
            if node.current_leader == Some(node.id) && !self.isolated_nodes.contains(&node.id) {
                return Some(node.id);
            }
            i += 1;
        }
        None
    }

    /// The handle to which a frame from `source` to `target` is delivered.
    pub fn route(&self, source: NodeId, target: NodeId) -> (node: Result<&N, RouterError>)
        requires
            self@.nodes.contains_key(target),
        ensures
            match node {
                Ok(n) => self@.connected(source, target) && *n == self@.nodes[target],
                Err(error) => {
                    &&& !self@.connected(source, target)
                    &&& error == RouterError::TargetIsolated
                },
            },
    {
        let node = self.node(target);
        if self.isolated_nodes.contains(&target) || self.isolated_nodes.contains(&source) {
            return Err(RouterError::TargetIsolated);
        }
        Ok(node)
    }
}

/// The request with the given serial number.
pub open spec fn numbered_request(client: Seq<char>, serial: u64) -> RequestView {
    RequestView { client, serial, status: "request-"@ + decimal(serial as nat) }
}

impl<N> RaftRouter<N> {
    /// The request that a client sends under the given serial number.
    pub fn client_request(client_id: &str, serial: u64) -> (request: ClientRequest)
        ensures
            request@ == numbered_request(client_id@, serial),
    {
        let mut status = "request-".to_string();
        status.append(decimal_text(serial).as_str());
        ClientRequest { client: client_id.to_string(), serial, status }
    }

    /// The requests that a client sends in turn: `count` of them, numbered from zero.
    pub fn client_request_many(client_id: &str, count: usize) -> (requests: Vec<ClientRequest>)
        ensures
            requests@.len() == count,
            forall|i: int| 0 <= i < count ==> (#[trigger] requests@[i])@ == numbered_request(
                client_id@,
                i as u64,
            ),
    {
        let mut requests: Vec<ClientRequest> = Vec::new();
        let mut idx: usize = 0;
        while idx < count
            invariant
                idx <= count,
                requests@.len() == idx,
                forall|i: int| 0 <= i < idx ==> (#[trigger] requests@[i])@ == numbered_request(
                    client_id@,
                    i as u64,
                ),
            decreases count - idx,
        {
            requests.push(Self::client_request(client_id, idx as u64));
            idx += 1;
        }
        requests
    }
}

} // verus!
