//! Laws of the router.
use crate::decimal::{decimal, lemma_decimal_is_injective};
use crate::membership::NodeId;
use crate::router::{numbered_request, NodeMetrics, RouterView};
use vstd::prelude::*;

verus! {

/// A frame passes in both directions or in none.
pub proof fn law_connection_is_mutual<N>(router: RouterView<N>, a: NodeId, b: NodeId)
    ensures
        router.connected(a, b) == router.connected(b, a),
{
}

/// A node that was isolated neither sends nor receives; between other nodes nothing changes.
pub proof fn law_isolated_node_is_cut_off<N>(
    router: RouterView<N>,
    id: NodeId,
    a: NodeId,
    b: NodeId,
)
    ensures
        ({
            let after = RouterView { isolated: router.isolated.insert(id), ..router };
            &&& !after.connected(id, a)
            &&& !after.connected(a, id)
            &&& a != id && b != id ==> after.connected(a, b) == router.connected(a, b)
        }),
{
}

/// To restore a node undoes its isolation.
pub proof fn law_restore_undoes_isolation<N>(router: RouterView<N>, id: NodeId)
    requires
        !router.isolated.contains(id),
    ensures
        router.isolated.insert(id).remove(id) == router.isolated,
{
    assert(router.isolated.insert(id).remove(id) =~= router.isolated);
}

/// A node that was removed is forgotten: when a node with its ID is registered again, it is not
/// isolated.
pub proof fn law_removed_node_returns_unisolated<N>(
    router: RouterView<N>,
    id: NodeId,
    node: N,
    other: NodeId,
)
    ensures
        ({
            let removed = RouterView {
                nodes: router.nodes.remove(id),
                isolated: router.isolated.remove(id),
            };
            let back = RouterView { nodes: removed.nodes.insert(id, node), ..removed };
            &&& !removed.nodes.contains_key(id)
            &&& back.nodes.contains_pair(id, node)
            &&& back.connected(id, other) == (other == id || !router.isolated.contains(other))
        }),
{
}

/// The leader is a node of which the metrics say that it leads; there is none exactly where no
/// metrics say so.
pub proof fn law_leader_leads<N>(router: RouterView<N>, metrics: Seq<NodeMetrics>)
    ensures
        router.leader(metrics) matches Some(id) ==> !router.isolated.contains(id) && exists|i: int|
            0 <= i < metrics.len() && router.leads(#[trigger] metrics[i]) && metrics[i].id == id && (
            forall|j: int| 0 <= j < i ==> !router.leads(#[trigger] metrics[j])),
        router.leader(metrics) is None <==> (forall|i: int|
            0 <= i < metrics.len() ==> !router.leads(#[trigger] metrics[i])),
    decreases metrics.len(),
{
    if metrics.len() > 0 {
        let rest = metrics.drop_first();
        law_leader_leads(router, rest);
        if router.leads(metrics.first()) {
            assert(router.leads(metrics[0]));
        } else {
            if let Some(id) = router.leader(metrics) {
                let i = choose|i: int|
                    0 <= i < rest.len() && router.leads(#[trigger] rest[i]) && rest[i].id == id && (
                    forall|j: int| 0 <= j < i ==> !router.leads(#[trigger] rest[j]));
                assert(metrics[i + 1] == rest[i]);
                assert forall|j: int| 0 <= j < i + 1 implies !router.leads(
                    #[trigger] metrics[j],
                ) by {
                    if j > 0 {
                        assert(metrics[j] == rest[j - 1]);
                    }
                }
            } else {
                assert forall|i: int| 0 <= i < metrics.len() implies !router.leads(
                    #[trigger] metrics[i],
                ) by {
                    if i > 0 {
                        assert(metrics[i] == rest[i - 1]);
                    }
                }
            }
        }
    }
}

/// A node that is isolated stops being the leader, whatever the metrics say.
pub proof fn law_isolated_node_does_not_lead<N>(
    router: RouterView<N>,
    id: NodeId,
    metrics: Seq<NodeMetrics>,
)
    ensures
        (RouterView { isolated: router.isolated.insert(id), ..router }).leader(metrics) != Some(id),
{
    law_leader_leads(RouterView { isolated: router.isolated.insert(id), ..router }, metrics);
}

/// Requests with different serial numbers have different statuses.
pub proof fn law_numbered_requests_differ(client: Seq<char>, a: u64, b: u64)
    requires
        a != b,
    ensures
        numbered_request(client, a).status != numbered_request(client, b).status,
{
    if numbered_request(client, a).status == numbered_request(client, b).status {
        let prefix = "request-"@;
        let left = prefix + decimal(a as nat);
        let right = prefix + decimal(b as nat);
        assert(left.skip(prefix.len() as int) =~= decimal(a as nat));
        assert(right.skip(prefix.len() as int) =~= decimal(b as nat));
        lemma_decimal_is_injective(a as nat, b as nat);
    }
}

/// A frame passes exactly where neither its sender nor its target is isolated.
pub proof fn law_frames_pass_unless_isolated<N>(
    router: RouterView<N>,
    source: NodeId,
    target: NodeId,
)
    ensures
        router.isolated.contains(source) ==> !router.connected(source, target),
        router.isolated.contains(target) ==> !router.connected(source, target),
        !router.connected(source, target) ==> router.isolated.contains(source)
            || router.isolated.contains(target),
{
}

/// The first node that names itself as the leader and is not isolated is the leader. Where none
/// does, there is no leader.
pub proof fn law_first_unisolated_claim_leads<N>(
    router: RouterView<N>,
    metrics: Seq<NodeMetrics>,
    i: int,
)
    ensures
        0 <= i < metrics.len() && metrics[i].current_leader == Some(metrics[i].id)
            && !router.isolated.contains(metrics[i].id) && (forall|j: int|
            0 <= j < i ==> (#[trigger] metrics[j]).current_leader != Some(metrics[j].id)
                || router.isolated.contains(metrics[j].id)) ==> router.leader(metrics) == Some(
            metrics[i].id,
        ),
        (forall|j: int|
            0 <= j < metrics.len() ==> (#[trigger] metrics[j]).current_leader != Some(metrics[j].id)
                || router.isolated.contains(metrics[j].id)) ==> router.leader(metrics)
            == None::<NodeId>,
{
    law_leader_leads(router, metrics);
    if 0 <= i < metrics.len() && metrics[i].current_leader == Some(metrics[i].id)
        && !router.isolated.contains(metrics[i].id) && (forall|j: int|
        0 <= j < i ==> (#[trigger] metrics[j]).current_leader != Some(metrics[j].id)
            || router.isolated.contains(metrics[j].id)) {
        assert(router.leads(metrics[i]));
        let id = router.leader(metrics)->0;
        let p = choose|p: int|
            0 <= p < metrics.len() && router.leads(#[trigger] metrics[p]) && metrics[p].id == id && (
            forall|j: int| 0 <= j < p ==> !router.leads(#[trigger] metrics[j]));
        assert(p == i);
    }
}

/// A numbered request names its client and its number, and its status says the number.
pub proof fn law_numbered_request(client: Seq<char>, serial: u64)
    ensures
        numbered_request(client, serial).client == client,
        numbered_request(client, serial).serial == serial,
        numbered_request(client, serial).status == "request-"@ + decimal(serial as nat),
{
}

} // verus!
