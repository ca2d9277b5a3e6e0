//! What holds of every network.

use vstd::prelude::*;

use crate::clock::Duration;
use crate::keys::KeyOwner;
use crate::network;
use crate::network::FelidaeConfigError;
use crate::network::NetworkConfigView;
use crate::node::NodeRole;
use crate::node::WebcatNodeView;
use crate::sequence;
use crate::state::config;

verus! {

/// A quorum is more than two thirds of the voters, and there are that many; any two quorums share
/// more than a third of the voters.
pub proof fn lemma_quorum(n: nat)
    ensures
        3 * network::quorum_of(n) > 2 * n,
        n >= 1 ==> network::quorum_of(n) <= n,
        3 * (2 * network::quorum_of(n) - n) > n,
{
}

/// The ways of voting in the first configuration of a network with a validator fit its voters: one
/// vote for each validator, and a quorum that they can reach.
pub proof fn lemma_first_config_votes(
    nodes: Seq<WebcatNodeView>,
    oracle_keys: Seq<Option<Seq<char>>>,
    admin_keys: Seq<Option<Seq<char>>>,
    oracle_voting_delay: Duration,
    admin_voting_delay: Duration,
)
    requires
        1 <= network::nodes_of(nodes, NodeRole::Validator).len() <= u64::MAX,
        admin_keys.len() == network::nodes_of(nodes, NodeRole::Validator).len(),
        network::felidae_config_of(
            nodes,
            oracle_keys,
            admin_keys,
            oracle_voting_delay,
            admin_voting_delay,
        ) is Ok,
    ensures
        ({
            let made = network::felidae_config_of(
                nodes,
                oracle_keys,
                admin_keys,
                oracle_voting_delay,
                admin_voting_delay,
            )->Ok_0;
            &&& config::votes_fit(made.admins.authorized.len(), made.admins.voting)
            &&& config::votes_fit(made.oracles.authorized.len(), made.oracles.voting)
            &&& 3 * made.admins.voting.quorum.0 > 2 * made.admins.authorized.len()
            &&& 3 * made.oracles.voting.quorum.0 > 2 * made.oracles.authorized.len()
        }),
{
    let validators = network::nodes_of(nodes, NodeRole::Validator);
    let decode = |k: Option<Seq<char>>| network::identity_in(KeyOwner::Admin, k);
    sequence::lemma_decode_all_items::<Option<Seq<char>>, Seq<u8>, FelidaeConfigError>(
        admin_keys,
        decode,
    );
    lemma_quorum(validators.len());
}

/// Where every key file can be read and holds a key, as new ones do, the first configuration of a network can be
/// made.
pub proof fn lemma_keys_make_a_config(
    nodes: Seq<WebcatNodeView>,
    oracle_keys: Seq<Option<Seq<char>>>,
    admin_keys: Seq<Option<Seq<char>>>,
    oracle_voting_delay: Duration,
    admin_voting_delay: Duration,
)
    requires
        forall|i: int|
            0 <= i < oracle_keys.len() ==> network::holds_key(#[trigger] oracle_keys[i]),
        forall|i: int|
            0 <= i < admin_keys.len() ==> network::holds_key(#[trigger] admin_keys[i]),
    ensures
        network::felidae_config_of(
            nodes,
            oracle_keys,
            admin_keys,
            oracle_voting_delay,
            admin_voting_delay,
        ) is Ok,
{
    let oracle_decode = |k: Option<Seq<char>>| network::identity_in(KeyOwner::Oracle, k);
    let admin_decode = |k: Option<Seq<char>>| network::identity_in(KeyOwner::Admin, k);
    assert forall|i: int| 0 <= i < oracle_keys.len() implies oracle_decode(
        #[trigger] oracle_keys[i],
    ) is Ok by {}
    sequence::lemma_decode_all_ok(oracle_keys, oracle_decode);
    assert forall|i: int| 0 <= i < admin_keys.len() implies admin_decode(
        #[trigger] admin_keys[i],
    ) is Ok by {}
    sequence::lemma_decode_all_ok(admin_keys, admin_decode);
}

proof fn lemma_all_of_role(nodes: Seq<WebcatNodeView>, role: NodeRole)
    requires
        forall|i: int| 0 <= i < nodes.len() ==> (#[trigger] nodes[i]).role == role,
    ensures
        network::nodes_of(nodes, role) == nodes,
    decreases nodes.len(),
{
    if nodes.len() > 0 {
        let front = nodes.drop_last();
        assert forall|i: int| 0 <= i < front.len() implies (#[trigger] front[i]).role == role by {
            assert(front[i] == nodes[i]);
        }
        lemma_all_of_role(front, role);
        assert(nodes[nodes.len() - 1].role == role);
        assert(front.push(nodes.last()) =~= nodes);
    } else {
        assert(nodes =~= Seq::empty());
    }
}

proof fn lemma_none_of_role(nodes: Seq<WebcatNodeView>, role: NodeRole)
    requires
        forall|i: int| 0 <= i < nodes.len() ==> (#[trigger] nodes[i]).role != role,
    ensures
        network::nodes_of(nodes, role) == Seq::<WebcatNodeView>::empty(),
    decreases nodes.len(),
{
    if nodes.len() > 0 {
        let front = nodes.drop_last();
        assert forall|i: int| 0 <= i < front.len() implies (#[trigger] front[i]).role != role by {
            assert(front[i] == nodes[i]);
        }
        lemma_none_of_role(front, role);
        assert(nodes[nodes.len() - 1].role != role);
    }
}

pub(crate) proof fn lemma_of_role_append(a: Seq<WebcatNodeView>, b: Seq<WebcatNodeView>, role: NodeRole)
    ensures
        network::nodes_of(a + b, role) == network::nodes_of(a, role) + network::nodes_of(b, role),
    decreases b.len(),
{
    if b.len() > 0 {
        assert((a + b).drop_last() =~= a + b.drop_last());
        lemma_of_role_append(a, b.drop_last(), role);
        assert(network::nodes_of(a + b, role) =~= network::nodes_of(a, role) + network::nodes_of(
            b,
            role,
        ));
    } else {
        assert(a + b =~= a);
        assert(network::nodes_of(a, role) + network::nodes_of(b, role) =~= network::nodes_of(
            a,
            role,
        ));
    }
}

/// A new network has the validators that it was made with, a sentry for each or none at all, and no
/// full nodes.
pub proof fn lemma_new_network(made_from: NetworkConfigView)
    ensures
        network::nodes_of(network::new_nodes(made_from), NodeRole::Validator)
            == network::new_validators(made_from),
        network::nodes_of(network::new_nodes(made_from), NodeRole::Sentry) == (
        if made_from.use_sentries {
            network::new_sentries(made_from)
        } else {
            Seq::empty()
        }),
        network::nodes_of(network::new_nodes(made_from), NodeRole::FullNode) == Seq::<
            WebcatNodeView,
        >::empty(),
{
    let validators = network::new_validators(made_from);
    let sentries = network::new_sentries(made_from);
    lemma_all_of_role(validators, NodeRole::Validator);
    lemma_none_of_role(validators, NodeRole::Sentry);
    lemma_none_of_role(validators, NodeRole::FullNode);
    lemma_none_of_role(sentries, NodeRole::Validator);
    lemma_all_of_role(sentries, NodeRole::Sentry);
    lemma_none_of_role(sentries, NodeRole::FullNode);
    if made_from.use_sentries {
        lemma_of_role_append(validators, sentries, NodeRole::Validator);
        lemma_of_role_append(validators, sentries, NodeRole::Sentry);
        lemma_of_role_append(validators, sentries, NodeRole::FullNode);
        assert(validators + Seq::<WebcatNodeView>::empty() =~= validators);
        assert(Seq::<WebcatNodeView>::empty() + sentries =~= sentries);
        assert(Seq::<WebcatNodeView>::empty() + Seq::<WebcatNodeView>::empty() =~= Seq::<
            WebcatNodeView,
        >::empty());
    }
}

/// Every node is a validator, a sentry or a full node, and only one of them.
pub proof fn lemma_roles_divide_nodes(nodes: Seq<WebcatNodeView>)
    ensures
        network::nodes_of(nodes, NodeRole::Validator).len() + network::nodes_of(
            nodes,
            NodeRole::Sentry,
        ).len() + network::nodes_of(nodes, NodeRole::FullNode).len() == nodes.len(),
    decreases nodes.len(),
{
    if nodes.len() > 0 {
        lemma_roles_divide_nodes(nodes.drop_last());
    }
}

/// Four ports are needed for each node, and one more for each validator.
pub proof fn lemma_port_count(nodes: Seq<WebcatNodeView>)
    ensures
        network::required_ports(nodes).len() == 4 * nodes.len() + network::nodes_of(
            nodes,
            NodeRole::Validator,
        ).len(),
    decreases nodes.len(),
{
    if nodes.len() > 0 {
        lemma_port_count(nodes.drop_last());
    }
}

/// Something is said of the ports exactly where one of them could not be taken.
pub proof fn lemma_taken_iff(ports: Seq<(u16, Seq<char>)>, errors: Seq<Option<Seq<char>>>)
    requires
        ports.len() == errors.len(),
    ensures
        network::taken_message(ports, errors) is None <==> (forall|i: int|
            0 <= i < errors.len() ==> (#[trigger] errors[i]) is None),
{
    lemma_taken_lines(ports, errors, ports.len() as int);
}

proof fn lemma_taken_lines(
    ports: Seq<(u16, Seq<char>)>,
    errors: Seq<Option<Seq<char>>>,
    count: int,
)
    requires
        0 <= count <= errors.len(),
    ensures
        network::taken_lines(ports, errors, count).len() == 0 <==> (forall|i: int|
            0 <= i < count ==> (#[trigger] errors[i]) is None),
    decreases count,
{
    if count > 0 {
        lemma_taken_lines(ports, errors, count - 1);
    }
}

/// No node is its own peer: none of the peers that a node is given begins with its identifier, and
/// each of the others is among them.
pub proof fn lemma_peers_but_self(all: Seq<Seq<char>>, id: Seq<char>)
    ensures
        forall|peer: Seq<char>| #[trigger]
            network::peers_but(all, Some(id)).contains(peer) <==> all.contains(peer)
                && !id.is_prefix_of(peer),
    decreases all.len(),
{
    if all.len() > 0 {
        let front = all.drop_last();
        lemma_peers_but_self(front, id);
        let before = network::peers_but(front, Some(id));
        let after = network::peers_but(all, Some(id));
        assert forall|peer: Seq<char>| #[trigger] after.contains(peer) <==> all.contains(peer)
            && !id.is_prefix_of(peer) by {
            lemma_contains_push(front, all.last(), peer);
            assert(all =~= front.push(all.last()));
            lemma_contains_push(before, all.last(), peer);
            assert(before.contains(peer) <==> front.contains(peer) && !id.is_prefix_of(peer));
        }
    }
}

proof fn lemma_contains_push(s: Seq<Seq<char>>, last: Seq<char>, x: Seq<char>)
    ensures
        s.push(last).contains(x) <==> (s.contains(x) || x == last),
{
    let t = s.push(last);
    if s.contains(x) {
        let i = choose|i: int| 0 <= i < s.len() && s[i] == x;
        assert(t[i] == x);
    }
    if x == last {
        assert(t[t.len() - 1] == x);
    }
    if t.contains(x) && x != last {
        let i = choose|i: int| 0 <= i < t.len() && t[i] == x;
        assert(s[i] == x);
    }
}

/// The address that peers reach a node at begins with its identifier.
pub proof fn lemma_peer_address_begins_with_id(node: WebcatNodeView)
    requires
        node.node_id is Some,
    ensures
        node.persistent_peer_address() is Some,
        node.node_id->0.is_prefix_of(node.persistent_peer_address()->0),
{
    let id = node.node_id->0;
    let address = node.persistent_peer_address()->0;
    assert(address.subrange(0, id.len() as int) =~= id);
}

} // verus!
