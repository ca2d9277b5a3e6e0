//! What networks are made of, node by node and port by port.

use vstd::prelude::*;

use crate::clock::Duration;
use crate::keys;
use crate::keys::KeyFileError;
use crate::keys::KeyOwner;
use crate::network;
use crate::network::FelidaeConfigError;
use crate::network::NetworkConfigView;
use crate::network_laws;
use crate::node;
use crate::node::NodePorts;
use crate::node::NodeRole;
use crate::node::PortAllocationStrategy;
use crate::node::WebcatNodeView;
use crate::sequence;
use crate::text;
use crate::transaction::ConfigView;

verus! {

/// Whether these are the ports `index` strides above the base of a strategy, from 0 again past the
/// last port.
pub open spec fn are_ports_at(strategy: PortAllocationStrategy, index: int, ports: NodePorts) -> bool {
    &&& ports.cometbft_p2p == (strategy.base.cometbft_p2p + strategy.stride * index) % 65536
    &&& ports.cometbft_rpc == (strategy.base.cometbft_rpc + strategy.stride * index) % 65536
    &&& ports.felidae_abci == (strategy.base.felidae_abci + strategy.stride * index) % 65536
    &&& ports.felidae_query == (strategy.base.felidae_query + strategy.stride * index) % 65536
    &&& ports.felidae_oracle == (strategy.base.felidae_oracle + strategy.stride * index) % 65536
}

/// A strategy gives the node at each index the ports that many strides above its base.
pub proof fn lemma_ports_at(strategy: PortAllocationStrategy, index: nat)
    ensures
        are_ports_at(strategy, index as int, strategy.ports(index)),
{
    assert(index * strategy.stride == strategy.stride * index) by (nonlinear_arith);
}

/// The node at each position of a new network: a validator at the first positions and a sentry at
/// those behind them, where there are sentries; each has the ports of its own position, a home of its
/// own below the network's directory, no identifier yet, and listens at the local host.
pub proof fn lemma_new_node_at(config: NetworkConfigView, k: int)
    requires
        0 <= k < network::new_nodes(config).len(),
    ensures
        ({
            let nodes = network::new_nodes(config);
            let n = config.num_validators as int;
            &&& nodes.len() == (if config.use_sentries {
                2 * n
            } else {
                n
            })
            &&& k < n ==> nodes[k].role == NodeRole::Validator && nodes[k].name == "validator-"@
                + text::decimal(k as nat)
            &&& k >= n ==> nodes[k].role == NodeRole::Sentry && nodes[k].name == "sentry-"@
                + text::decimal((k - n) as nat)
            &&& are_ports_at(config.port_strategy, k, nodes[k].ports)
            &&& nodes[k].home_dir == (if config.directory.len() > 0 && config.directory.last()
                != '/' {
                config.directory + "/"@ + nodes[k].name
            } else {
                config.directory + nodes[k].name
            })
            &&& nodes[k].node_id is None
            &&& nodes[k].bind_address == "127.0.0.1"@
        }),
{
    lemma_ports_at(config.port_strategy, k as nat);
}

/// No two nodes of a new network have the same name.
pub proof fn lemma_new_names_differ(config: NetworkConfigView, i: int, j: int)
    requires
        0 <= i < j < network::new_nodes(config).len(),
    ensures
        network::new_nodes(config)[i].name != network::new_nodes(config)[j].name,
{
    lemma_new_node_at(config, i);
    lemma_new_node_at(config, j);
    let a = network::new_nodes(config)[i].name;
    let b = network::new_nodes(config)[j].name;
    let n = config.num_validators as int;
    reveal_strlit("validator-");
    reveal_strlit("sentry-");
    if a == b {
        if i < n && j < n {
            assert(a.skip(10) =~= text::decimal(i as nat));
            assert(b.skip(10) =~= text::decimal(j as nat));
            crate::text_laws::lemma_decimal_tells_apart(i as nat, j as nat);
        } else if i >= n {
            assert(a.skip(7) =~= text::decimal((i - n) as nat));
            assert(b.skip(7) =~= text::decimal((j - n) as nat));
            crate::text_laws::lemma_decimal_tells_apart((i - n) as nat, (j - n) as nat);
        } else {
            assert(a[0] == 'v');
            assert(b[0] == 's');
        }
    }
}

/// The ports that are needed are those of the nodes in turn: of a validator, its five ports, and of
/// every other node the four without the oracle's, each named after the node and what it is for.
pub proof fn lemma_required_in_turn(
    a: Seq<WebcatNodeView>,
    b: Seq<WebcatNodeView>,
    one: WebcatNodeView,
)
    ensures
        network::required_ports(a + b) == network::required_ports(a) + network::required_ports(b),
        one.role == NodeRole::Validator ==> network::required_ports(seq![one]) == seq![
            (one.ports.cometbft_p2p, one.name + " CometBFT P2P"@),
            (one.ports.cometbft_rpc, one.name + " CometBFT RPC"@),
            (one.ports.felidae_abci, one.name + " Felidae ABCI"@),
            (one.ports.felidae_query, one.name + " Felidae Query"@),
            (one.ports.felidae_oracle, one.name + " Felidae Oracle"@),
        ],
        one.role != NodeRole::Validator ==> network::required_ports(seq![one]) == seq![
            (one.ports.cometbft_p2p, one.name + " CometBFT P2P"@),
            (one.ports.cometbft_rpc, one.name + " CometBFT RPC"@),
            (one.ports.felidae_abci, one.name + " Felidae ABCI"@),
            (one.ports.felidae_query, one.name + " Felidae Query"@),
        ],
    decreases b.len(),
{
    reveal_with_fuel(network::required_ports, 2);
    assert(seq![one].drop_last() =~= Seq::<WebcatNodeView>::empty());
    assert(network::required_ports(seq![one]) =~= network::ports_of(one));
    if b.len() == 0 {
        assert(a + b =~= a);
        assert(network::required_ports(a) + network::required_ports(b)
            =~= network::required_ports(a));
    } else {
        lemma_required_in_turn(a, b.drop_last(), one);
        assert((a + b).drop_last() =~= a + b.drop_last());
        assert((a + b).last() == b.last());
        assert(network::required_ports(a + b) =~= network::required_ports(a)
            + network::required_ports(b));
    }
    if one.role == NodeRole::Validator {
        assert(network::ports_of(one) =~= seq![
            (one.ports.cometbft_p2p, one.name + " CometBFT P2P"@),
            (one.ports.cometbft_rpc, one.name + " CometBFT RPC"@),
            (one.ports.felidae_abci, one.name + " Felidae ABCI"@),
            (one.ports.felidae_query, one.name + " Felidae Query"@),
            (one.ports.felidae_oracle, one.name + " Felidae Oracle"@),
        ]);
    }
}

/// Whether the five ports of a base differ and lie within `span` from `low` on.
pub open spec fn lie_within(base: NodePorts, low: int, span: int) -> bool {
    &&& low <= base.cometbft_p2p < low + span
    &&& low <= base.cometbft_rpc < low + span
    &&& low <= base.felidae_abci < low + span
    &&& low <= base.felidae_query < low + span
    &&& low <= base.felidae_oracle < low + span
    &&& base.cometbft_p2p != base.cometbft_rpc
    &&& base.cometbft_p2p != base.felidae_abci
    &&& base.cometbft_p2p != base.felidae_query
    &&& base.cometbft_p2p != base.felidae_oracle
    &&& base.cometbft_rpc != base.felidae_abci
    &&& base.cometbft_rpc != base.felidae_query
    &&& base.cometbft_rpc != base.felidae_oracle
    &&& base.felidae_abci != base.felidae_query
    &&& base.felidae_abci != base.felidae_oracle
    &&& base.felidae_query != base.felidae_oracle
}

proof fn lemma_own_ports_apart(
    of: WebcatNodeView,
    strategy: PortAllocationStrategy,
    low: int,
    k: int,
)
    requires
        lie_within(strategy.base, low, strategy.stride as int),
        strategy.stride * k >= 0,
        low + strategy.stride * k + strategy.stride <= 65536,
        are_ports_at(strategy, k, of.ports),
    ensures
        forall|i: int|
            0 <= i < network::ports_of(of).len() ==> low + strategy.stride * k <= (
            #[trigger] network::ports_of(of)[i]).0 < low + strategy.stride * k + strategy.stride,
        forall|i: int, j: int|
            0 <= i < j < network::ports_of(of).len() ==> (#[trigger] network::ports_of(of)[i]).0
                != (#[trigger] network::ports_of(of)[j]).0,
{
    let raise = strategy.stride * k;
    assert(of.ports.cometbft_p2p == strategy.base.cometbft_p2p + raise);
    assert(of.ports.cometbft_rpc == strategy.base.cometbft_rpc + raise);
    assert(of.ports.felidae_abci == strategy.base.felidae_abci + raise);
    assert(of.ports.felidae_query == strategy.base.felidae_query + raise);
    assert(of.ports.felidae_oracle == strategy.base.felidae_oracle + raise);
}

proof fn lemma_ports_apart(
    nodes: Seq<WebcatNodeView>,
    strategy: PortAllocationStrategy,
    low: int,
)
    requires
        lie_within(strategy.base, low, strategy.stride as int),
        low + strategy.stride * nodes.len() <= 65536,
        forall|k: int|
            0 <= k < nodes.len() ==> are_ports_at(strategy, k, (#[trigger] nodes[k]).ports),
    ensures
        forall|i: int|
            0 <= i < network::required_ports(nodes).len() ==> low <= (
            #[trigger] network::required_ports(nodes)[i]).0 < low + strategy.stride * nodes.len(),
        forall|i: int, j: int|
            0 <= i < j < network::required_ports(nodes).len() ==> (
            #[trigger] network::required_ports(nodes)[i]).0 != (
            #[trigger] network::required_ports(nodes)[j]).0,
    decreases nodes.len(),
{
    if nodes.len() > 0 {
        let front = nodes.drop_last();
        let n = nodes.len() - 1;
        let s = strategy.stride as int;
        assert(s * nodes.len() == s * n + s) by (nonlinear_arith)
            requires
                nodes.len() == n + 1,
        ;
        assert(s * n >= 0) by (nonlinear_arith)
            requires
                s >= 0,
                n >= 0,
        ;
        assert forall|k: int| 0 <= k < front.len() implies are_ports_at(
            strategy,
            k,
            (#[trigger] front[k]).ports,
        ) by {
            assert(front[k] == nodes[k]);
        }
        lemma_ports_apart(front, strategy, low);
        let last = nodes[n];
        assert(are_ports_at(strategy, n, nodes[n].ports));
        let before = network::required_ports(front);
        let own = network::ports_of(last);
        let all = network::required_ports(nodes);
        assert(all == before + own);
        lemma_own_ports_apart(last, strategy, low, n);
        assert forall|i: int| 0 <= i < all.len() implies low <= (#[trigger] all[i]).0 < low + s
            * nodes.len() by {
            if i < before.len() {
                assert(all[i] == before[i]);
            } else {
                assert(all[i] == own[i - before.len()]);
            }
        }
        assert forall|i: int, j: int| 0 <= i < j < all.len() implies (#[trigger] all[i]).0 != (
        #[trigger] all[j]).0 by {
            if j < before.len() {
                assert(all[i] == before[i]);
                assert(all[j] == before[j]);
            } else {
                assert(all[j] == own[j - before.len()]);
                if i < before.len() {
                    assert(all[i] == before[i]);
                } else {
                    assert(all[i] == own[i - before.len()]);
                }
            }
        }
    }
}

/// No port is needed twice in a new network whose ports do not run past the last one, where the
/// ports of a node lie closer together than the stride.
pub proof fn lemma_no_port_twice(config: NetworkConfigView, low: int, i: int, j: int)
    requires
        lie_within(config.port_strategy.base, low, config.port_strategy.stride as int),
        low + config.port_strategy.stride * network::new_nodes(config).len() <= 65536,
        0 <= i < j < network::required_ports(network::new_nodes(config)).len(),
    ensures
        network::required_ports(network::new_nodes(config))[i].0 != network::required_ports(
            network::new_nodes(config),
        )[j].0,
{
    let nodes = network::new_nodes(config);
    assert forall|k: int| 0 <= k < nodes.len() implies are_ports_at(
        config.port_strategy,
        k,
        (#[trigger] nodes[k]).ports,
    ) by {
        lemma_new_node_at(config, k);
    }
    lemma_ports_apart(nodes, config.port_strategy, low);
}

/// No port is needed twice in a new network of up to 3888 nodes that gives ports as it does by
/// default.
pub proof fn lemma_no_default_port_twice(config: NetworkConfigView, i: int, j: int)
    requires
        config.port_strategy == node::default_strategy(),
        network::new_nodes(config).len() <= 3888,
        0 <= i < j < network::required_ports(network::new_nodes(config)).len(),
    ensures
        network::required_ports(network::new_nodes(config))[i].0 != network::required_ports(
            network::new_nodes(config),
        )[j].0,
{
    lemma_no_port_twice(config, 26656, i, j);
}

/// By default the first node listens at 26656 and the four ports behind it, and the nodes are ten
/// ports apart.
pub proof fn lemma_default_strategy()
    ensures
        node::default_strategy().base.cometbft_p2p == 26656,
        node::default_strategy().base.cometbft_rpc == 26657,
        node::default_strategy().base.felidae_abci == 26658,
        node::default_strategy().base.felidae_query == 26659,
        node::default_strategy().base.felidae_oracle == 26660,
        node::default_strategy().stride == 10,
{
}

/// The nodes of a role are those of the nodes that have it, in their order.
pub proof fn lemma_of_role_in_turn(
    a: Seq<WebcatNodeView>,
    b: Seq<WebcatNodeView>,
    one: WebcatNodeView,
    role: NodeRole,
)
    ensures
        network::nodes_of(a + b, role) == network::nodes_of(a, role) + network::nodes_of(b, role),
        one.role == role ==> network::nodes_of(seq![one], role) == seq![one],
        one.role != role ==> network::nodes_of(seq![one], role).len() == 0,
{
    network_laws::lemma_of_role_append(a, b, role);
    reveal_with_fuel(network::nodes_of, 2);
    assert(seq![one].drop_last() =~= Seq::<WebcatNodeView>::empty());
    assert(one.role == role ==> network::nodes_of(seq![one], role) =~= seq![one]);
}

/// The peers are the nodes that have an identifier, in their order, each at its address among peers.
pub proof fn lemma_peers_in_turn(
    a: Seq<WebcatNodeView>,
    b: Seq<WebcatNodeView>,
    one: WebcatNodeView,
)
    ensures
        network::peers(a + b) == network::peers(a) + network::peers(b),
        one.node_id is None ==> network::peers(seq![one]).len() == 0,
        one.node_id matches Some(id) ==> network::peers(seq![one]) == seq![
            id + "@"@ + one.bind_address + ":"@ + text::decimal(one.ports.cometbft_p2p as nat),
        ],
    decreases b.len(),
{
    reveal_with_fuel(network::peers, 2);
    assert(seq![one].drop_last() =~= Seq::<WebcatNodeView>::empty());
    if b.len() == 0 {
        assert(a + b =~= a);
        assert(network::peers(a) + network::peers(b) =~= network::peers(a));
    } else {
        lemma_peers_in_turn(a, b.drop_last(), one);
        assert((a + b).drop_last() =~= a + b.drop_last());
        assert((a + b).last() == b.last());
        assert(network::peers(a + b) =~= network::peers(a) + network::peers(b));
    }
    if one.node_id is Some {
        let id = one.node_id->0;
        let address = id + "@"@ + one.bind_address + ":"@ + text::decimal(
            one.ports.cometbft_p2p as nat,
        );
        assert(one.persistent_peer_address()->0 =~= address);
        assert(network::peers(seq![one]) =~= seq![address]);
    }
}

/// The peers that a node is given are all peers but those that begin with its identifier, in their
/// order; without an identifier they are all of them.
pub proof fn lemma_other_peers_in_turn(
    a: Seq<Seq<char>>,
    b: Seq<Seq<char>>,
    one: Seq<char>,
    id: Option<Seq<char>>,
)
    ensures
        network::peers_but(a + b, id) == network::peers_but(a, id) + network::peers_but(b, id),
        id is None || !id->0.is_prefix_of(one) ==> network::peers_but(seq![one], id) == seq![one],
        id is Some && id->0.is_prefix_of(one) ==> network::peers_but(seq![one], id).len() == 0,
    decreases b.len(),
{
    reveal_with_fuel(network::peers_but, 2);
    assert(seq![one].drop_last() =~= Seq::<Seq<char>>::empty());
    if b.len() == 0 {
        assert(a + b =~= a);
        assert(network::peers_but(a, id) + network::peers_but(b, id) =~= network::peers_but(a, id));
    } else {
        lemma_other_peers_in_turn(a, b.drop_last(), one, id);
        assert((a + b).drop_last() =~= a + b.drop_last());
        assert((a + b).last() == b.last());
        assert(network::peers_but(a + b, id) =~= network::peers_but(a, id) + network::peers_but(
            b,
            id,
        ));
    }
    if id is None || !id->0.is_prefix_of(one) {
        assert(network::peers_but(seq![one], id) =~= seq![one]);
    }
}

/// What is said of ports that could not be taken: a line for each, in their order, with what it is
/// for, its number and the error.
pub proof fn lemma_taken_in_turn(
    ports: Seq<(u16, Seq<char>)>,
    errors: Seq<Option<Seq<char>>>,
    count: int,
)
    requires
        0 < count <= ports.len(),
        ports.len() == errors.len(),
    ensures
        network::taken_lines(ports, errors, 0).len() == 0,
        errors[count - 1] is None ==> network::taken_lines(ports, errors, count)
            == network::taken_lines(ports, errors, count - 1),
        errors[count - 1] matches Some(error) ==> network::taken_lines(ports, errors, count)
            == network::taken_lines(ports, errors, count - 1) + seq![
            "  "@ + ports[count - 1].1 + " (port "@ + text::decimal(ports[count - 1].0 as nat)
                + "): "@ + error,
        ],
        network::taken_message(ports, errors) matches Some(message) ==> message
            == "The following ports are not available:\n"@ + text::join(
            network::taken_lines(ports, errors, ports.len() as int),
            "\n"@,
        )
            + "\n\nhint: Check for other running processes using these ports with:\nlsof -i :<port> or ss -tlnp | grep <port>"@,
{
    if errors[count - 1] is Some {
        let line = "  "@ + ports[count - 1].1 + " (port "@ + text::decimal(
            ports[count - 1].0 as nat,
        ) + "): "@ + errors[count - 1]->0;
        assert(network::taken_lines(ports, errors, count) =~= network::taken_lines(
            ports,
            errors,
            count - 1,
        ) + seq![line]);
    }
}

/// The first configuration of a network, part by part: of version 0, with one vote for each
/// validator, more than two thirds of which decide; its admins and its oracles are those whose keys
/// were read, in their order, and each oracle answers where its validator's oracle listens. Oracles
/// are on, and it names no validators.
pub proof fn lemma_first_config_parts(
    nodes: Seq<WebcatNodeView>,
    oracle_keys: Seq<Option<Seq<char>>>,
    admin_keys: Seq<Option<Seq<char>>>,
    oracle_voting_delay: Duration,
    admin_voting_delay: Duration,
)
    requires
        network::nodes_of(nodes, NodeRole::Validator).len() <= u64::MAX,
        oracle_keys.len() == network::nodes_of(nodes, NodeRole::Validator).len(),
    ensures
        ({
            let made = network::felidae_config_of(
                nodes,
                oracle_keys,
                admin_keys,
                oracle_voting_delay,
                admin_voting_delay,
            );
            let validators = network::nodes_of(nodes, NodeRole::Validator);
            let c = made->Ok_0;
            &&& made is Ok <==> {
                &&& forall|i: int|
                    0 <= i < oracle_keys.len() ==> network::holds_key(#[trigger] oracle_keys[i])
                &&& forall|i: int|
                    0 <= i < admin_keys.len() ==> network::holds_key(#[trigger] admin_keys[i])
            }
            &&& made is Ok ==> {
                &&& c.version == 0
                &&& c.admins.voting.total.0 == validators.len()
                &&& 3 * c.admins.voting.quorum.0 > 2 * validators.len()
                &&& 3 * (c.admins.voting.quorum.0 - 1) <= 2 * validators.len()
                &&& c.admins.voting.timeout.0.secs == 60
                &&& c.admins.voting.timeout.0.nanos == 0
                &&& c.admins.voting.delay.0 == admin_voting_delay
                &&& c.admins.authorized.len() == admin_keys.len()
                &&& forall|i: int|
                    0 <= i < admin_keys.len() ==> Ok::<Seq<u8>, KeyFileError>(
                        #[trigger] c.admins.authorized[i],
                    ) == keys::key_file_public(admin_keys[i]->0)
                &&& c.oracles.enabled
                &&& c.oracles.voting.total.0 == validators.len()
                &&& 3 * c.oracles.voting.quorum.0 > 2 * validators.len()
                &&& 3 * (c.oracles.voting.quorum.0 - 1) <= 2 * validators.len()
                &&& c.oracles.voting.timeout.0.secs == 300
                &&& c.oracles.voting.timeout.0.nanos == 0
                &&& c.oracles.voting.delay.0 == oracle_voting_delay
                &&& c.oracles.max_enrolled_subdomains == 5
                &&& c.oracles.observation_timeout.secs == 300
                &&& c.oracles.observation_timeout.nanos == 0
                &&& c.oracles.authorized.len() == validators.len()
                &&& forall|i: int|
                    0 <= i < validators.len() ==> Ok::<Seq<u8>, KeyFileError>(
                        (#[trigger] c.oracles.authorized[i]).identity,
                    ) == keys::key_file_public(oracle_keys[i]->0)
                &&& forall|i: int|
                    0 <= i < validators.len() ==> (#[trigger] c.oracles.authorized[i]).endpoint
                        == validators[i].bind_address + ":"@ + text::decimal(
                        validators[i].ports.felidae_oracle as nat,
                    )
                &&& !c.onion.enabled
                &&& c.validators.len() == 0
            }
        }),
{
    let validators = network::nodes_of(nodes, NodeRole::Validator);
    let oracle_decode = |k: Option<Seq<char>>| network::identity_in(KeyOwner::Oracle, k);
    let admin_decode = |k: Option<Seq<char>>| network::identity_in(KeyOwner::Admin, k);
    if (forall|i: int| 0 <= i < oracle_keys.len() ==> network::holds_key(#[trigger] oracle_keys[i]))
        && (forall|i: int|
        0 <= i < admin_keys.len() ==> network::holds_key(#[trigger] admin_keys[i])) {
        network_laws::lemma_keys_make_a_config(
            nodes,
            oracle_keys,
            admin_keys,
            oracle_voting_delay,
            admin_voting_delay,
        );
    }
    let made = network::felidae_config_of(
        nodes,
        oracle_keys,
        admin_keys,
        oracle_voting_delay,
        admin_voting_delay,
    );
    if made is Ok {
        sequence::lemma_decode_all_items::<Option<Seq<char>>, Seq<u8>, FelidaeConfigError>(
            oracle_keys,
            oracle_decode,
        );
        sequence::lemma_decode_all_items::<Option<Seq<char>>, Seq<u8>, FelidaeConfigError>(
            admin_keys,
            admin_decode,
        );
        let c = made->Ok_0;
        let oracles = network::identities_in(KeyOwner::Oracle, oracle_keys)->Ok_0;
        let admins = network::identities_in(KeyOwner::Admin, admin_keys)->Ok_0;
        assert forall|i: int| 0 <= i < oracle_keys.len() implies network::holds_key(
            #[trigger] oracle_keys[i],
        ) && keys::key_file_public(oracle_keys[i]->0) == Ok::<Seq<u8>, KeyFileError>(
            oracles[i],
        ) by {
            assert(oracle_decode(oracle_keys[i]) == Ok::<Seq<u8>, FelidaeConfigError>(oracles[i]));
        }
        assert forall|i: int| 0 <= i < admin_keys.len() implies network::holds_key(
            #[trigger] admin_keys[i],
        ) && keys::key_file_public(admin_keys[i]->0) == Ok::<Seq<u8>, KeyFileError>(
            admins[i],
        ) by {
            assert(admin_decode(admin_keys[i]) == Ok::<Seq<u8>, FelidaeConfigError>(admins[i]));
        }
        assert forall|i: int| 0 <= i < validators.len() implies (
        #[trigger] c.oracles.authorized[i]).endpoint == validators[i].bind_address + ":"@
            + text::decimal(validators[i].ports.felidae_oracle as nat)
            && c.oracles.authorized[i].identity == oracles[i] by {}
        assert forall|i: int| 0 <= i < validators.len() implies Ok::<Seq<u8>, KeyFileError>(
            (#[trigger] c.oracles.authorized[i]).identity,
        ) == keys::key_file_public(oracle_keys[i]->0) by {
            assert(network::holds_key(oracle_keys[i]));
        }
        assert forall|i: int| 0 <= i < admin_keys.len() implies Ok::<Seq<u8>, KeyFileError>(
            #[trigger] c.admins.authorized[i],
        ) == keys::key_file_public(admin_keys[i]->0) by {
            assert(network::holds_key(admin_keys[i]));
        }
    }
}

/// A key file that cannot be read, or that holds no key, is an error of its own kind, with its owner.
pub proof fn lemma_key_file_refused(owner: KeyOwner, key_file: Option<Seq<char>>)
    ensures
        key_file is None ==> network::identity_in(owner, key_file) == Err::<
            Seq<u8>,
            FelidaeConfigError,
        >(FelidaeConfigError { owner, error: KeyFileError::NotRead }),
        key_file is Some && keys::key_file_public(key_file->0) is Err ==> network::identity_in(
            owner,
            key_file,
        ) == Err::<Seq<u8>, FelidaeConfigError>(
            FelidaeConfigError { owner, error: keys::key_file_public(key_file->0)->Err_0 },
        ),
{
}

/// Where the files of a node lie, below its home.
pub proof fn lemma_node_paths(of: WebcatNodeView)
    requires
        of.home_dir.len() > 0,
        of.home_dir.last() != '/',
    ensures
        of.cometbft_home() == of.home_dir + "/cometbft"@,
        of.felidae_home() == of.home_dir + "/felidae"@,
        of.cometbft_config_dir() == of.home_dir + "/cometbft/config"@,
        of.cometbft_data_dir() == of.home_dir + "/cometbft/data"@,
        of.genesis_path() == of.home_dir + "/cometbft/config/genesis.json"@,
        of.config_toml_path() == of.home_dir + "/cometbft/config/config.toml"@,
        of.node_key_path() == of.home_dir + "/cometbft/config/node_key.json"@,
        of.priv_validator_key_path() == of.home_dir + "/cometbft/config/priv_validator_key.json"@,
        of.priv_validator_state_path() == of.home_dir
            + "/cometbft/data/priv_validator_state.json"@,
        of.admin_key_path() == of.home_dir + "/felidae/admin_key.hex"@,
        of.oracle_key_path() == of.home_dir + "/felidae/oracle_key.hex"@,
{
    reveal_strlit("/");
    reveal_strlit("cometbft");
    reveal_strlit("felidae");
    reveal_strlit("config");
    reveal_strlit("data");
    reveal_strlit("/cometbft");
    reveal_strlit("/felidae");
    reveal_strlit("/cometbft/config");
    reveal_strlit("/cometbft/data");
    assert(of.cometbft_home() =~= of.home_dir + "/cometbft"@);
    assert(of.felidae_home() =~= of.home_dir + "/felidae"@);
    assert(of.cometbft_config_dir() =~= of.home_dir + "/cometbft/config"@);
    assert(of.cometbft_data_dir() =~= of.home_dir + "/cometbft/data"@);
    assert(of.genesis_path() =~= of.home_dir + "/cometbft/config/genesis.json"@) by {
        reveal_strlit("genesis.json");
        reveal_strlit("/cometbft/config/genesis.json");
    }
    assert(of.config_toml_path() =~= of.home_dir + "/cometbft/config/config.toml"@) by {
        reveal_strlit("config.toml");
        reveal_strlit("/cometbft/config/config.toml");
    }
    assert(of.node_key_path() =~= of.home_dir + "/cometbft/config/node_key.json"@) by {
        reveal_strlit("node_key.json");
        reveal_strlit("/cometbft/config/node_key.json");
    }
    assert(of.priv_validator_key_path() =~= of.home_dir
        + "/cometbft/config/priv_validator_key.json"@) by {
        reveal_strlit("priv_validator_key.json");
        reveal_strlit("/cometbft/config/priv_validator_key.json");
    }
    assert(of.priv_validator_state_path() =~= of.home_dir
        + "/cometbft/data/priv_validator_state.json"@) by {
        reveal_strlit("priv_validator_state.json");
        reveal_strlit("/cometbft/data/priv_validator_state.json");
    }
    assert(of.admin_key_path() =~= of.home_dir + "/felidae/admin_key.hex"@) by {
        reveal_strlit("admin_key.hex");
        reveal_strlit("/felidae/admin_key.hex");
    }
    assert(of.oracle_key_path() =~= of.home_dir + "/felidae/oracle_key.hex"@) by {
        reveal_strlit("oracle_key.hex");
        reveal_strlit("/felidae/oracle_key.hex");
    }
}

/// The networks and nodes of values in memory, part by part, as contracts speak of them.
pub proof fn lemma_network_parts(of: network::Network, one: node::WebcatNode)
    ensures
        of@.config.chain_id == of.config.chain_id@,
        of@.config.num_validators == of.config.num_validators,
        of@.config.use_sentries == of.config.use_sentries,
        of@.config.platform == of.config.platform,
        of@.config.directory == of.config.directory@,
        of@.config.port_strategy == of.config.port_strategy,
        of@.config.timeout_commit == of.config.timeout_commit@,
        of@.nodes.len() == of.nodes@.len(),
        forall|i: int| 0 <= i < of.nodes@.len() ==> #[trigger] of@.nodes[i] == of.nodes@[i]@,
        one@.name == one.name@,
        one@.role == one.role,
        one@.ports == one.ports,
        one@.home_dir == one.home_dir@,
        one@.bind_address == one.bind_address@,
        one@.node_id is Some <==> one.node_id is Some,
        one.node_id is Some ==> one@.node_id->0 == one.node_id->0@,
{
}

/// A path is put below a directory with one `/` between them, which is there already where the
/// directory ends with it; below no directory it stands alone.
pub proof fn lemma_path_below(directory: Seq<char>, name: Seq<char>)
    ensures
        directory.len() == 0 ==> node::joined(directory, name) == name,
        directory.len() > 0 && directory.last() == '/' ==> node::joined(directory, name)
            == directory + name,
        directory.len() > 0 && directory.last() != '/' ==> node::joined(directory, name)
            == directory.push('/') + name,
{
    reveal_strlit("/");
    assert(directory.len() == 0 ==> directory + name =~= name);
    assert(directory + "/"@ =~= directory.push('/'));
}

/// Where a node listens: felidae at its own port, CometBFT at its two.
pub proof fn lemma_node_addresses(of: WebcatNodeView)
    ensures
        of.abci_address() == of.bind_address + ":"@ + text::decimal(of.ports.felidae_abci as nat),
        of.rpc_listen_address() == "tcp://"@ + of.bind_address + ":"@ + text::decimal(
            of.ports.cometbft_rpc as nat,
        ),
        of.p2p_listen_address() == "tcp://"@ + of.bind_address + ":"@ + text::decimal(
            of.ports.cometbft_p2p as nat,
        ),
        of.persistent_peer_address() is Some <==> of.node_id is Some,
        of.node_id matches Some(id) ==> of.persistent_peer_address()->0 == id + "@"@
            + of.bind_address + ":"@ + text::decimal(of.ports.cometbft_p2p as nat),
{
    let rpc = "tcp://"@ + of.bind_address + ":"@ + text::decimal(of.ports.cometbft_rpc as nat);
    let p2p = "tcp://"@ + of.bind_address + ":"@ + text::decimal(of.ports.cometbft_p2p as nat);
    assert(of.rpc_listen_address() =~= rpc);
    assert(of.p2p_listen_address() =~= p2p);
    if of.node_id is Some {
        let peer = of.node_id->0 + "@"@ + of.bind_address + ":"@ + text::decimal(
            of.ports.cometbft_p2p as nat,
        );
        assert(of.persistent_peer_address()->0 =~= peer);
    }
}

} // verus!
