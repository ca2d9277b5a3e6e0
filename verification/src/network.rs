//! Networks of nodes, and what is written to deploy them.

use vstd::prelude::*;

use crate::clock;
use crate::clock::Duration;
use crate::cometbft;
use crate::compose;
use crate::genesis;
use crate::genesis::GenesisError;
use crate::hexadecimal;
use crate::keys;
use crate::keys::KeyFileError;
use crate::keys::KeyOwner;
use crate::node;
use crate::node::NodeRole;
use crate::node::PortAllocationStrategy;
use crate::node::WebcatNode;
use crate::node::WebcatNodeView;
use crate::sequence;
use crate::text;
use crate::transaction::Admin;
use crate::transaction::AdminConfig;
use crate::transaction::AdminConfigView;
use crate::transaction::Config;
use crate::transaction::ConfigView;
use crate::transaction::Delay;
use crate::transaction::OnionConfig;
use crate::transaction::Oracle;
use crate::transaction::OracleConfig;
use crate::transaction::OracleConfigView;
use crate::transaction::OracleView;
use crate::transaction::Quorum;
use crate::transaction::Timeout;
use crate::transaction::Total;
use crate::transaction::VotingConfig;

verus! {

/// Where a network is deployed.
#[derive(Clone, Copy, Debug, PartialEq, Eq, Default)]
pub enum Platform {
    /// On the local host.
    #[default]
    Local,
    /// In containers.
    Docker,
    /// On Kubernetes.
    Kubernetes,
}

/// What a network is made from.
#[derive(Clone, Debug)]
pub struct NetworkConfig {
    pub chain_id: String,
    pub num_validators: usize,
    /// Whether each validator has a sentry.
    pub use_sentries: bool,
    pub platform: Platform,
    /// The directory of the network.
    pub directory: String,
    pub port_strategy: PortAllocationStrategy,
    /// The time between blocks, as CometBFT writes it.
    pub timeout_commit: String,
}

pub struct NetworkConfigView {
    pub chain_id: Seq<char>,
    pub num_validators: usize,
    pub use_sentries: bool,
    pub platform: Platform,
    pub directory: Seq<char>,
    pub port_strategy: PortAllocationStrategy,
    pub timeout_commit: Seq<char>,
}

impl View for NetworkConfig {
    type V = NetworkConfigView;

    open spec fn view(&self) -> NetworkConfigView {
        NetworkConfigView {
            chain_id: self.chain_id@,
            num_validators: self.num_validators,
            use_sentries: self.use_sentries,
            platform: self.platform,
            directory: self.directory@,
            port_strategy: self.port_strategy,
            timeout_commit: self.timeout_commit@,
        }
    }
}

/// The time between blocks where none is given.
pub fn default_timeout_commit() -> (r: String)
    ensures
        r@ == "1s"@,
{
    "1s".to_string()
}

impl Default for NetworkConfig {
    fn default() -> (r: Self)
        ensures
            r@ == (NetworkConfigView {
                chain_id: "felidae-test"@,
                num_validators: 1,
                use_sentries: false,
                platform: Platform::Local,
                directory: "/tmp/felidae-network"@,
                port_strategy: node::default_strategy(),
                timeout_commit: "1s"@,
            }),
    {
        NetworkConfig {
            chain_id: "felidae-test".to_string(),
            num_validators: 1,
            use_sentries: false,
            platform: Platform::Local,
            directory: "/tmp/felidae-network".to_string(),
            port_strategy: PortAllocationStrategy::default(),
            timeout_commit: default_timeout_commit(),
        }
    }
}

/// A network of nodes.
#[derive(Clone, Debug)]
pub struct Network {
    pub config: NetworkConfig,
    pub nodes: Vec<WebcatNode>,
}

pub struct NetworkView {
    pub config: NetworkConfigView,
    pub nodes: Seq<WebcatNodeView>,
}

impl View for Network {
    type V = NetworkView;

    open spec fn view(&self) -> NetworkView {
        NetworkView {
            config: self.config@,
            nodes: self.nodes@.map_values(|n: WebcatNode| n@),
        }
    }
}

/// The node of this role that is number `number` among those of its role and number `index` among
/// all.
pub open spec fn new_node(
    config: NetworkConfigView,
    role: NodeRole,
    prefix: Seq<char>,
    number: nat,
    index: nat,
) -> WebcatNodeView {
    WebcatNodeView {
        name: prefix + text::decimal(number),
        role,
        ports: config.port_strategy.ports(index),
        home_dir: node::joined(config.directory, prefix + text::decimal(number)),
        node_id: None,
        bind_address: "127.0.0.1"@,
    }
}

/// The validators of a new network.
pub open spec fn new_validators(config: NetworkConfigView) -> Seq<WebcatNodeView> {
    Seq::new(
        config.num_validators as nat,
        |i: int| new_node(config, NodeRole::Validator, "validator-"@, i as nat, i as nat),
    )
}

/// The sentries of a new network, where it has sentries.
pub open spec fn new_sentries(config: NetworkConfigView) -> Seq<WebcatNodeView> {
    Seq::new(
        config.num_validators as nat,
        |i: int|
            new_node(
                config,
                NodeRole::Sentry,
                "sentry-"@,
                i as nat,
                (config.num_validators + i) as nat,
            ),
    )
}

/// The nodes of a new network: its validators, and a sentry for each where it has sentries.
pub open spec fn new_nodes(config: NetworkConfigView) -> Seq<WebcatNodeView> {
    if config.use_sentries {
        new_validators(config) + new_sentries(config)
    } else {
        new_validators(config)
    }
}

/// The nodes of this role, in their order.
pub open spec fn nodes_of(nodes: Seq<WebcatNodeView>, role: NodeRole) -> Seq<WebcatNodeView>
    decreases nodes.len(),
{
    if nodes.len() == 0 {
        Seq::empty()
    } else if nodes.last().role == role {
        nodes_of(nodes.drop_last(), role).push(nodes.last())
    } else {
        nodes_of(nodes.drop_last(), role)
    }
}

/// The ports that a node listens at, each with what it is for. Only validators have an oracle.
pub open spec fn ports_of(node: WebcatNodeView) -> Seq<(u16, Seq<char>)> {
    let common = seq![
        (node.ports.cometbft_p2p, node.name + " CometBFT P2P"@),
        (node.ports.cometbft_rpc, node.name + " CometBFT RPC"@),
        (node.ports.felidae_abci, node.name + " Felidae ABCI"@),
        (node.ports.felidae_query, node.name + " Felidae Query"@),
    ];
    if node.role is Validator {
        common.push((node.ports.felidae_oracle, node.name + " Felidae Oracle"@))
    } else {
        common
    }
}

/// The ports that the nodes listen at, in the order of the nodes.
pub open spec fn required_ports(nodes: Seq<WebcatNodeView>) -> Seq<(u16, Seq<char>)>
    decreases nodes.len(),
{
    if nodes.len() == 0 {
        Seq::empty()
    } else {
        required_ports(nodes.drop_last()) + ports_of(nodes.last())
    }
}

/// How ports are spoken of in contracts.
pub open spec fn ports_view(ports: Seq<(u16, String)>) -> Seq<(u16, Seq<char>)> {
    ports.map_values(|p: (u16, String)| (p.0, p.1@))
}

/// How the errors of taking ports are spoken of in contracts.
pub open spec fn errors_view(errors: Seq<Option<String>>) -> Seq<Option<Seq<char>>> {
    errors.map_values(|e: Option<String>| text::option_view(e))
}

/// A line for each port that could not be taken.
pub open spec fn taken_lines(
    ports: Seq<(u16, Seq<char>)>,
    errors: Seq<Option<Seq<char>>>,
    count: int,
) -> Seq<Seq<char>>
    decreases count,
{
    if count <= 0 {
        Seq::empty()
    } else {
        let before = taken_lines(ports, errors, count - 1);
        match errors[count - 1] {
            Some(error) => before.push(
                "  "@ + ports[count - 1].1 + " (port "@ + text::decimal(ports[count - 1].0 as nat)
                    + "): "@ + error,
            ),
            None => before,
        }
    }
}

/// What is said of the ports that could not be taken, or `None` where all could.
pub open spec fn taken_message(
    ports: Seq<(u16, Seq<char>)>,
    errors: Seq<Option<Seq<char>>>,
) -> Option<Seq<char>> {
    let lines = taken_lines(ports, errors, ports.len() as int);
    if lines.len() == 0 {
        None
    } else {
        Some(
            "The following ports are not available:\n"@ + text::join(lines, "\n"@)
                + "\n\nhint: Check for other running processes using these ports with:\nlsof -i :<port> or ss -tlnp | grep <port>"@,
        )
    }
}

/// Says which ports could not be taken. `errors` holds, for each port, what was said when it could
/// not be.
pub fn check_ports_available(ports: &Vec<(u16, String)>, errors: &Vec<Option<String>>) -> (r: Result<
    (),
    String,
>)
    requires
        ports@.len() == errors@.len(),
    ensures
        match r {
            Ok(_) => taken_message(ports_view(ports@), errors_view(errors@)) is None,
            Err(e) => taken_message(ports_view(ports@), errors_view(errors@)) == Some(e@),
        },
{
    let ghost wanted = ports_view(ports@);
    let ghost found = errors_view(errors@);
    let mut lines: Vec<String> = Vec::new();
    let mut i: usize = 0;
    assert(text::text_views(lines@) =~= Seq::empty());
    while i < ports.len()
        invariant
            i <= ports.len(),
            ports@.len() == errors@.len(),
            wanted == ports_view(ports@),
            found == errors_view(errors@),
            text::text_views(lines@) == taken_lines(wanted, found, i as int),
        decreases ports.len() - i,
    {
        match &errors[i] {
            Some(error) => {
                let ghost before = text::text_views(lines@);
                let mut line = "  ".to_string();
                line.append(ports[i].1.as_str());
                line.append(" (port ");
                line.append(text::decimal_text(ports[i].0 as u64).as_str());
                line.append("): ");
                line.append(error.as_str());
                let ghost last = line@;
                lines.push(line);
                assert(text::text_views(lines@) =~= before.push(last));
            },
            None => {},
        }
        i += 1;
    }
    assert(text::text_views(lines@).len() == lines@.len());
    if lines.len() == 0 {
        return Ok(());
    }
    let mut message = "The following ports are not available:\n".to_string();
    message.append(text::join_texts(&lines, "\n").as_str());
    message.append(
        "\n\nhint: Check for other running processes using these ports with:\nlsof -i :<port> or ss -tlnp | grep <port>",
    );
    Err(message)
}

/// How the nodes are reached by their peers, those whose key was made.
pub open spec fn peers(nodes: Seq<WebcatNodeView>) -> Seq<Seq<char>>
    decreases nodes.len(),
{
    if nodes.len() == 0 {
        Seq::empty()
    } else {
        let before = peers(nodes.drop_last());
        match nodes.last().persistent_peer_address() {
            Some(address) => before.push(address),
            None => before,
        }
    }
}

/// The peers that are not the node of this identifier.
pub open spec fn peers_but(peers: Seq<Seq<char>>, id: Option<Seq<char>>) -> Seq<Seq<char>>
    decreases peers.len(),
{
    if peers.len() == 0 {
        Seq::empty()
    } else {
        let before = peers_but(peers.drop_last(), id);
        if id is Some && id->0.is_prefix_of(peers.last()) {
            before
        } else {
            before.push(peers.last())
        }
    }
}

/// The `config.toml` of a node of a network: its peers are all other nodes.
pub open spec fn node_config(network: NetworkView, node: WebcatNodeView) -> Seq<char> {
    cometbft::config_toml(
        node,
        text::join(peers_but(peers(network.nodes), node.node_id), ","@),
        network.config.timeout_commit,
    )
}

/// The number of votes that decides among `n` voters: more than two thirds.
pub open spec fn quorum_of(n: nat) -> nat {
    2 * n / 3 + 1
}

/// Why a configuration could not be made from key files.
#[derive(Clone, Copy, Debug, PartialEq, Eq)]
pub struct FelidaeConfigError {
    pub owner: KeyOwner,
    pub error: KeyFileError,
}

impl FelidaeConfigError {
    /// What is said of the error.
    pub open spec fn words(self) -> Seq<char> {
        match (self.owner, self.error) {
            (KeyOwner::Oracle, KeyFileError::NotHex(_)) => "failed to decode oracle key hex"@,
            (KeyOwner::Oracle, KeyFileError::NotPkcs8) => "failed to decode oracle key PKCS#8"@,
            (KeyOwner::Oracle, KeyFileError::NotRead) => "failed to read oracle key"@,
            (KeyOwner::Admin, KeyFileError::NotHex(_)) => "failed to decode admin key hex"@,
            (KeyOwner::Admin, KeyFileError::NotPkcs8) => "failed to decode admin key PKCS#8"@,
            (KeyOwner::Admin, KeyFileError::NotRead) => "failed to read admin key"@,
        }
    }

    /// What is said of the error.
    pub fn message(&self) -> (r: String)
        ensures
            r@ == self.words(),
    {
        match (self.owner, self.error) {
            (KeyOwner::Oracle, KeyFileError::NotHex(_)) => "failed to decode oracle key hex"
                .to_string(),
            (KeyOwner::Oracle, KeyFileError::NotPkcs8) => "failed to decode oracle key PKCS#8"
                .to_string(),
            (KeyOwner::Oracle, KeyFileError::NotRead) => "failed to read oracle key".to_string(),
            (KeyOwner::Admin, KeyFileError::NotHex(_)) => "failed to decode admin key hex"
                .to_string(),
            (KeyOwner::Admin, KeyFileError::NotPkcs8) => "failed to decode admin key PKCS#8"
                .to_string(),
            (KeyOwner::Admin, KeyFileError::NotRead) => "failed to read admin key".to_string(),
        }
    }

    /// What is said of the error that led to this one, where there is more to say.
    pub fn cause(&self) -> (r: Option<String>)
        ensures
            text::option_view(r) == (match self.error {
                KeyFileError::NotHex(e) => Some(hexadecimal::hex_error_text(e)),
                _ => None,
            }),
    {
        match self.error {
            KeyFileError::NotHex(e) => Some(hexadecimal::hex_error_message(e)),
            KeyFileError::NotPkcs8 => None,
            KeyFileError::NotRead => None,
        }
    }
}

/// The oracle of a validator with this public key: it answers at the validator's oracle port.
pub open spec fn oracle_at(validator: WebcatNodeView, identity: Seq<u8>) -> OracleView {
    OracleView {
        identity,
        endpoint: node::address_of(validator.bind_address, validator.ports.felidae_oracle),
    }
}

/// The oracles of the validators with these public keys.
pub open spec fn oracles_at(validators: Seq<WebcatNodeView>, identities: Seq<Seq<u8>>) -> Seq<
    OracleView,
> {
    Seq::new(validators.len(), |i: int| oracle_at(validators[i], identities[i]))
}

/// The public key in a key file of this owner, which is there where it could be read.
pub open spec fn identity_in(owner: KeyOwner, key_file: Option<Seq<char>>) -> Result<
    Seq<u8>,
    FelidaeConfigError,
> {
    match key_file {
        None => Err(FelidaeConfigError { owner, error: KeyFileError::NotRead }),
        Some(key_file) => match keys::key_file_public(key_file) {
            Err(error) => Err(FelidaeConfigError { owner, error }),
            Ok(identity) => Ok(identity),
        },
    }
}

/// Whether a key file could be read and holds a key.
pub open spec fn holds_key(key_file: Option<Seq<char>>) -> bool {
    key_file is Some && keys::key_file_public(key_file->0) is Ok
}

/// The public keys in the key files of these owners, or the first error.
pub open spec fn identities_in(owner: KeyOwner, key_files: Seq<Option<Seq<char>>>) -> Result<
    Seq<Seq<u8>>,
    FelidaeConfigError,
> {
    sequence::decode_all(key_files, |k: Option<Seq<char>>| identity_in(owner, k))
}

/// The first configuration of a network with these oracles and admins, one of each for every
/// validator.
pub open spec fn felidae_config(
    oracles: Seq<OracleView>,
    admins: Seq<Seq<u8>>,
    validators: nat,
    oracle_voting_delay: Duration,
    admin_voting_delay: Duration,
) -> ConfigView {
    ConfigView {
        version: 0,
        admins: AdminConfigView {
            voting: VotingConfig {
                total: Total(validators as u64),
                quorum: Quorum(quorum_of(validators) as u64),
                timeout: Timeout(Duration::whole(60)),
                delay: Delay(admin_voting_delay),
            },
            authorized: admins,
        },
        oracles: OracleConfigView {
            enabled: true,
            voting: VotingConfig {
                total: Total(validators as u64),
                quorum: Quorum(quorum_of(validators) as u64),
                timeout: Timeout(Duration::whole(300)),
                delay: Delay(oracle_voting_delay),
            },
            max_enrolled_subdomains: 5,
            observation_timeout: Duration::whole(300),
            authorized: oracles,
        },
        onion: OnionConfig { enabled: false },
        validators: Seq::empty(),
    }
}

/// The first configuration of the network with these key files, or the first error, an oracle's
/// before an admin's.
pub open spec fn felidae_config_of(
    nodes: Seq<WebcatNodeView>,
    oracle_keys: Seq<Option<Seq<char>>>,
    admin_keys: Seq<Option<Seq<char>>>,
    oracle_voting_delay: Duration,
    admin_voting_delay: Duration,
) -> Result<ConfigView, FelidaeConfigError> {
    let validators = nodes_of(nodes, NodeRole::Validator);
    match identities_in(KeyOwner::Oracle, oracle_keys) {
        Err(e) => Err(e),
        Ok(oracles) => match identities_in(KeyOwner::Admin, admin_keys) {
            Err(e) => Err(e),
            Ok(admins) => Ok(
                felidae_config(
                    oracles_at(validators, oracles),
                    admins,
                    validators.len(),
                    oracle_voting_delay,
                    admin_voting_delay,
                ),
            ),
        },
    }
}

fn quorum(n: usize) -> (r: u64)
    ensures
        r == quorum_of(n as nat),
{
    ((n as u128 * 2) / 3 + 1) as u64
}

fn numbered(prefix: &str, number: usize) -> (r: String)
    ensures
        r@ == prefix@ + text::decimal(number as nat),
{
    let mut name = prefix.to_string();
    name.append(text::decimal_text(number as u64).as_str());
    name
}

fn make_node(
    config: &NetworkConfig,
    role: NodeRole,
    prefix: &str,
    number: usize,
    index: usize,
) -> (r: WebcatNode)
    ensures
        r@ == new_node(config@, role, prefix@, number as nat, index as nat),
{
    let name = numbered(prefix, number);
    let ports = config.port_strategy.allocate(index);
    let home_dir = node::join_path(config.directory.as_str(), name.as_str());
    WebcatNode::new(name, role, ports, home_dir)
}

fn described(name: &String, what: &str) -> (r: String)
    ensures
        r@ == name@ + what@,
{
    let mut description = name.as_str().to_string();
    description.append(what);
    description
}

impl Network {
    /// A new network. No key was made for its nodes yet.
    pub fn new(config: NetworkConfig) -> (r: Self)
        requires
            config@.use_sentries ==> 2 * config@.num_validators <= usize::MAX,
        ensures
            r@ == (NetworkView { config: config@, nodes: new_nodes(config@) }),
            forall|k: int|
                0 <= k < r@.nodes.len() ==> (#[trigger] r@.nodes[k]).ports
                    == config@.port_strategy.ports(k as nat),
    {
        let mut nodes: Vec<WebcatNode> = Vec::new();
        let mut i: usize = 0;
        while i < config.num_validators
            invariant
                i <= config.num_validators,
                nodes@.len() == i,
                forall|j: int|
                    0 <= j < i ==> (#[trigger] nodes@[j])@ == new_validators(config@)[j],
            decreases config.num_validators - i,
        {
            nodes.push(make_node(&config, NodeRole::Validator, "validator-", i, i));
            i += 1;
        }
        if config.use_sentries {
            let mut i: usize = 0;
            while i < config.num_validators
                invariant
                    i <= config.num_validators,
                    config@.use_sentries ==> 2 * config@.num_validators <= usize::MAX,
                    config.use_sentries,
                    nodes@.len() == config.num_validators + i,
                    forall|j: int|
                        0 <= j < config.num_validators + i ==> (#[trigger] nodes@[j])@
                            == new_nodes(config@)[j],
                decreases config.num_validators - i,
            {
                let index: usize = config.num_validators + i;
                nodes.push(make_node(&config, NodeRole::Sentry, "sentry-", i, index));
                i += 1;
            }
        }
        assert(nodes@.map_values(|n: WebcatNode| n@) =~= new_nodes(config@));
        Network { config, nodes }
    }

    fn of_role(&self, role: NodeRole) -> (r: Vec<&WebcatNode>)
        ensures
            r@.map_values(|n: &WebcatNode| n@) == nodes_of(self@.nodes, role),
    {
        let ghost views = self@.nodes;
        let mut found: Vec<&WebcatNode> = Vec::new();
        let mut i: usize = 0;
        proof {
            assert(views.take(0) =~= Seq::empty());
            assert(found@.map_values(|n: &WebcatNode| n@) =~= Seq::empty());
        }
        while i < self.nodes.len()
            invariant
                i <= self.nodes.len(),
                views == self@.nodes,
                found@.map_values(|n: &WebcatNode| n@) == nodes_of(views.take(i as int), role),
            decreases self.nodes.len() - i,
        {
            proof {
                assert(views.take(i + 1).drop_last() =~= views.take(i as int));
                assert(views.take(i + 1).last() == self.nodes@[i as int]@);
            }
            let node = &self.nodes[i];
            if node.role == role {
                let ghost before = found@.map_values(|n: &WebcatNode| n@);
                found.push(node);
                assert(found@.map_values(|n: &WebcatNode| n@) =~= before.push(node@));
            }
            i += 1;
        }
        assert(views.take(views.len() as int) =~= views);
        found
    }

    /// The validators, in the order of the nodes.
    pub fn validators(&self) -> (r: Vec<&WebcatNode>)
        ensures
            r@.map_values(|n: &WebcatNode| n@) == nodes_of(self@.nodes, NodeRole::Validator),
    {
        self.of_role(NodeRole::Validator)
    }

    /// The sentries, in the order of the nodes.
    pub fn sentries(&self) -> (r: Vec<&WebcatNode>)
        ensures
            r@.map_values(|n: &WebcatNode| n@) == nodes_of(self@.nodes, NodeRole::Sentry),
    {
        self.of_role(NodeRole::Sentry)
    }

    /// The full nodes, in the order of the nodes.
    pub fn full_nodes(&self) -> (r: Vec<&WebcatNode>)
        ensures
            r@.map_values(|n: &WebcatNode| n@) == nodes_of(self@.nodes, NodeRole::FullNode),
    {
        self.of_role(NodeRole::FullNode)
    }

    /// All ports that the network listens at, each with what it is for.
    pub fn collect_required_ports(&self) -> (r: Vec<(u16, String)>)
        ensures
            ports_view(r@) == required_ports(self@.nodes),
    {
        let ghost views = self@.nodes;
        let mut ports: Vec<(u16, String)> = Vec::new();
        let mut i: usize = 0;
        proof {
            assert(views.take(0) =~= Seq::empty());
            assert(ports_view(ports@) =~= Seq::empty());
        }
        while i < self.nodes.len()
            invariant
                i <= self.nodes.len(),
                views == self@.nodes,
                ports_view(ports@) == required_ports(views.take(i as int)),
            decreases self.nodes.len() - i,
        {
            proof {
                assert(views.take(i + 1).drop_last() =~= views.take(i as int));
                assert(views.take(i + 1).last() == self.nodes@[i as int]@);
            }
            let node = &self.nodes[i];
            let ghost before = ports_view(ports@);
            ports.push((node.ports.cometbft_p2p, described(&node.name, " CometBFT P2P")));
            ports.push((node.ports.cometbft_rpc, described(&node.name, " CometBFT RPC")));
            ports.push((node.ports.felidae_abci, described(&node.name, " Felidae ABCI")));
            ports.push((node.ports.felidae_query, described(&node.name, " Felidae Query")));
            if node.role.is_validator() {
                ports.push((node.ports.felidae_oracle, described(&node.name, " Felidae Oracle")));
            }
            assert(ports_view(ports@) =~= before + ports_of(node@));
            i += 1;
        }
        assert(views.take(views.len() as int) =~= views);
        ports
    }

    /// Says which ports of the network could not be taken. `errors` holds, for each required port,
    /// what was said when it could not be.
    pub fn check_ports_available(&self, errors: &Vec<Option<String>>) -> (r: Result<(), String>)
        requires
            errors@.len() == required_ports(self@.nodes).len(),
        ensures
            match r {
                Ok(_) => taken_message(
                    required_ports(self@.nodes),
                    errors_view(errors@),
                ) is None,
                Err(e) => taken_message(required_ports(self@.nodes), errors_view(errors@)) == Some(
                    e@,
                ),
            },
    {
        let ports = self.collect_required_ports();
        assert(ports_view(ports@).len() == ports@.len());
        check_ports_available(&ports, errors)
    }

    /// The genesis file of the network, for a chain that begins now, with an entry for each of its
    /// validators, from their key files, each of which is there where it could be read.
    pub fn generate_genesis(&self, key_files: &Vec<Option<String>>) -> (r: Result<
        String,
        GenesisError,
    >)
        requires
            key_files@.len() == nodes_of(self@.nodes, NodeRole::Validator).len(),
        ensures
            exists|now: Seq<char>|
                clock::is_time_text(now) && #[trigger] genesis::genesis_outcome(
                    r,
                    now,
                    self@.config.chain_id,
                    text::option_views(key_files@),
                ),
    {
        let now = clock::current_time_text();
        let r = genesis::genesis_at(now.as_str(), self.config.chain_id.as_str(), key_files);
        assert(genesis::genesis_outcome(
            r,
            now@,
            self@.config.chain_id,
            text::option_views(key_files@),
        ));
        r
    }

    fn peer_addresses(&self) -> (r: Vec<String>)
        ensures
            text::text_views(r@) == peers(self@.nodes),
    {
        let ghost views = self@.nodes;
        let mut found: Vec<String> = Vec::new();
        let mut i: usize = 0;
        proof {
            assert(views.take(0) =~= Seq::empty());
            assert(text::text_views(found@) =~= Seq::empty());
        }
        while i < self.nodes.len()
            invariant
                i <= self.nodes.len(),
                views == self@.nodes,
                text::text_views(found@) == peers(views.take(i as int)),
            decreases self.nodes.len() - i,
        {
            proof {
                assert(views.take(i + 1).drop_last() =~= views.take(i as int));
                assert(views.take(i + 1).last() == self.nodes@[i as int]@);
            }
            match self.nodes[i].persistent_peer_address() {
                Some(address) => {
                    let ghost before = text::text_views(found@);
                    let ghost last = address@;
                    found.push(address);
                    assert(text::text_views(found@) =~= before.push(last));
                },
                None => {},
            }
            i += 1;
        }
        assert(views.take(views.len() as int) =~= views);
        found
    }

    /// The `config.toml` of each node, in the order of the nodes.
    pub fn generate_configs(&self) -> (r: Vec<String>)
        ensures
            text::text_views(r@) == self@.nodes.map_values(
                |n: WebcatNodeView| node_config(self@, n),
            ),
    {
        let ghost views = self@.nodes;
        let all_peers = self.peer_addresses();
        let mut configs: Vec<String> = Vec::new();
        let mut i: usize = 0;
        while i < self.nodes.len()
            invariant
                i <= self.nodes.len(),
                views == self@.nodes,
                text::text_views(all_peers@) == peers(views),
                configs@.len() == i,
                forall|j: int|
                    0 <= j < i ==> (#[trigger] configs@[j])@ == node_config(self@, views[j]),
            decreases self.nodes.len() - i,
        {
            let node = &self.nodes[i];
            assert(views[i as int] == node@);
            let others = other_peers(&all_peers, &node.node_id);
            let peer_list = text::join_texts(&others, ",");
            configs.push(
                cometbft::generate_config_toml(
                    node,
                    peer_list.as_str(),
                    self.config.timeout_commit.as_str(),
                ),
            );
            i += 1;
        }
        assert(text::text_views(configs@) =~= views.map_values(
            |n: WebcatNodeView| node_config(self@, n),
        ));
        configs
    }

    /// The first configuration of the network, from the key files of its validators' oracles and
    /// admins, in the order of the validators, each of which is there where it could be read.
    ///
    /// Every validator has an oracle and an admin; more than two thirds of them decide; votes time
    /// out after five minutes for oracles and one minute for admins.
    pub fn generate_felidae_config(
        &self,
        oracle_keys: &Vec<Option<String>>,
        admin_keys: &Vec<Option<String>>,
        oracle_voting_delay: Duration,
        admin_voting_delay: Duration,
    ) -> (r: Result<Config, FelidaeConfigError>)
        requires
            oracle_keys@.len() == nodes_of(self@.nodes, NodeRole::Validator).len(),
            admin_keys@.len() == nodes_of(self@.nodes, NodeRole::Validator).len(),
        ensures
            match r {
                Ok(config) => felidae_config_of(
                    self@.nodes,
                    text::option_views(oracle_keys@),
                    text::option_views(admin_keys@),
                    oracle_voting_delay,
                    admin_voting_delay,
                ) == Ok::<ConfigView, FelidaeConfigError>(config@),
                Err(e) => felidae_config_of(
                    self@.nodes,
                    text::option_views(oracle_keys@),
                    text::option_views(admin_keys@),
                    oracle_voting_delay,
                    admin_voting_delay,
                ) == Err::<ConfigView, FelidaeConfigError>(e),
            },
    {
        let oracles = match read_identities(KeyOwner::Oracle, oracle_keys) {
            Ok(oracles) => oracles,
            Err(e) => return Err(e),
        };
        let admins = match read_identities(KeyOwner::Admin, admin_keys) {
            Ok(admins) => admins,
            Err(e) => return Err(e),
        };
        proof {
            let decode = |k: Option<Seq<char>>| identity_in(KeyOwner::Oracle, k);
            sequence::lemma_decode_all_items(text::option_views(oracle_keys@), decode);
            assert(oracles@.map_values(|k: Vec<u8>| k@).len() == oracles@.len());
        }
        Ok(self.first_config(oracles, admins, oracle_voting_delay, admin_voting_delay))
    }

    /// The first configuration of the network, from the public keys of its validators' oracles, in
    /// the order of the validators, and of its admins.
    pub fn first_config(
        &self,
        oracle_keys: Vec<Vec<u8>>,
        admin_keys: Vec<Vec<u8>>,
        oracle_voting_delay: Duration,
        admin_voting_delay: Duration,
    ) -> (r: Config)
        requires
            oracle_keys@.len() == nodes_of(self@.nodes, NodeRole::Validator).len(),
        ensures
            r@ == felidae_config(
                oracles_at(
                    nodes_of(self@.nodes, NodeRole::Validator),
                    oracle_keys@.map_values(|k: Vec<u8>| k@),
                ),
                admin_keys@.map_values(|k: Vec<u8>| k@),
                nodes_of(self@.nodes, NodeRole::Validator).len(),
                oracle_voting_delay,
                admin_voting_delay,
            ),
    {
        let validators = self.validators();
        proof {
            assert(validators@.map_values(|n: &WebcatNode| n@).len() == validators@.len());
        }
        let n: usize = validators.len();
        let config = Config {
            version: 0,
            admins: AdminConfig {
                voting: VotingConfig {
                    total: Total(n as u64),
                    quorum: Quorum(quorum(n)),
                    timeout: Timeout(Duration::from_secs(60)),
                    delay: Delay(admin_voting_delay),
                },
                authorized: make_admins(admin_keys),
            },
            oracles: OracleConfig {
                enabled: true,
                voting: VotingConfig {
                    total: Total(n as u64),
                    quorum: Quorum(quorum(n)),
                    timeout: Timeout(Duration::from_secs(300)),
                    delay: Delay(oracle_voting_delay),
                },
                max_enrolled_subdomains: 5,
                observation_timeout: Duration::from_secs(300),
                authorized: make_oracles(&validators, oracle_keys),
            },
            onion: OnionConfig { enabled: false },
            validators: Vec::new(),
        };
        assert(config@.validators =~= Seq::empty());
        config
    }

    /// The process-compose file of the network. `felidae_command` runs felidae, in
    /// `felidae_working_dir` where there is one.
    pub fn generate_process_compose_config(
        &self,
        felidae_command: &str,
        felidae_working_dir: Option<&str>,
    ) -> (r: String)
        ensures
            r@ == compose::process_compose(
                self@.nodes,
                felidae_command@,
                text::option_str_view(felidae_working_dir),
            ),
    {
        compose::write_process_compose(&self.nodes, felidae_command, felidae_working_dir)
    }
}

fn other_peers(all_peers: &Vec<String>, id: &Option<String>) -> (r: Vec<String>)
    ensures
        text::text_views(r@) == peers_but(
            text::text_views(all_peers@),
            text::option_view(*id),
        ),
{
    let ghost views = text::text_views(all_peers@);
    let ghost own = text::option_view(*id);
    let mut others: Vec<String> = Vec::new();
    let mut i: usize = 0;
    proof {
        assert(views.take(0) =~= Seq::empty());
        assert(text::text_views(others@) =~= Seq::empty());
    }
    while i < all_peers.len()
        invariant
            i <= all_peers.len(),
            views == text::text_views(all_peers@),
            own == text::option_view(*id),
            text::text_views(others@) == peers_but(views.take(i as int), own),
        decreases all_peers.len() - i,
    {
        proof {
            assert(views.take(i + 1).drop_last() =~= views.take(i as int));
            assert(views.take(i + 1).last() == all_peers@[i as int]@);
        }
        let peer = all_peers[i].as_str();
        let is_own = match id {
            Some(id) => text::starts_with(peer, id.as_str()),
            None => false,
        };
        if !is_own {
            let ghost before = text::text_views(others@);
            others.push(peer.to_string());
            assert(text::text_views(others@) =~= before.push(peer@));
        }
        i += 1;
    }
    assert(views.take(views.len() as int) =~= views);
    others
}

fn make_oracles(validators: &Vec<&WebcatNode>, identities: Vec<Vec<u8>>) -> (r: Vec<Oracle>)
    requires
        identities@.len() == validators@.len(),
    ensures
        r@.map_values(|o: Oracle| o@) == oracles_at(
            validators@.map_values(|n: &WebcatNode| n@),
            identities@.map_values(|k: Vec<u8>| k@),
        ),
{
    let ghost all = identities@;
    let mut oracles: Vec<Oracle> = Vec::new();
    for identity in it: identities.into_iter()
        invariant
            it.seq() == all,
            all.len() == validators@.len(),
            oracles@.len() == it.index(),
            forall|j: int|
                0 <= j < oracles@.len() ==> (#[trigger] oracles@[j])@ == oracle_at(
                    validators@[j]@,
                    all[j]@,
                ),
    {
        let node = validators[oracles.len()];
        let endpoint = node::host_and_port(node.bind_address.as_str(), node.ports.felidae_oracle);
        oracles.push(Oracle { identity, endpoint });
    }
    assert(oracles@.map_values(|o: Oracle| o@) =~= oracles_at(
        validators@.map_values(|n: &WebcatNode| n@),
        all.map_values(|k: Vec<u8>| k@),
    ));
    oracles
}

fn make_admins(identities: Vec<Vec<u8>>) -> (r: Vec<Admin>)
    ensures
        r@.map_values(|a: Admin| a@) == identities@.map_values(|k: Vec<u8>| k@),
{
    let ghost all = identities@;
    let mut admins: Vec<Admin> = Vec::new();
    for identity in it: identities.into_iter()
        invariant
            it.seq() == all,
            admins@.len() == it.index(),
            forall|j: int| 0 <= j < admins@.len() ==> (#[trigger] admins@[j])@ == all[j]@,
    {
        admins.push(Admin { identity });
    }
    assert(admins@.map_values(|a: Admin| a@) =~= all.map_values(|k: Vec<u8>| k@));
    admins
}

fn read_identities(owner: KeyOwner, key_files: &Vec<Option<String>>) -> (r: Result<
    Vec<Vec<u8>>,
    FelidaeConfigError,
>)
    ensures
        match r {
            Ok(identities) => identities_in(owner, text::option_views(key_files@)) == Ok::<
                Seq<Seq<u8>>,
                FelidaeConfigError,
            >(identities@.map_values(|k: Vec<u8>| k@)),
            Err(e) => identities_in(owner, text::option_views(key_files@)) == Err::<
                Seq<Seq<u8>>,
                FelidaeConfigError,
            >(e),
        },
{
    let ghost views = text::option_views(key_files@);
    let ghost decode = |k: Option<Seq<char>>| identity_in(owner, k);
    let mut identities: Vec<Vec<u8>> = Vec::new();
    let mut i: usize = 0;
    proof {
        assert(views.take(0) =~= Seq::empty());
        assert(identities@.map_values(|k: Vec<u8>| k@) =~= Seq::empty());
    }
    while i < key_files.len()
        invariant
            i <= key_files.len(),
            views == text::option_views(key_files@),
            decode == (|k: Option<Seq<char>>| identity_in(owner, k)),
            sequence::decode_all(views.take(i as int), decode) == Ok::<
                Seq<Seq<u8>>,
                FelidaeConfigError,
            >(identities@.map_values(|k: Vec<u8>| k@)),
        decreases key_files.len() - i,
    {
        proof {
            assert(views.take(i + 1).drop_last() =~= views.take(i as int));
            assert(views.take(i + 1).last() == text::option_view(key_files@[i as int]));
        }
        let key_file = match &key_files[i] {
            Some(key_file) => key_file,
            None => {
                proof {
                    sequence::lemma_decode_all_prefix(views, decode, i + 1);
                }
                return Err(FelidaeConfigError { owner, error: KeyFileError::NotRead });
            },
        };
        match keys::read_key_file(key_file.as_str()) {
            Ok(identity) => {
                let ghost before = identities@.map_values(|k: Vec<u8>| k@);
                let ghost last = identity@;
                identities.push(identity);
                assert(identities@.map_values(|k: Vec<u8>| k@) =~= before.push(last));
            },
            Err(error) => {
                proof {
                    sequence::lemma_decode_all_prefix(views, decode, i + 1);
                }
                return Err(FelidaeConfigError { owner, error });
            },
        }
        i += 1;
    }
    assert(views.take(views.len() as int) =~= views);
    Ok(identities)
}

} // verus!
