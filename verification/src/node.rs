//! The nodes of a network: what they are, where their files lie, and where they listen.

use vstd::prelude::*;

use crate::text;

verus! {

/// What a node is in its network.
#[derive(Clone, Copy, Debug, PartialEq, Eq, Structural)]
pub enum NodeRole {
    Validator,
    Sentry,
    FullNode,
}

impl NodeRole {
    /// Whether the node takes part in consensus.
    pub fn is_validator(&self) -> (r: bool)
        ensures
            r == (*self is Validator),
    {
        match self {
            NodeRole::Validator => true,
            NodeRole::Sentry => false,
            NodeRole::FullNode => false,
        }
    }
}

/// The ports that a node listens at.
#[derive(Clone, Copy, Debug, PartialEq, Eq)]
pub struct NodePorts {
    pub cometbft_p2p: u16,
    pub cometbft_rpc: u16,
    pub felidae_abci: u16,
    pub felidae_query: u16,
    pub felidae_oracle: u16,
}

/// How ports are given to nodes: the first node has `base`, and each further one has ports that are
/// `stride` above those of the one before, from 0 again past the last port.
#[derive(Clone, Copy, Debug, PartialEq, Eq)]
pub struct PortAllocationStrategy {
    pub base: NodePorts,
    pub stride: u16,
}

/// The port `index` strides above `base`.
pub open spec fn port_at(base: u16, stride: u16, index: nat) -> u16 {
    ((base + index * stride) % 0x1_0000) as u16
}

fn port(base: u16, stride: u16, index: usize) -> (r: u16)
    ensures
        r == port_at(base, stride, index as nat),
{
    assert(0 <= index as int * stride as int <= 0xffff_ffff_ffff_ffff * 0xffff) by (nonlinear_arith)
        requires
            0 <= index as int <= 0xffff_ffff_ffff_ffff,
            0 <= stride as int <= 0xffff,
    ;
    let sum: u128 = base as u128 + index as u128 * stride as u128;
    (sum % 0x1_0000) as u16
}

impl PortAllocationStrategy {
    /// The ports of the node with this index.
    pub open spec fn ports(self, index: nat) -> NodePorts {
        NodePorts {
            cometbft_p2p: port_at(self.base.cometbft_p2p, self.stride, index),
            cometbft_rpc: port_at(self.base.cometbft_rpc, self.stride, index),
            felidae_abci: port_at(self.base.felidae_abci, self.stride, index),
            felidae_query: port_at(self.base.felidae_query, self.stride, index),
            felidae_oracle: port_at(self.base.felidae_oracle, self.stride, index),
        }
    }

    /// The ports of the node with this index.
    pub fn allocate(&self, index: usize) -> (r: NodePorts)
        ensures
            r == self.ports(index as nat),
    {
        NodePorts {
            cometbft_p2p: port(self.base.cometbft_p2p, self.stride, index),
            cometbft_rpc: port(self.base.cometbft_rpc, self.stride, index),
            felidae_abci: port(self.base.felidae_abci, self.stride, index),
            felidae_query: port(self.base.felidae_query, self.stride, index),
            felidae_oracle: port(self.base.felidae_oracle, self.stride, index),
        }
    }
}

/// The ports that CometBFT and felidae listen at by default, ten apart from node to node.
pub open spec fn default_strategy() -> PortAllocationStrategy {
    PortAllocationStrategy {
        base: NodePorts {
            cometbft_p2p: 26656,
            cometbft_rpc: 26657,
            felidae_abci: 26658,
            felidae_query: 26659,
            felidae_oracle: 26660,
        },
        stride: 10,
    }
}

impl Default for PortAllocationStrategy {
    fn default() -> (r: Self)
        ensures
            r == default_strategy(),
    {
        PortAllocationStrategy {
            base: NodePorts {
                cometbft_p2p: 26656,
                cometbft_rpc: 26657,
                felidae_abci: 26658,
                felidae_query: 26659,
                felidae_oracle: 26660,
            },
            stride: 10,
        }
    }
}

/// The path of `name` in `directory`.
pub open spec fn joined(directory: Seq<char>, name: Seq<char>) -> Seq<char> {
    if directory.len() == 0 || directory.last() == '/' {
        directory + name
    } else {
        directory + "/"@ + name
    }
}

/// The path of `name` in `directory`.
pub fn join_path(directory: &str, name: &str) -> (r: String)
    ensures
        r@ == joined(directory@, name@),
{
    let mut path = directory.to_string();
    let length: usize = directory.unicode_len();
    if length > 0 && directory.get_char(length - 1) != '/' {
        path.append("/");
    }
    path.append(name);
    path
}

/// A node of a network.
#[derive(Clone, Debug, PartialEq, Eq)]
pub struct WebcatNode {
    pub name: String,
    pub role: NodeRole,
    pub ports: NodePorts,
    pub home_dir: String,
    /// What the node is known by to its peers, once its key was made.
    pub node_id: Option<String>,
    pub bind_address: String,
}

pub struct WebcatNodeView {
    pub name: Seq<char>,
    pub role: NodeRole,
    pub ports: NodePorts,
    pub home_dir: Seq<char>,
    pub node_id: Option<Seq<char>>,
    pub bind_address: Seq<char>,
}

impl View for WebcatNode {
    type V = WebcatNodeView;

    open spec fn view(&self) -> WebcatNodeView {
        WebcatNodeView {
            name: self.name@,
            role: self.role,
            ports: self.ports,
            home_dir: self.home_dir@,
            node_id: text::option_view(self.node_id),
            bind_address: self.bind_address@,
        }
    }
}

/// A host and a port, as `host:port`.
pub open spec fn address_of(host: Seq<char>, port: u16) -> Seq<char> {
    host + ":"@ + text::decimal(port as nat)
}

/// A host and a port, as `host:port`.
pub fn host_and_port(host: &str, port: u16) -> (r: String)
    ensures
        r@ == address_of(host@, port),
{
    let mut address = host.to_string();
    address.append(":");
    address.append(text::decimal_text(port as u64).as_str());
    address
}

impl WebcatNodeView {

    /// The home directory of CometBFT.
    pub open spec fn cometbft_home(self) -> Seq<char> {
        joined(self.home_dir, "cometbft"@)
    }

    /// The home directory of felidae.
    pub open spec fn felidae_home(self) -> Seq<char> {
        joined(self.home_dir, "felidae"@)
    }

    /// Where CometBFT's configuration lies.
    pub open spec fn cometbft_config_dir(self) -> Seq<char> {
        joined(self.cometbft_home(), "config"@)
    }

    /// Where CometBFT's data lies.
    pub open spec fn cometbft_data_dir(self) -> Seq<char> {
        joined(self.cometbft_home(), "data"@)
    }

    /// The genesis file.
    pub open spec fn genesis_path(self) -> Seq<char> {
        joined(self.cometbft_config_dir(), "genesis.json"@)
    }

    /// CometBFT's configuration.
    pub open spec fn config_toml_path(self) -> Seq<char> {
        joined(self.cometbft_config_dir(), "config.toml"@)
    }

    /// The key that the node is known by to its peers.
    pub open spec fn node_key_path(self) -> Seq<char> {
        joined(self.cometbft_config_dir(), "node_key.json"@)
    }

    /// The key that the validator signs with.
    pub open spec fn priv_validator_key_path(self) -> Seq<char> {
        joined(self.cometbft_config_dir(), "priv_validator_key.json"@)
    }

    /// What the validator signed last.
    pub open spec fn priv_validator_state_path(self) -> Seq<char> {
        joined(self.cometbft_data_dir(), "priv_validator_state.json"@)
    }

    /// The admin's key.
    pub open spec fn admin_key_path(self) -> Seq<char> {
        joined(self.felidae_home(), "admin_key.hex"@)
    }

    /// The oracle's key.
    pub open spec fn oracle_key_path(self) -> Seq<char> {
        joined(self.felidae_home(), "oracle_key.hex"@)
    }

    /// Where felidae waits for CometBFT.
    pub open spec fn abci_address(self) -> Seq<char> {
        address_of(self.bind_address, self.ports.felidae_abci)
    }

    /// Where CometBFT answers requests.
    pub open spec fn rpc_listen_address(self) -> Seq<char> {
        "tcp://"@ + address_of(self.bind_address, self.ports.cometbft_rpc)
    }

    /// Where CometBFT waits for its peers.
    pub open spec fn p2p_listen_address(self) -> Seq<char> {
        "tcp://"@ + address_of(self.bind_address, self.ports.cometbft_p2p)
    }

    /// How peers reach the node, once its key was made.
    pub open spec fn persistent_peer_address(self) -> Option<Seq<char>> {
        match self.node_id {
            Some(id) => Some(id + "@"@ + address_of(self.bind_address, self.ports.cometbft_p2p)),
            None => None,
        }
    }
}

impl WebcatNode {
    /// A node at the local host whose key was not made yet.
    pub fn new(name: String, role: NodeRole, ports: NodePorts, home_dir: String) -> (r: Self)
        ensures
            r@ == (WebcatNodeView {
                name: name@,
                role,
                ports,
                home_dir: home_dir@,
                node_id: None,
                bind_address: "127.0.0.1"@,
            }),
    {
        WebcatNode {
            name,
            role,
            ports,
            home_dir,
            node_id: None,
            bind_address: "127.0.0.1".to_string(),
        }
    }

    /// The home directory of CometBFT.
    pub fn cometbft_home(&self) -> (r: String)
        ensures
            r@ == self@.cometbft_home(),
    {
        join_path(self.home_dir.as_str(), "cometbft")
    }

    /// The home directory of felidae.
    pub fn felidae_home(&self) -> (r: String)
        ensures
            r@ == self@.felidae_home(),
    {
        join_path(self.home_dir.as_str(), "felidae")
    }

    /// Where CometBFT's configuration lies.
    pub fn cometbft_config_dir(&self) -> (r: String)
        ensures
            r@ == self@.cometbft_config_dir(),
    {
        join_path(self.cometbft_home().as_str(), "config")
    }

    /// Where CometBFT's data lies.
    pub fn cometbft_data_dir(&self) -> (r: String)
        ensures
            r@ == self@.cometbft_data_dir(),
    {
        join_path(self.cometbft_home().as_str(), "data")
    }

    /// The genesis file.
    pub fn genesis_path(&self) -> (r: String)
        ensures
            r@ == self@.genesis_path(),
    {
        join_path(self.cometbft_config_dir().as_str(), "genesis.json")
    }

    /// CometBFT's configuration.
    pub fn config_toml_path(&self) -> (r: String)
        ensures
            r@ == self@.config_toml_path(),
    {
        join_path(self.cometbft_config_dir().as_str(), "config.toml")
    }

    /// The key that the node is known by to its peers.
    pub fn node_key_path(&self) -> (r: String)
        ensures
            r@ == self@.node_key_path(),
    {
        join_path(self.cometbft_config_dir().as_str(), "node_key.json")
    }

    /// The key that the validator signs with.
    pub fn priv_validator_key_path(&self) -> (r: String)
        ensures
            r@ == self@.priv_validator_key_path(),
    {
        join_path(self.cometbft_config_dir().as_str(), "priv_validator_key.json")
    }

    /// What the validator signed last.
    pub fn priv_validator_state_path(&self) -> (r: String)
        ensures
            r@ == self@.priv_validator_state_path(),
    {
        join_path(self.cometbft_data_dir().as_str(), "priv_validator_state.json")
    }

    /// The admin's key.
    pub fn admin_key_path(&self) -> (r: String)
        ensures
            r@ == self@.admin_key_path(),
    {
        join_path(self.felidae_home().as_str(), "admin_key.hex")
    }

    /// The oracle's key.
    pub fn oracle_key_path(&self) -> (r: String)
        ensures
            r@ == self@.oracle_key_path(),
    {
        join_path(self.felidae_home().as_str(), "oracle_key.hex")
    }

    /// Where felidae waits for CometBFT.
    pub fn abci_address(&self) -> (r: String)
        ensures
            r@ == self@.abci_address(),
    {
        host_and_port(self.bind_address.as_str(), self.ports.felidae_abci)
    }

    /// Where CometBFT answers requests.
    pub fn rpc_listen_address(&self) -> (r: String)
        ensures
            r@ == self@.rpc_listen_address(),
    {
        let mut address = "tcp://".to_string();
        address.append(
            host_and_port(self.bind_address.as_str(), self.ports.cometbft_rpc).as_str(),
        );
        address
    }

    /// Where CometBFT waits for its peers.
    pub fn p2p_listen_address(&self) -> (r: String)
        ensures
            r@ == self@.p2p_listen_address(),
    {
        let mut address = "tcp://".to_string();
        address.append(
            host_and_port(self.bind_address.as_str(), self.ports.cometbft_p2p).as_str(),
        );
        address
    }

    /// How peers reach the node, once its key was made.
    pub fn persistent_peer_address(&self) -> (r: Option<String>)
        ensures
            text::option_view(r) == self@.persistent_peer_address(),
    {
        match &self.node_id {
            Some(id) => {
                let mut address = id.as_str().to_string();
                address.append("@");
                address.append(
                    host_and_port(self.bind_address.as_str(), self.ports.cometbft_p2p).as_str(),
                );
                Some(address)
            },
            None => None,
        }
    }
}

} // verus!
