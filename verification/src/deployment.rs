//! The files of a deployed network.

use vstd::prelude::*;

use crate::crypto;
use crate::genesis;
use crate::genesis::InjectError;
use crate::genesis::InjectErrorView;
use crate::hexadecimal;
use crate::json;
use crate::keys;
use crate::keys::FelidaeKeys;
use crate::keys::KeyOwner;
use crate::network;
use crate::network::Network;
use crate::network::NetworkView;
use crate::node;
use crate::node::NodeRole;
use crate::node::WebcatNode;
use crate::node::WebcatNodeView;
use crate::text;

verus! {

/// A file and what it holds.
#[derive(Clone, Debug, PartialEq, Eq)]
pub struct FileToWrite {
    pub path: String,
    pub content: String,
}

pub struct FileView {
    pub path: Seq<char>,
    pub content: Seq<char>,
}

impl View for FileToWrite {
    type V = FileView;

    open spec fn view(&self) -> FileView {
        FileView { path: self.path@, content: self.content@ }
    }
}

/// The keys of a validator, as their files hold them.
#[derive(Clone, Debug, PartialEq, Eq)]
pub struct ValidatorKeys {
    pub priv_validator_key: String,
    pub felidae: FelidaeKeys,
}

/// The keys of a node, as their files hold them.
#[derive(Clone, Debug, PartialEq, Eq)]
pub struct NodeKeys {
    pub node_key: String,
    pub node_id: String,
    /// Only validators have these.
    pub validator: Option<ValidatorKeys>,
}

pub struct ValidatorKeysView {
    pub priv_validator_key: Seq<char>,
    pub admin: Seq<char>,
    pub oracle: Seq<char>,
}

pub struct NodeKeysView {
    pub node_key: Seq<char>,
    pub node_id: Seq<char>,
    pub validator: Option<ValidatorKeysView>,
}

impl View for NodeKeys {
    type V = NodeKeysView;

    open spec fn view(&self) -> NodeKeysView {
        NodeKeysView {
            node_key: self.node_key@,
            node_id: self.node_id@,
            validator: match self.validator {
                Some(made) => Some(
                    ValidatorKeysView {
                        priv_validator_key: made.priv_validator_key@,
                        admin: made.felidae.admin@,
                        oracle: made.felidae.oracle@,
                    },
                ),
                None => None,
            },
        }
    }
}

/// Why no keys could be made for a node.
#[derive(Clone, Debug, PartialEq, Eq)]
pub enum NodeKeysError {
    /// A key file could not be laid out as JSON.
    Json(String),
    /// A key could not be written in PKCS#8.
    Pkcs8(KeyOwner),
}

pub enum NodeKeysErrorView {
    Json(Seq<char>),
    Pkcs8(KeyOwner),
}

impl View for NodeKeysError {
    type V = NodeKeysErrorView;

    open spec fn view(&self) -> NodeKeysErrorView {
        match *self {
            NodeKeysError::Json(cause) => NodeKeysErrorView::Json(cause@),
            NodeKeysError::Pkcs8(owner) => NodeKeysErrorView::Pkcs8(owner),
        }
    }
}

impl NodeKeysErrorView {
    /// What is said of the error.
    pub open spec fn words(self) -> Seq<char> {
        match self {
            NodeKeysErrorView::Json(cause) => cause,
            NodeKeysErrorView::Pkcs8(KeyOwner::Admin) => "failed to encode admin key to PKCS#8"@,
            NodeKeysErrorView::Pkcs8(KeyOwner::Oracle) => "failed to encode oracle key to PKCS#8"@,
        }
    }
}

impl NodeKeysError {
    /// What is said of the error.
    pub fn message(&self) -> (r: String)
        ensures
            r@ == self@.words(),
    {
        match self {
            NodeKeysError::Json(cause) => cause.as_str().to_string(),
            NodeKeysError::Pkcs8(KeyOwner::Admin) => "failed to encode admin key to PKCS#8"
                .to_string(),
            NodeKeysError::Pkcs8(KeyOwner::Oracle) => "failed to encode oracle key to PKCS#8"
                .to_string(),
        }
    }
}

/// The keys of a node of this role, from what came of making its own key file, the one that it signs
/// with, and those of its admin and its oracle, or the first error. Only a validator has more than
/// its own.
pub open spec fn node_keys(
    role: NodeRole,
    node_id: Seq<char>,
    node_key: Result<Seq<char>, Seq<char>>,
    priv_validator_key: Result<Seq<char>, Seq<char>>,
    felidae: Result<(Seq<char>, Seq<char>), KeyOwner>,
) -> Result<NodeKeysView, NodeKeysErrorView> {
    match node_key {
        Err(e) => Err(NodeKeysErrorView::Json(e)),
        Ok(node_key) => if role !is Validator {
            Ok(NodeKeysView { node_key, node_id, validator: None })
        } else {
            match priv_validator_key {
                Err(e) => Err(NodeKeysErrorView::Json(e)),
                Ok(priv_validator_key) => match felidae {
                    Err(owner) => Err(NodeKeysErrorView::Pkcs8(owner)),
                    Ok(files) => Ok(
                        NodeKeysView {
                            node_key,
                            node_id,
                            validator: Some(
                                ValidatorKeysView {
                                    priv_validator_key,
                                    admin: files.0,
                                    oracle: files.1,
                                },
                            ),
                        },
                    ),
                },
            }
        },
    }
}

/// Keys or why there are none, as contracts speak of them.
pub open spec fn node_keys_view(r: Result<NodeKeys, NodeKeysError>) -> Result<
    NodeKeysView,
    NodeKeysErrorView,
> {
    match r {
        Ok(made) => Ok(made@),
        Err(e) => Err(e@),
    }
}

/// Whether these are the keys of a node with these secret keys: its own, the one that it signs with,
/// and those of its admin and its oracle in PKCS#8, where they could be written. The first two are read
/// back from their files. The node is known by 40 lower case hexadecimal digits.
pub open spec fn keys_of(
    r: Result<NodeKeys, NodeKeysError>,
    role: NodeRole,
    secret: Seq<u8>,
    signing: Seq<u8>,
    admin: Option<Seq<u8>>,
    oracle: Option<Seq<u8>>,
) -> bool {
    &&& node_keys_view(r) == node_keys(
        role,
        keys::node_id(secret),
        Ok(json::json_pretty(keys::node_key_json(secret))),
        Ok(json::json_pretty(keys::priv_validator_key_json(signing))),
        keys::felidae_key_files(admin, oracle),
    )
    &&& keys::node_id(secret).len() == 40
    &&& hexadecimal::is_lower_hex(keys::node_id(secret))
    &&& r matches Ok(made) ==> json::reads_back(made@.node_key, keys::node_key_json(secret))
    &&& r matches Ok(made) ==> (made@.validator matches Some(validator)
        ==> keys::is_validator_key_file(validator.priv_validator_key, signing))
    &&& admin is Some ==> crypto::p256_public(admin->0) is Some
    &&& oracle is Some ==> crypto::p256_public(oracle->0) is Some
}

/// The keys of a node of this role, from what came of making each of them.
pub fn assemble_node_keys(
    role: NodeRole,
    own: Result<(String, String), String>,
    priv_validator_key: Result<String, String>,
    felidae: Result<FelidaeKeys, KeyOwner>,
) -> (r: Result<NodeKeys, NodeKeysError>)
    ensures
        match own {
            Ok(own) => node_keys_view(r) == node_keys(
                role,
                own.1@,
                Ok(own.0@),
                text::outcome_view(priv_validator_key),
                keys::felidae_keys_view(felidae),
            ),
            Err(e) => node_keys_view(r) == Err::<NodeKeysView, NodeKeysErrorView>(
                NodeKeysErrorView::Json(e@),
            ),
        },
{
    let (node_key, node_id) = match own {
        Ok(own) => own,
        Err(e) => return Err(NodeKeysError::Json(e)),
    };
    if !role.is_validator() {
        return Ok(NodeKeys { node_key, node_id, validator: None });
    }
    let priv_validator_key = match priv_validator_key {
        Ok(key) => key,
        Err(e) => return Err(NodeKeysError::Json(e)),
    };
    match felidae {
        Ok(felidae) => Ok(
            NodeKeys {
                node_key,
                node_id,
                validator: Some(ValidatorKeys { priv_validator_key, felidae }),
            },
        ),
        Err(owner) => Err(NodeKeysError::Pkcs8(owner)),
    }
}

/// New keys for a node of this role. Only a validator's admin and oracle keys can fail to be made.
pub fn generate_node_keys(role: NodeRole) -> (r: Result<NodeKeys, NodeKeysError>)
    ensures
        role !is Validator ==> r is Ok,
        r matches Ok(made) ==> made@.node_id.len() == 40 && hexadecimal::is_lower_hex(made@.node_id)
            && (made@.validator is Some <==> role is Validator),
        exists|
            secret: Seq<u8>,
            signing: Seq<u8>,
            admin: Option<Seq<u8>>,
            oracle: Option<Seq<u8>>,
        |
            secret.len() == 32 && signing.len() == 32 && #[trigger] keys_of(
                r,
                role,
                secret,
                signing,
                admin,
                oracle,
            ),
{
    let own = keys::generate_node_key();
    let signed = keys::generate_priv_validator_key();
    let felidae = keys::generate_felidae_keys();
    let ghost secret = choose|secret: Seq<u8>|
        secret.len() == 32 && #[trigger] keys::node_key_outcome(own, secret);
    let ghost signing = choose|signing: Seq<u8>|
        signing.len() == 32 && #[trigger] keys::priv_validator_key_outcome(signed, signing);
    let ghost (admin, oracle) = choose|admin: Option<Seq<u8>>, oracle: Option<Seq<u8>>|
        #[trigger] keys::new_keys_outcome(felidae, admin, oracle);
    let r = assemble_node_keys(role, own, signed, felidae);
    assert(keys_of(r, role, secret, signing, admin, oracle));
    r
}

/// What a validator's new admin and oracle files hold is read back as keys.
pub proof fn lemma_new_validator_keys_are_read_back(
    r: Result<NodeKeys, NodeKeysError>,
    secret: Seq<u8>,
    signing: Seq<u8>,
    admin: Option<Seq<u8>>,
    oracle: Option<Seq<u8>>,
)
    requires
        keys_of(r, NodeRole::Validator, secret, signing, admin, oracle),
        r is Ok,
    ensures
        r->Ok_0@.validator is Some,
        keys::key_file_public(r->Ok_0@.validator->0.admin) is Ok,
        keys::key_file_public(r->Ok_0@.validator->0.oracle) is Ok,
{
    keys::lemma_key_file_round_trip(admin->0);
    keys::lemma_key_file_round_trip(oracle->0);
}

/// The directories of a node.
pub fn node_directories(node: &WebcatNode) -> (r: Vec<String>)
    ensures
        text::text_views(r@) == seq![
            node@.cometbft_config_dir(),
            node@.cometbft_data_dir(),
            node@.felidae_home(),
        ],
{
    let directories = vec![
        node.cometbft_config_dir(),
        node.cometbft_data_dir(),
        node.felidae_home(),
    ];
    assert(text::text_views(directories@) =~= seq![
        node@.cometbft_config_dir(),
        node@.cometbft_data_dir(),
        node@.felidae_home(),
    ]);
    directories
}

/// The files that a node begins with: its own key, and for a validator the key that it signs with,
/// that it signed nothing yet, and the keys of its admin and its oracle.
pub open spec fn node_files(node: WebcatNodeView, made: NodeKeysView) -> Seq<FileView> {
    let own = seq![FileView { path: node.node_key_path(), content: made.node_key }];
    match made.validator {
        None => own,
        Some(validator) => own + seq![
            FileView {
                path: node.priv_validator_key_path(),
                content: validator.priv_validator_key,
            },
            FileView {
                path: node.priv_validator_state_path(),
                content: "{\n  \"height\": \"0\",\n  \"round\": 0,\n  \"step\": 0\n}"@,
            },
            FileView { path: node.admin_key_path(), content: validator.admin },
            FileView { path: node.oracle_key_path(), content: validator.oracle },
        ],
    }
}

/// Gives a node its keys: it is known by its identifier from now on. Returns the files that it
/// begins with.
pub fn initialize_node(node: &mut WebcatNode, made: NodeKeys) -> (r: Vec<FileToWrite>)
    ensures
        final(node)@ == (WebcatNodeView { node_id: Some(made@.node_id), ..old(node)@ }),
        r@.map_values(|f: FileToWrite| f@) == node_files(old(node)@, made@),
{
    let ghost before = node@;
    let mut files: Vec<FileToWrite> = Vec::new();
    node.node_id = Some(made.node_id);
    files.push(FileToWrite { path: node.node_key_path(), content: made.node_key });
    match made.validator {
        Some(validator) => {
            files.push(
                FileToWrite {
                    path: node.priv_validator_key_path(),
                    content: validator.priv_validator_key,
                },
            );
            files.push(
                FileToWrite {
                    path: node.priv_validator_state_path(),
                    content: keys::initial_validator_state(),
                },
            );
            files.push(
                FileToWrite { path: node.admin_key_path(), content: validator.felidae.admin },
            );
            files.push(
                FileToWrite { path: node.oracle_key_path(), content: validator.felidae.oracle },
            );
        },
        None => {},
    }
    assert(files@.map_values(|f: FileToWrite| f@) =~= node_files(before, made@));
    files
}

/// The files of a network whose nodes have their keys: the genesis file in its own directory, a copy
/// of it for each node, and the `config.toml` of each node.
pub open spec fn network_files(of: NetworkView, genesis: Seq<char>) -> Seq<FileView> {
    seq![
        FileView {
            path: node::joined(of.config.directory, "genesis.json"@),
            content: genesis,
        },
    ] + of.nodes.map_values(
        |n: WebcatNodeView| FileView { path: n.genesis_path(), content: genesis },
    ) + of.nodes.map_values(
        |n: WebcatNodeView|
            FileView { path: n.config_toml_path(), content: network::node_config(of, n) },
    )
}

/// The genesis file of each node with the configuration that has this text in its application state,
/// up to the first error.
pub open spec fn injected_files(
    nodes: Seq<WebcatNodeView>,
    genesis_files: Seq<Option<Seq<char>>>,
    config: Seq<char>,
) -> (Seq<FileView>, Option<InjectErrorView>)
    decreases nodes.len(),
{
    if nodes.len() == 0 {
        (Seq::empty(), None)
    } else {
        let before = injected_files(nodes.drop_last(), genesis_files, config);
        if before.1 is Some {
            before
        } else {
            match genesis::injected(genesis_files[nodes.len() - 1], config) {
                Err(e) => (before.0, Some(e)),
                Ok(text) => (
                    before.0.push(
                        FileView {
                            path: nodes.last().genesis_path(),
                            content: json::json_pretty(text),
                        },
                    ),
                    None,
                ),
            }
        }
    }
}

proof fn lemma_injected_prefix(
    nodes: Seq<WebcatNodeView>,
    genesis_files: Seq<Option<Seq<char>>>,
    config: Seq<char>,
    n: int,
)
    requires
        0 <= n <= nodes.len(),
        injected_files(nodes.take(n), genesis_files, config).1 is Some,
    ensures
        injected_files(nodes, genesis_files, config) == injected_files(
            nodes.take(n),
            genesis_files,
            config,
        ),
    decreases nodes.len() - n,
{
    if n < nodes.len() {
        assert(nodes.take(n + 1).drop_last() =~= nodes.take(n));
        lemma_injected_prefix(nodes, genesis_files, config, n + 1);
    } else {
        assert(nodes.take(n) =~= nodes);
    }
}

/// Where every genesis file can be given an application state, each node's is, in the order of the
/// nodes.
pub proof fn lemma_every_node_is_given_the_config(
    nodes: Seq<WebcatNodeView>,
    genesis_files: Seq<Option<Seq<char>>>,
    config: Seq<char>,
)
    requires
        nodes.len() <= genesis_files.len(),
        forall|i: int|
            0 <= i < nodes.len() ==> genesis::injected(#[trigger] genesis_files[i], config) is Ok,
    ensures
        injected_files(nodes, genesis_files, config).1 is None,
        injected_files(nodes, genesis_files, config).0.len() == nodes.len(),
        forall|i: int|
            0 <= i < nodes.len() ==> #[trigger] injected_files(nodes, genesis_files, config).0[i]
                == (FileView {
                path: nodes[i].genesis_path(),
                content: json::json_pretty(genesis::injected(genesis_files[i], config)->Ok_0),
            }),
    decreases nodes.len(),
{
    if nodes.len() > 0 {
        let front = nodes.drop_last();
        lemma_every_node_is_given_the_config(front, genesis_files, config);
        assert(genesis::injected(genesis_files[nodes.len() - 1], config) is Ok);
        let before = injected_files(front, genesis_files, config).0;
        assert forall|i: int| 0 <= i < nodes.len() implies #[trigger] injected_files(
            nodes,
            genesis_files,
            config,
        ).0[i] == (FileView {
            path: nodes[i].genesis_path(),
            content: json::json_pretty(genesis::injected(genesis_files[i], config)->Ok_0),
        }) by {
            if i < front.len() {
                assert(before[i].path == front[i].genesis_path());
            }
        }
    }
}

impl Network {
    /// The genesis file of each node with this configuration in its application state, up to the
    /// first error. Each of `genesis_files`, in the order of the nodes, is there where it could be
    /// read. Where a file has an application state, it is replaced; all else in it stays.
    pub fn inject_genesis_app_state(
        &self,
        genesis_files: &Vec<Option<String>>,
        config: &serde_json::Value,
    ) -> (r: (Vec<FileToWrite>, Result<(), InjectError>))
        requires
            genesis_files@.len() == self@.nodes.len(),
        ensures
            r.0@.map_values(|f: FileToWrite| f@) == injected_files(
                self@.nodes,
                text::option_views(genesis_files@),
                json::json_text(*config),
            ).0,
            match r.1 {
                Ok(_) => injected_files(
                    self@.nodes,
                    text::option_views(genesis_files@),
                    json::json_text(*config),
                ).1 is None,
                Err(e) => injected_files(
                    self@.nodes,
                    text::option_views(genesis_files@),
                    json::json_text(*config),
                ).1 == Some(e@),
            },
            r.0@.len() <= self@.nodes.len(),
            forall|i: int|
                0 <= i < r.0@.len() ==> #[trigger] genesis::inject_outcome(
                    Ok(r.0@[i].content),
                    text::option_view(genesis_files@[i]),
                    json::json_text(*config),
                ),
    {
        let ghost views = self@.nodes;
        let ghost there = text::option_views(genesis_files@);
        let ghost wanted = json::json_text(*config);
        let mut files: Vec<FileToWrite> = Vec::new();
        let mut i: usize = 0;
        proof {
            assert(views.take(0) =~= Seq::empty());
            assert(files@.map_values(|f: FileToWrite| f@) =~= Seq::empty());
        }
        while i < self.nodes.len()
            invariant
                i <= self.nodes.len(),
                views == self@.nodes,
                there == text::option_views(genesis_files@),
                wanted == json::json_text(*config),
                genesis_files@.len() == views.len(),
                files@.len() == i,
                injected_files(views.take(i as int), there, wanted) == (
                    files@.map_values(|f: FileToWrite| f@),
                    None::<InjectErrorView>,
                ),
                forall|j: int|
                    0 <= j < i ==> #[trigger] genesis::inject_outcome(
                        Ok(files@[j].content),
                        text::option_view(genesis_files@[j]),
                        wanted,
                    ),
            decreases self.nodes.len() - i,
        {
            proof {
                assert(views.take(i + 1).drop_last() =~= views.take(i as int));
                assert(views.take(i + 1).last() == self.nodes@[i as int]@);
                assert(there[i as int] == text::option_view(genesis_files@[i as int]));
            }
            match genesis::inject_app_state(&genesis_files[i], config) {
                Ok(content) => {
                    let ghost before = files@;
                    let file = FileToWrite { path: self.nodes[i].genesis_path(), content };
                    let ghost last = file@;
                    files.push(file);
                    proof {
                        assert(files@.map_values(|f: FileToWrite| f@) =~= before.map_values(
                            |f: FileToWrite| f@,
                        ).push(last));
                        assert forall|j: int| 0 <= j < i + 1 implies
                            #[trigger] genesis::inject_outcome(
                            Ok(files@[j].content),
                            text::option_view(genesis_files@[j]),
                            wanted,
                        ) by {
                            if j < i {
                                assert(genesis::inject_outcome(
                                    Ok(before[j].content),
                                    text::option_view(genesis_files@[j]),
                                    wanted,
                                ));
                            }
                        }
                    }
                },
                Err(e) => {
                    proof {
                        lemma_injected_prefix(views, there, wanted, i + 1);
                    }
                    return (files, Err(e));
                },
            }
            i += 1;
        }
        assert(views.take(views.len() as int) =~= views);
        (files, Ok(()))
    }

    /// The files of the network, once its nodes have their keys, with this genesis file.
    pub fn files(&self, genesis: &str) -> (r: Vec<FileToWrite>)
        ensures
            r@.map_values(|f: FileToWrite| f@) == network_files(self@, genesis@),
    {
        let configs = self.generate_configs();
        let mut files: Vec<FileToWrite> = Vec::new();
        files.push(
            FileToWrite {
                path: node::join_path(self.config.directory.as_str(), "genesis.json"),
                content: genesis.to_string(),
            },
        );
        let ghost expected = network_files(self@, genesis@);
        let ghost n = self.nodes@.len();
        let mut i: usize = 0;
        while i < self.nodes.len()
            invariant
                i <= self.nodes.len(),
                n == self.nodes@.len(),
                expected == network_files(self@, genesis@),
                files@.len() == 1 + i,
                forall|j: int| 0 <= j < 1 + i ==> (#[trigger] files@[j])@ == expected[j],
            decreases self.nodes.len() - i,
        {
            files.push(
                FileToWrite {
                    path: self.nodes[i].genesis_path(),
                    content: genesis.to_string(),
                },
            );
            i += 1;
        }
        let mut i: usize = 0;
        while i < self.nodes.len()
            invariant
                i <= self.nodes.len(),
                n == self.nodes@.len(),
                expected == network_files(self@, genesis@),
                text::text_views(configs@) == self@.nodes.map_values(
                    |m: WebcatNodeView| network::node_config(self@, m),
                ),
                files@.len() == 1 + n + i,
                forall|j: int| 0 <= j < 1 + n + i ==> (#[trigger] files@[j])@ == expected[j],
            decreases self.nodes.len() - i,
        {
            proof {
                assert(text::text_views(configs@).len() == n);
                assert(text::text_views(configs@)[i as int] == network::node_config(
                    self@,
                    self@.nodes[i as int],
                ));
            }
            files.push(
                FileToWrite {
                    path: self.nodes[i].config_toml_path(),
                    content: configs[i].as_str().to_string(),
                },
            );
            i += 1;
        }
        assert(files@.map_values(|f: FileToWrite| f@) =~= expected);
        files
    }
}

} // verus!
