use felidae::deployment::assemble_node_keys;
use felidae::deployment::generate_node_keys;
use felidae::deployment::initialize_node;
use felidae::deployment::node_directories;
use felidae::deployment::FileToWrite;
use felidae::deployment::NodeKeys;
use felidae::deployment::NodeKeysError;
use felidae::deployment::ValidatorKeys;
use felidae::keys::felidae_keys;
use felidae::keys::read_key_file;
use felidae::keys::FelidaeKeys;
use felidae::keys::KeyOwner;
use felidae::network::Network;
use felidae::network::NetworkConfig;
use felidae::node::NodeRole;

fn network(num_validators: usize) -> Network {
    Network::new(NetworkConfig {
        num_validators,
        directory: "/net".to_string(),
        ..NetworkConfig::default()
    })
}

fn some_keys() -> FelidaeKeys {
    FelidaeKeys { admin: "aa".to_string(), oracle: "bb".to_string() }
}

fn file(path: String, content: &str) -> FileToWrite {
    FileToWrite { path, content: content.to_string() }
}

#[test]
fn keys_in_hexadecimal() {
    assert_eq!(
        felidae_keys(Some(vec![0xAB, 1]), Some(vec![])),
        Ok(FelidaeKeys { admin: "ab01".to_string(), oracle: String::new() })
    );
    assert_eq!(felidae_keys(None, None), Err(KeyOwner::Admin));
    assert_eq!(felidae_keys(Some(vec![]), None), Err(KeyOwner::Oracle));
}

#[test]
fn keys_of_each_role() {
    let own = || Ok(("key".to_string(), "id".to_string()));
    let signing = || Ok("sign".to_string());
    let bare = NodeKeys {
        node_key: "key".to_string(),
        node_id: "id".to_string(),
        validator: None,
    };
    for role in [NodeRole::Sentry, NodeRole::FullNode] {
        let made = assemble_node_keys(role, own(), Err("x".to_string()), Err(KeyOwner::Admin));
        assert_eq!(made, Ok(bare.clone()));
    }
    let made = assemble_node_keys(NodeRole::Validator, own(), signing(), Ok(some_keys()));
    let full = NodeKeys {
        validator: Some(ValidatorKeys {
            priv_validator_key: "sign".to_string(),
            felidae: some_keys(),
        }),
        ..bare
    };
    assert_eq!(made, Ok(full));
}

#[test]
fn the_first_key_that_cannot_be_made_is_the_error() {
    let role = NodeRole::Validator;
    let own = || Ok(("key".to_string(), "id".to_string()));
    let json = |e: &str| NodeKeysError::Json(e.to_string());
    let bad = || Err("b".to_string());
    let made = assemble_node_keys(role, Err("a".to_string()), bad(), Err(KeyOwner::Admin));
    assert_eq!(made, Err(json("a")));
    assert_eq!(assemble_node_keys(role, own(), bad(), Err(KeyOwner::Admin)), Err(json("b")));
    let e = assemble_node_keys(role, own(), Ok(String::new()), Err(KeyOwner::Admin)).unwrap_err();
    assert_eq!(e, NodeKeysError::Pkcs8(KeyOwner::Admin));
    assert_eq!(e.message(), "failed to encode admin key to PKCS#8");
    assert_eq!(
        NodeKeysError::Pkcs8(KeyOwner::Oracle).message(),
        "failed to encode oracle key to PKCS#8"
    );
    assert_eq!(json("b").message(), "b");
}

#[test]
fn new_keys_for_a_node() {
    let made = generate_node_keys(NodeRole::Validator).unwrap();
    assert_eq!(made.node_id.len(), 40);
    let validator = made.validator.unwrap();
    assert!(read_key_file(&validator.felidae.admin).is_ok());
    assert!(read_key_file(&validator.felidae.oracle).is_ok());
    assert!(validator.priv_validator_key.contains("tendermint/PubKeyEd25519"));
    assert_eq!(generate_node_keys(NodeRole::Sentry).unwrap().validator, None);
}

#[test]
fn directories_of_a_node() {
    let net = network(1);
    assert_eq!(
        node_directories(&net.nodes[0]),
        vec![
            "/net/validator-0/cometbft/config".to_string(),
            "/net/validator-0/cometbft/data".to_string(),
            "/net/validator-0/felidae".to_string(),
        ]
    );
}

#[test]
fn files_of_a_node() {
    let mut net = network(1);
    let mut node = net.nodes.remove(0);
    let made = NodeKeys {
        node_key: "key".to_string(),
        node_id: "id".to_string(),
        validator: Some(ValidatorKeys {
            priv_validator_key: "sign".to_string(),
            felidae: some_keys(),
        }),
    };
    let files = initialize_node(&mut node, made.clone());
    assert_eq!(node.node_id, Some("id".to_string()));
    assert_eq!(node.name, "validator-0");
    let state = "{\n  \"height\": \"0\",\n  \"round\": 0,\n  \"step\": 0\n}";
    assert_eq!(
        files,
        vec![
            file(node.node_key_path(), "key"),
            file(node.priv_validator_key_path(), "sign"),
            file(node.priv_validator_state_path(), state),
            file(node.admin_key_path(), "aa"),
            file(node.oracle_key_path(), "bb"),
        ]
    );
    let files = initialize_node(&mut node, NodeKeys { validator: None, ..made });
    assert_eq!(files, vec![file(node.node_key_path(), "key")]);
}

#[test]
fn files_of_a_network() {
    let mut net = network(2);
    net.nodes[0].node_id = Some("aa".to_string());
    let configs = net.generate_configs();
    assert_eq!(
        net.files("genesis"),
        vec![
            file("/net/genesis.json".to_string(), "genesis"),
            file(net.nodes[0].genesis_path(), "genesis"),
            file(net.nodes[1].genesis_path(), "genesis"),
            file(net.nodes[0].config_toml_path(), &configs[0]),
            file(net.nodes[1].config_toml_path(), &configs[1]),
        ]
    );
}
