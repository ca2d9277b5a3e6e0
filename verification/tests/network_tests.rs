use felidae::clock::Duration;
use felidae::cometbft::generate_config_toml;
use felidae::crypto::KeyPair;
use felidae::genesis::genesis_at;
use felidae::genesis::inject_app_state;
use felidae::genesis::GenesisError;
use felidae::genesis::InjectError;
use felidae::hexadecimal::HexError;
use felidae::keys::generate_felidae_keys;
use felidae::keys::generate_node_key;
use felidae::keys::generate_priv_validator_key;
use felidae::keys::initial_validator_state;
use felidae::keys::node_key;
use felidae::keys::priv_validator_key;
use felidae::keys::read_key_file;
use felidae::keys::node_key_value;
use felidae::keys::priv_validator_key_value;
use felidae::keys::KeyFileError;
use felidae::keys::KeyOwner;
use felidae::network::check_ports_available;
use felidae::network::default_timeout_commit;
use felidae::network::FelidaeConfigError;
use felidae::network::Network;
use felidae::network::NetworkConfig;
use felidae::network::Platform;
use felidae::node::join_path;
use felidae::node::NodePorts;
use felidae::node::NodeRole;
use felidae::node::PortAllocationStrategy;
use felidae::node::WebcatNode;
use felidae::transaction::Quorum;
use felidae::transaction::Timeout;
use felidae::transaction::Total;
use felidae::transaction::Unsigned;
use p256::elliptic_curve::sec1::ToEncodedPoint;
use pkcs8::DecodePrivateKey;
use pkcs8::EncodePrivateKey;

fn network(num_validators: usize, use_sentries: bool) -> Network {
    Network::new(NetworkConfig {
        chain_id: "felidae-test".to_string(),
        num_validators,
        use_sentries,
        directory: "/net".to_string(),
        ..NetworkConfig::default()
    })
}

fn pkcs8_file(n: u8) -> (String, Vec<u8>) {
    let secret = p256::SecretKey::from_slice(&[n; 32]).unwrap();
    let der = secret.to_pkcs8_der().unwrap();
    let public = secret.public_key().to_encoded_point(false).as_bytes().to_vec();
    (hex::encode(der.as_bytes()), public)
}

#[test]
fn the_default_network() {
    let config = NetworkConfig::default();
    assert_eq!(config.chain_id, "felidae-test");
    assert_eq!(config.num_validators, 1);
    assert!(!config.use_sentries);
    assert_eq!(config.platform, Platform::Local);
    assert_eq!(config.directory, "/tmp/felidae-network");
    assert_eq!(config.timeout_commit, "1s");
    assert_eq!(default_timeout_commit(), "1s");
    assert_eq!(Platform::default(), Platform::Local);
}

#[test]
fn nodes_of_a_network() {
    let net = network(2, true);
    let names: Vec<&str> = net.nodes.iter().map(|n| n.name.as_str()).collect();
    assert_eq!(names, vec!["validator-0", "validator-1", "sentry-0", "sentry-1"]);
    assert_eq!(net.validators().len(), 2);
    assert_eq!(net.sentries()[1].name, "sentry-1");
    assert_eq!(net.sentries()[1].role, NodeRole::Sentry);
    assert!(net.full_nodes().is_empty());
    assert_eq!(net.nodes[1].home_dir, "/net/validator-1");
    assert_eq!(net.nodes[0].node_id, None);
    assert_eq!(net.nodes[0].bind_address, "127.0.0.1");
    assert_eq!(net.nodes[3].ports, net.config.port_strategy.allocate(3));
    assert_eq!(network(3, false).nodes.len(), 3);
    assert!(network(0, true).nodes.is_empty());
}

#[test]
fn ports_are_a_stride_apart() {
    let strategy = PortAllocationStrategy::default();
    let first = strategy.allocate(0);
    assert_eq!(first, strategy.base);
    let second = strategy.allocate(1);
    assert_eq!(second.cometbft_rpc, first.cometbft_rpc + strategy.stride);
    let wrapped = PortAllocationStrategy {
        base: NodePorts { cometbft_p2p: 65535, ..strategy.base },
        stride: 2,
    };
    assert_eq!(wrapped.allocate(1).cometbft_p2p, 1);
    assert_eq!(wrapped.allocate(usize::MAX).cometbft_p2p, 65533);
}

#[test]
fn paths() {
    assert_eq!(join_path("/a", "b"), "/a/b");
    assert_eq!(join_path("/a/", "b"), "/a/b");
    assert_eq!(join_path("", "b"), "b");
    let net = network(1, false);
    let node = &net.nodes[0];
    assert_eq!(node.cometbft_home(), "/net/validator-0/cometbft");
    assert_eq!(node.felidae_home(), "/net/validator-0/felidae");
    assert_eq!(node.cometbft_config_dir(), "/net/validator-0/cometbft/config");
    assert_eq!(node.cometbft_data_dir(), "/net/validator-0/cometbft/data");
    assert_eq!(node.genesis_path(), "/net/validator-0/cometbft/config/genesis.json");
    assert_eq!(node.config_toml_path(), "/net/validator-0/cometbft/config/config.toml");
    assert_eq!(node.node_key_path(), "/net/validator-0/cometbft/config/node_key.json");
    assert_eq!(
        node.priv_validator_key_path(),
        "/net/validator-0/cometbft/config/priv_validator_key.json"
    );
    assert_eq!(
        node.priv_validator_state_path(),
        "/net/validator-0/cometbft/data/priv_validator_state.json"
    );
    assert!(node.admin_key_path().starts_with("/net/validator-0/felidae/"));
    assert!(node.oracle_key_path() != node.admin_key_path());
}

fn plain_node() -> WebcatNode {
    let ports = NodePorts {
        cometbft_p2p: 1,
        cometbft_rpc: 2,
        felidae_abci: 3,
        felidae_query: 4,
        felidae_oracle: 5,
    };
    WebcatNode::new("n".to_string(), NodeRole::Validator, ports, "/h".to_string())
}

#[test]
fn where_a_node_listens() {
    let mut node = plain_node();
    assert_eq!(node.abci_address(), "127.0.0.1:3");
    assert_eq!(node.rpc_listen_address(), "tcp://127.0.0.1:2");
    assert_eq!(node.p2p_listen_address(), "tcp://127.0.0.1:1");
    assert_eq!(node.persistent_peer_address(), None);
    node.node_id = Some("abcd".to_string());
    assert_eq!(node.persistent_peer_address(), Some("abcd@127.0.0.1:1".to_string()));
}

#[test]
fn ports_of_validators_and_others() {
    let mut node = plain_node();
    let mut net = network(0, false);
    net.nodes.push(node.clone());
    node.role = NodeRole::FullNode;
    node.name = "f".to_string();
    net.nodes.push(node);
    let expected: Vec<(u16, String)> = vec![
        (1, "n CometBFT P2P".to_string()),
        (2, "n CometBFT RPC".to_string()),
        (3, "n Felidae ABCI".to_string()),
        (4, "n Felidae Query".to_string()),
        (5, "n Felidae Oracle".to_string()),
        (1, "f CometBFT P2P".to_string()),
        (2, "f CometBFT RPC".to_string()),
        (3, "f Felidae ABCI".to_string()),
        (4, "f Felidae Query".to_string()),
    ];
    assert_eq!(net.collect_required_ports(), expected);
    assert_eq!(net.full_nodes().len(), 1);
}

#[test]
fn ports_that_are_taken() {
    let net = network(1, false);
    let ports = net.collect_required_ports();
    assert_eq!(ports.len(), 5);
    assert_eq!(net.check_ports_available(&vec![None; 5]), Ok(()));
    let mut errors = vec![None; 5];
    errors[1] = Some("in use".to_string());
    errors[4] = Some("denied".to_string());
    let message = net.check_ports_available(&errors).unwrap_err();
    assert_eq!(
        message,
        format!(
            "The following ports are not available:\n  validator-0 CometBFT RPC (port {}): in use\n  validator-0 Felidae Oracle (port {}): denied\n\nhint: Check for other running processes using these ports with:\nlsof -i :<port> or ss -tlnp | grep <port>",
            ports[1].0, ports[4].0
        )
    );
    assert_eq!(check_ports_available(&ports, &errors), Err(message));
    assert_eq!(check_ports_available(&vec![], &vec![]), Ok(()));
}

#[test]
fn peers_are_the_other_nodes() {
    let mut net = network(3, false);
    net.nodes[0].node_id = Some("aa".to_string());
    net.nodes[1].node_id = Some("bb".to_string());
    let configs = net.generate_configs();
    assert_eq!(configs.len(), 3);
    let line = |peers: &str| format!("\npersistent_peers = \"{}\"\n", peers);
    let a = net.nodes[0].persistent_peer_address().unwrap();
    let b = net.nodes[1].persistent_peer_address().unwrap();
    assert!(configs[0].contains(&line(&b)));
    assert!(configs[1].contains(&line(&a)));
    assert!(configs[2].contains(&line(&format!("{},{}", a, b))));
    assert!(configs[0].contains("\ntimeout_commit = \"1s\"\n"));
}

#[test]
fn the_configuration_file_of_a_node() {
    let config = generate_config_toml(&plain_node(), "p1,p2", "3s");
    assert!(config.starts_with("# This is a TOML config file.\n"));
    assert!(config.contains("\nproxy_app = \"tcp://127.0.0.1:3\"\nmoniker = \"n\"\nfast_sync"));
    assert!(config.contains("[rpc]\nladdr = \"tcp://127.0.0.1:2\"\ncors_allowed_origins = []\n"));
    assert!(config.contains("[p2p]\nladdr = \"tcp://127.0.0.1:1\"\nexternal_address = \"\"\n"));
    assert!(config.contains("persistent_peers = \"p1,p2\"\nupnp = false\n"));
    assert!(config.contains("timeout_commit = \"3s\"\ndouble_sign_check_height = 0\n"));
    assert!(config.ends_with("max_open_connections = 3\nnamespace = \"cometbft\"\n"));
}

#[test]
fn processes_of_a_network() {
    let mut net = network(0, false);
    net.nodes.push(plain_node());
    let file = net.generate_process_compose_config("felidae", Some("/src"));
    let expected = "version: \"0.5\"

# Process-compose configuration for felidae network
# Generated by felidae-deployer

log_level: info

processes:
  n-cometbft:
    command: cometbft start --home /h/cometbft
    availability:
      restart: on_failure
      max_restarts: 3

  n-felidae:
    command: felidae start --abci-bind 127.0.0.1:3 --query-bind 127.0.0.1:4 --homedir /h/felidae
    working_dir: /src
    depends_on:
      n-cometbft:
        condition: process_started
    availability:
      restart: on_failure
      max_restarts: 3

  n-oracle:
    command: felidae oracle server --bind 127.0.0.1:5 --node http://127.0.0.1:2 --homedir /h/felidae
    working_dir: /src
    depends_on:
      n-felidae:
        condition: process_started
    availability:
      restart: on_failure
      max_restarts: 3
";
    assert_eq!(file, expected);
    net.nodes[0].role = NodeRole::Sentry;
    let file = net.generate_process_compose_config("cargo run --", None);
    assert!(!file.contains("oracle"));
    assert!(!file.contains("working_dir"));
    assert!(file.contains("command: cargo run -- start --abci-bind"));
}

#[test]
fn a_working_directory_adds_its_line_only() {
    let net = network(2, true);
    let a = net.generate_process_compose_config("felidae", None);
    let b = net.generate_process_compose_config("felidae", Some("/src"));
    assert!(!a.lines().any(|l| l.starts_with("    working_dir:")));
    let set = b.lines().filter(|l| l.starts_with("    working_dir:")).count();
    assert_eq!(set, net.nodes.len() + net.validators().len());
    let rest: Vec<&str> =
        b.split('\n').filter(|l| !l.starts_with("    working_dir:")).collect();
    assert_eq!(rest.join("\n"), a);
    for section in b.split("\n\n").skip(3) {
        let lines = section.lines().filter(|l| l.starts_with("    working_dir:")).count();
        assert_eq!(lines, usize::from(!section.contains("-cometbft:\n    command")));
    }
}

#[test]
fn processes_of_no_nodes() {
    let file = network(0, false).generate_process_compose_config("felidae", Some("/src"));
    assert!(file.ends_with("\nprocesses:\n\n"));
}

#[test]
fn a_node_key() {
    // The first test vector of RFC 8032.
    let secret = hex::decode("9d61b19deffd5a60ba844af492ec2cc44449c5697b326919703bac031cae7f60");
    let secret: [u8; 32] = secret.unwrap().try_into().unwrap();
    let public =
        hex::decode("d75a980182b10ab7d54bfed3c964073a0ee172f3daa62325af021a68f707511a").unwrap();
    let hash = <sha2::Sha256 as sha2::Digest>::digest(&public);
    let mut full = secret.to_vec();
    full.extend(&public);
    let engine = base64::engine::general_purpose::STANDARD;
    let (file, id) = node_key(&secret).unwrap();
    assert_eq!(id, hex::encode(&hash[..20]));
    assert_eq!(
        file,
        format!(
            "{{\n  \"priv_key\": {{\n    \"type\": \"tendermint/PrivKeyEd25519\",\n    \"value\": \"{}\"\n  }}\n}}",
            base64::Engine::encode(&engine, &full)
        )
    );
    let file = priv_validator_key(&secret).unwrap();
    let value: serde_json::Value = serde_json::from_str(&file).unwrap();
    assert_eq!(value["address"], hex::encode_upper(&hash[..20]));
    assert_eq!(value["pub_key"]["type"], "tendermint/PubKeyEd25519");
    assert_eq!(value["pub_key"]["value"], base64::Engine::encode(&engine, &public));
    assert_eq!(value["priv_key"]["value"], base64::Engine::encode(&engine, &full));
    assert_eq!(serde_json::to_string_pretty(&value).unwrap(), file);
}

#[test]
fn new_keys_differ() {
    let (file, id) = generate_node_key().unwrap();
    assert_eq!(id.len(), 40);
    assert!(id.chars().all(|c| c.is_ascii_digit() || ('a'..='f').contains(&c)));
    assert!(file.contains("tendermint/PrivKeyEd25519"));
    assert!(generate_node_key().unwrap().1 != id);
    assert!(generate_priv_validator_key().unwrap() != generate_priv_validator_key().unwrap());
    assert_eq!(
        initial_validator_state(),
        "{\n  \"height\": \"0\",\n  \"round\": 0,\n  \"step\": 0\n}"
    );
}

#[test]
fn key_files() {
    let (file, public) = pkcs8_file(7);
    assert_eq!(read_key_file(&file), Ok(public.clone()));
    assert_eq!(public.len(), 65);
    assert_eq!(read_key_file(&format!(" {}\n", file)), Ok(public.clone()));
    assert_eq!(
        read_key_file("abc"),
        Err(KeyFileError::NotHex(HexError::OddLength))
    );
    assert_eq!(
        read_key_file("ab cd"),
        Err(KeyFileError::NotHex(HexError::OddLength))
    );
    assert_eq!(
        read_key_file("abx0"),
        Err(KeyFileError::NotHex(HexError::InvalidHexCharacter { c: 'x', index: 2 }))
    );
    assert_eq!(read_key_file("abcd"), Err(KeyFileError::NotPkcs8));
    let pair = KeyPair::decode(&hex::decode(&file).unwrap()).unwrap();
    assert_eq!(pair.public_key(), public);
    assert_eq!(Unsigned::from(pair), Unsigned { public_key: public });
    assert_eq!(KeyPair::decode(&[]), None);
}

#[test]
fn new_keys_are_read_back() {
    let keys = generate_felidae_keys().unwrap();
    assert!(keys.admin != keys.oracle);
    let der = hex::decode(&keys.admin).unwrap();
    let secret = p256::SecretKey::from_pkcs8_der(&der).unwrap();
    let public = secret.public_key().to_encoded_point(false).as_bytes().to_vec();
    assert_eq!(read_key_file(&keys.admin), Ok(public));
    let net = network(1, false);
    let config = net.generate_felidae_config(
        &vec![Some(keys.oracle)],
        &vec![Some(keys.admin)],
        Duration::from_secs(1),
        Duration::from_secs(0),
    );
    assert!(config.is_ok());
}

#[test]
fn the_first_configuration_of_a_network() {
    let net = network(3, true);
    let files: Vec<(String, Vec<u8>)> = (1..=6).map(pkcs8_file).collect();
    let oracles: Vec<Option<String>> = files[..3].iter().map(|f| Some(f.0.clone())).collect();
    let admins: Vec<Option<String>> = files[3..].iter().map(|f| Some(f.0.clone())).collect();
    let delay = Duration { secs: 1, nanos: 5 };
    let config = net
        .generate_felidae_config(&oracles, &admins, delay, Duration::from_secs(9))
        .unwrap();
    assert_eq!(config.version, 0);
    assert_eq!(config.admins.voting.total, Total(3));
    assert_eq!(config.admins.voting.quorum, Quorum(3));
    assert_eq!(config.admins.voting.timeout, Timeout(Duration::from_secs(60)));
    assert_eq!(config.admins.voting.delay.0, Duration::from_secs(9));
    assert_eq!(config.oracles.voting.quorum, Quorum(3));
    assert_eq!(config.oracles.voting.timeout, Timeout(Duration::from_secs(300)));
    assert_eq!(config.oracles.voting.delay.0, delay);
    assert_eq!(config.oracles.max_enrolled_subdomains, 5);
    assert_eq!(config.oracles.observation_timeout, Duration::from_secs(300));
    assert!(config.oracles.enabled);
    assert!(!config.onion.enabled);
    assert!(config.validators.is_empty());
    for i in 0..3 {
        assert_eq!(config.oracles.authorized[i].identity, files[i].1);
        assert_eq!(
            config.oracles.authorized[i].endpoint,
            format!("127.0.0.1:{}", net.nodes[i].ports.felidae_oracle)
        );
        assert_eq!(config.admins.authorized[i].identity, files[3 + i].1);
    }
}

#[test]
fn quorums() {
    for (n, quorum) in [(1usize, 1u64), (2, 2), (4, 3), (5, 4), (6, 5), (7, 5)] {
        let files: Vec<Option<String>> =
            (0..n).map(|i| Some(pkcs8_file(i as u8 + 1).0)).collect();
        let none = Duration::from_secs(0);
        let config = network(n, false)
            .generate_felidae_config(&files, &files, none, none)
            .unwrap();
        assert_eq!(config.admins.voting.quorum, Quorum(quorum));
    }
}

#[test]
fn key_files_that_cannot_be_read() {
    let net = network(1, false);
    let good = pkcs8_file(1).0;
    let none = Duration::from_secs(0);
    let refused = |oracle: &str, admin: &str| {
        let oracles = vec![Some(oracle.to_string())];
        let admins = vec![Some(admin.to_string())];
        net.generate_felidae_config(&oracles, &admins, none, none).unwrap_err()
    };
    let e = refused("x", "x");
    assert_eq!(
        e,
        FelidaeConfigError {
            owner: KeyOwner::Oracle,
            error: KeyFileError::NotHex(HexError::OddLength)
        }
    );
    assert_eq!(e.message(), "failed to decode oracle key hex");
    assert_eq!(e.cause(), Some("Odd number of digits".to_string()));
    assert_eq!(refused("00", "x").cause(), None);
    assert_eq!(refused("00", "x").message(), "failed to decode oracle key PKCS#8");
    assert_eq!(refused(&good, "x").message(), "failed to decode admin key hex");
    assert_eq!(refused(&good, "00").message(), "failed to decode admin key PKCS#8");
}

#[test]
fn the_first_key_file_that_is_missing_or_bad_is_the_error() {
    let net = network(2, false);
    let good = || Some(pkcs8_file(1).0);
    let none = Duration::from_secs(0);
    let refused = |oracles: Vec<Option<String>>, admins: Vec<Option<String>>| {
        net.generate_felidae_config(&oracles, &admins, none, none).unwrap_err()
    };
    let missing = |owner| FelidaeConfigError { owner, error: KeyFileError::NotRead };
    let both = || vec![good(), good()];
    assert_eq!(refused(vec![good(), None], both()), missing(KeyOwner::Oracle));
    assert_eq!(refused(both(), vec![None, good()]), missing(KeyOwner::Admin));
    assert_eq!(missing(KeyOwner::Oracle).message(), "failed to read oracle key");
    assert_eq!(missing(KeyOwner::Admin).message(), "failed to read admin key");
    let bad_first = refused(vec![Some("00".to_string()), None], both());
    assert_eq!(bad_first.error, KeyFileError::NotPkcs8);
    assert_eq!(
        genesis_at("t", "c", &vec![Some("{".to_string()), None]),
        genesis_at("t", "c", &vec![Some("{".to_string())])
    );
    assert_eq!(
        genesis_at("t", "c", &vec![Some("{}".to_string()), None]),
        Err(GenesisError::NotRead)
    );
}

#[test]
fn what_a_key_file_holds_is_not_read_again() {
    let nested = |depth: usize| {
        format!("{{\"address\": {}{}}}", "[".repeat(depth), "]".repeat(depth))
    };
    let genesis = genesis_at("t", "c", &vec![Some(nested(126))]).unwrap();
    assert_eq!(genesis.matches('[').count(), 126 + 2);
    assert!(matches!(
        genesis_at("t", "c", &vec![Some(nested(127))]),
        Err(GenesisError::NotJson(_))
    ));
    let fraction = "{\"address\": 0.1}".to_string();
    let genesis = genesis_at("t", "c", &vec![Some(fraction)]).unwrap();
    assert!(genesis.contains("\"address\": 0.1,"));
}

#[test]
fn the_genesis_file() {
    let key = priv_validator_key(&[1; 32]).unwrap();
    let files = vec![Some(key.clone()), Some("{\"address\": 5}".to_string())];
    let genesis = genesis_at("2024-01-31T12:00:00.000000000Z", "a \"chain\"", &files).unwrap();
    let value: serde_json::Value = serde_json::from_str(&genesis).unwrap();
    let key: serde_json::Value = serde_json::from_str(&key).unwrap();
    assert_eq!(value["genesis_time"], "2024-01-31T12:00:00.000000000Z");
    assert_eq!(value["chain_id"], "a \"chain\"");
    assert_eq!(value["initial_height"], "1");
    assert_eq!(value["app_hash"], "");
    assert_eq!(value["consensus_params"]["block"]["max_bytes"], "22020096");
    assert_eq!(value["consensus_params"]["block"]["max_gas"], "-1");
    assert_eq!(value["consensus_params"]["block"]["time_iota_ms"], "1000");
    assert_eq!(value["consensus_params"]["evidence"]["max_age_num_blocks"], "100000");
    assert_eq!(value["consensus_params"]["evidence"]["max_age_duration"], "172800000000000");
    assert_eq!(value["consensus_params"]["evidence"]["max_bytes"], "1048576");
    assert_eq!(value["consensus_params"]["validator"]["pub_key_types"][0], "ed25519");
    assert!(value["consensus_params"]["version"].as_object().unwrap().is_empty());
    assert_eq!(value["validators"].as_array().unwrap().len(), 2);
    assert_eq!(value["validators"][0]["address"], key["address"]);
    assert_eq!(value["validators"][0]["pub_key"], key["pub_key"]);
    assert_eq!(value["validators"][0]["power"], "10");
    assert_eq!(value["validators"][0]["name"], "validator-0");
    assert_eq!(value["validators"][1]["address"], 5);
    assert!(value["validators"][1]["pub_key"].is_null());
    assert_eq!(value["validators"][1]["name"], "validator-1");
    assert_eq!(serde_json::to_string_pretty(&value).unwrap(), genesis);
}

#[test]
fn a_genesis_file_for_now() {
    let net = network(1, false);
    let genesis = net.generate_genesis(&vec![Some("{}".to_string())]).unwrap();
    let value: serde_json::Value = serde_json::from_str(&genesis).unwrap();
    let time = value["genesis_time"].as_str().unwrap();
    assert_eq!(time.len(), "2024-01-31T12:00:00.000000000Z".len());
    assert!(time.starts_with("20") && time.ends_with('Z'));
    assert_eq!(value["chain_id"], "felidae-test");
    assert!(net.generate_genesis(&vec![Some("{".to_string())]).is_err());
    assert_eq!(net.generate_genesis(&vec![None]), Err(GenesisError::NotRead));
}

#[test]
fn an_application_state_is_put_into_genesis() {
    let genesis = genesis_at("t", "c", &vec![]).unwrap();
    let read = |text: &str| -> serde_json::Value { serde_json::from_str(text).unwrap() };
    let inject = |file: &str, config: &str| inject_app_state(&Some(file.to_string()), &read(config));
    let with = inject(&genesis, "{\"version\":0}").unwrap();
    assert_eq!(read(&with)["app_state"]["config"]["version"], 0);
    assert_eq!(read(&with)["chain_id"], "c");
    let again = inject(&with, "{\"version\":1}").unwrap();
    assert_eq!(read(&again)["app_state"]["config"]["version"], 1);
    assert_eq!(read(&again)["consensus_params"], read(&genesis)["consensus_params"]);
    assert_eq!(inject(&again, "{\"version\":1}"), Ok(again.clone()));
    assert_eq!(
        inject("null", "1"),
        Ok("{\n  \"app_state\": {\n    \"config\": 1\n  }\n}".to_string())
    );
    assert_eq!(
        inject("{\"app_state\": 7, \"b\": \"\\u0001\\n\\\"\"}", "{}"),
        Ok("{\n  \"app_state\": {\n    \"config\": {}\n  },\n  \"b\": \"\\u0001\\n\\\"\"\n}".to_string())
    );
    assert!(matches!(inject("{", "1"), Err(InjectError::NotJson(_))));
    assert_eq!(inject("[]", "1"), Err(InjectError::NotObject));
    assert_eq!(inject_app_state(&None, &read("1")), Err(InjectError::NotRead));
}

#[test]
fn every_node_is_given_the_configuration() {
    let net = network(3, false);
    let config = serde_json::Value::Null;
    let there = || Some("{}".to_string());
    let (files, outcome) =
        net.inject_genesis_app_state(&vec![there(), there(), there()], &config);
    assert_eq!(outcome, Ok(()));
    let paths: Vec<String> = files.iter().map(|f| f.path.clone()).collect();
    let expected: Vec<String> = net.nodes.iter().map(|n| n.genesis_path()).collect();
    assert_eq!(paths, expected);
    assert!(files.iter().all(|f| f.content == files[0].content));
    assert_eq!(files[0].content, "{\n  \"app_state\": {\n    \"config\": null\n  }\n}");
    let (files, outcome) = net.inject_genesis_app_state(&vec![there(), None, there()], &config);
    assert_eq!(files.len(), 1);
    assert_eq!(outcome, Err(InjectError::NotRead));
}

#[test]
fn key_files_on_one_line() {
    assert_eq!(
        node_key_value(&[0; 32], &[0xff; 32]).to_string(),
        format!(
            "{{\"priv_key\":{{\"type\":\"tendermint/PrivKeyEd25519\",\"value\":\"{}D{}w==\"}}}}",
            "A".repeat(42),
            "/".repeat(42)
        )
    );
    let file = priv_validator_key_value(&[0; 32], &[0; 32], &[0xab, 0x0c]).to_string();
    assert!(file.starts_with("{\"address\":\"AB0C\",\"priv_key\":{\"type\":"));
}

#[test]
fn a_configuration_from_public_keys() {
    let net = network(2, false);
    let none = Duration::from_secs(0);
    let config = net.first_config(vec![vec![1], vec![2]], vec![vec![3]], none, none);
    assert_eq!(config.oracles.authorized[1].identity, vec![2]);
    assert_eq!(
        config.oracles.authorized[1].endpoint,
        format!("127.0.0.1:{}", net.nodes[1].ports.felidae_oracle)
    );
    assert_eq!(config.admins.authorized.len(), 1);
    assert_eq!(config.admins.voting.total, Total(2));
    assert_eq!(config.admins.voting.quorum, Quorum(2));
}

#[test]
fn a_new_network_takes_its_first_configuration() {
    let net = network(2, true);
    let secrets = [[1u8; 32], [2u8; 32]];
    let key_files: Vec<Option<String>> =
        secrets.iter().map(|s| Some(priv_validator_key(s).unwrap())).collect();
    let genesis = net.generate_genesis(&key_files).unwrap();
    let config = serde_json::Value::from("c");
    let genesis_files = vec![Some(genesis.clone()); net.nodes.len()];
    let (files, outcome) = net.inject_genesis_app_state(&genesis_files, &config);
    assert_eq!(outcome, Ok(()));
    assert_eq!(files.len(), net.nodes.len());
    let mut before: serde_json::Value = serde_json::from_str(&genesis).unwrap();
    for (i, key_file) in key_files.iter().enumerate() {
        let key: serde_json::Value = serde_json::from_str(key_file.as_ref().unwrap()).unwrap();
        assert_eq!(before["validators"][i]["address"], key["address"]);
        assert_eq!(before["validators"][i]["pub_key"], key["pub_key"]);
    }
    before["app_state"]["config"] = config;
    for file in files {
        let after: serde_json::Value = serde_json::from_str(&file.content).unwrap();
        assert_eq!(after, before);
    }
}
