use felidae::clock::Duration;
use felidae::clock::Time;
use felidae::crypto::key_address;
use felidae::crypto::PublicKey;
use felidae::domain::Domain;
use felidae::domain::Fqdn;
use felidae::domain::PrefixOrderDomain;
use felidae::domain::Zone;
use felidae::hexadecimal::HexError;
use felidae::state::finalize_block::tx_result;
use felidae::state::finalize_block::BlockIdFlag;
use felidae::state::finalize_block::BlockSignatureInfo;
use felidae::state::finalize_block::FinalizeBlock;
use felidae::state::finalize_block::Misbehavior;
use felidae::state::finalize_block::VoteInfo;
use felidae::state::init_chain::default_config;
use felidae::state::init_chain::genesis_config_value;
use felidae::state::init_chain::InitChain;
use felidae::state::validator::select_by_address;
use felidae::state::validator::Update;
use felidae::state::State;
use felidae::state::StateError;
use felidae::table::Table;
use felidae::transaction::Admin;
use felidae::transaction::AdminConfig;
use felidae::transaction::Config;
use felidae::transaction::Delay;
use felidae::transaction::HashObserved;
use felidae::transaction::OnionConfig;
use felidae::transaction::Oracle;
use felidae::transaction::OracleConfig;
use felidae::transaction::OracleVoteValue;
use felidae::transaction::Quorum;
use felidae::transaction::Timeout;
use felidae::transaction::Total;
use felidae::transaction::Validator;
use felidae::transaction::VotingConfig;
use prost::Message;
use sha2::Digest;

fn voting(total: u64, quorum: u64) -> VotingConfig {
    VotingConfig {
        total: Total(total),
        quorum: Quorum(quorum),
        timeout: Timeout(Duration::from_secs(3600)),
        delay: Delay(Duration::from_secs(0)),
    }
}

fn config(version: u32, validators: Vec<Validator>) -> Config {
    Config {
        version,
        admins: AdminConfig {
            voting: voting(1, 1),
            authorized: vec![Admin { identity: vec![0xab; 64] }],
        },
        oracles: OracleConfig {
            enabled: true,
            voting: voting(1, 1),
            max_enrolled_subdomains: 5,
            observation_timeout: Duration::from_secs(300),
            authorized: vec![Oracle {
                identity: vec![1u8; 64],
                endpoint: "127.0.0.1".to_string(),
            }],
        },
        onion: OnionConfig { enabled: false },
        validators,
    }
}

fn key(n: u8) -> PublicKey {
    PublicKey { bytes: [n; 32] }
}

fn update(n: u8, power: u64) -> Update {
    Update { pub_key: key(n), power }
}

fn validator(n: u8, power: u64) -> Validator {
    Validator { public_key: vec![n; 32], power }
}

fn address(n: u8) -> [u8; 20] {
    key_address(&[n; 32]).try_into().unwrap()
}

fn request(validators: Vec<Update>, app_state: &str) -> InitChain {
    InitChain {
        time: Time { seconds: 1_700_000_000, nanos: 0 },
        chain_id: "felidae-test".to_string(),
        consensus_params: vec![],
        validators,
        app_state_bytes: app_state.as_bytes().to_vec(),
        initial_height: 1,
    }
}

fn block(height: u64) -> FinalizeBlock {
    FinalizeBlock {
        votes: vec![],
        misbehavior: vec![],
        height,
        time: Time { seconds: 1_700_000_000 + height as i64, nanos: 0 },
    }
}

fn started(validators: Vec<Update>) -> State {
    let mut state = State::new();
    state.init_chain(request(validators, ""), Err("unused".to_string())).unwrap();
    state
}

#[test]
fn a_new_state_has_no_configuration() {
    let state = State::new();
    assert_eq!(state.config().unwrap_err(), StateError::ConfigNotFound);
    assert_eq!(
        state.check_config(&config(1, vec![])).unwrap_err().message(),
        "config not found in state; is the state initialized?"
    );
    assert!(state.active_validators().unwrap().is_empty());
}

fn with_config(c: Config) -> State {
    let mut state = State::new();
    state.set_config(c);
    state
}

#[test]
fn a_configuration_is_kept_as_its_message_keeps_it() {
    let mut c = config(3, vec![validator(1, u64::MAX)]);
    c.admins.voting.timeout = Timeout(Duration { secs: 7, nanos: 999_999_999 });
    c.admins.voting.delay = Delay(Duration { secs: u64::MAX, nanos: 1 });
    c.oracles.voting.total = Total(u64::MAX);
    c.oracles.voting.quorum = Quorum(i64::MAX as u64);
    c.oracles.max_enrolled_subdomains = u64::MAX;
    c.oracles.observation_timeout = Duration { secs: 1, nanos: 500_000_000 };
    c.oracles.authorized[0].endpoint = String::new();
    let state = with_config(c.clone());
    let greatest = i64::MAX as u64;
    c.validators[0].power = greatest;
    c.admins.voting.timeout = Timeout(Duration::from_secs(7));
    c.admins.voting.delay = Delay(Duration::from_secs(greatest));
    c.oracles.voting.total = Total(greatest);
    c.oracles.max_enrolled_subdomains = greatest;
    c.oracles.observation_timeout = Duration::from_secs(1);
    c.oracles.authorized[0].endpoint = "127.0.0.1".to_string();
    assert_eq!(state.config().unwrap(), &c);
    let state = with_config(c.clone());
    assert_eq!(state.config().unwrap(), &c);

    let mut state = started(vec![]);
    let mut new = config(1, vec![]);
    new.admins.voting.delay = Delay(Duration { secs: 2, nanos: 5 });
    state.finalize_block(&block(1), vec![], vec![new], vec![]).unwrap();
    assert_eq!(state.config().unwrap().admins.voting.delay.0, Duration::from_secs(2));
}

#[test]
fn a_good_configuration_is_accepted() {
    let state = with_config(config(1, vec![]));
    assert_eq!(state.check_config(&config(2, vec![validator(1, 4_294_967_295)])), Ok(()));
    assert_eq!(state.config().unwrap().version, 1);
}

#[test]
fn configurations_that_are_refused() {
    let state = with_config(config(3, vec![]));
    let refused = |c: Config| state.check_config(&c).unwrap_err();
    let e = refused(config(3, vec![]));
    assert_eq!(e, StateError::VersionNotGreater { version: 3, current: 3 });
    assert_eq!(
        e.message(),
        "new config version 3 must be greater than current version 3"
    );

    let mut c = config(4, vec![]);
    c.admins.voting.total = Total(2);
    c.oracles.voting.total = Total(7);
    let e = refused(c);
    assert_eq!(e, StateError::TotalMismatch { total: 2, expected: 1 });
    assert_eq!(e.message(), "voting config total 2 does not match expected total 1");

    let mut c = config(4, vec![]);
    c.oracles.voting.total = Total(7);
    assert_eq!(refused(c), StateError::TotalMismatch { total: 7, expected: 1 });

    let mut c = config(4, vec![]);
    c.admins.voting.quorum = Quorum(0);
    let e = refused(c);
    assert_eq!(e, StateError::QuorumZero);
    assert_eq!(e.message(), "voting config quorum must be non-zero");

    let mut c = config(4, vec![]);
    c.oracles.voting.quorum = Quorum(2);
    let e = refused(c);
    assert_eq!(e, StateError::QuorumAboveTotal { quorum: 2, total: 1 });
    assert_eq!(e.message(), "voting config quorum 2 cannot be greater than total 1");

    let mut c = config(4, vec![]);
    c.oracles.max_enrolled_subdomains = 0;
    let e = refused(c);
    assert_eq!(e, StateError::SubdomainsZero);
    assert_eq!(e.message(), "max_enrolled_subdomains must be non-zero");

    let mut c = config(4, vec![]);
    c.oracles.max_enrolled_subdomains = 4;
    let e = refused(c);
    assert_eq!(e, StateError::SubdomainsDecrease);
    assert_eq!(e.message(), "max_enrolled_subdomains cannot decrease");

    let mut c = config(4, vec![]);
    c.admins.authorized.push(Admin { identity: vec![0; 64] });
    c.admins.voting = voting(2, 1);
    let e = refused(c);
    assert_eq!(e, StateError::AdminPlaceholder { index: 1 });
    assert_eq!(
        e.message(),
        "admin at index 1 has an all-zero identity (placeholder not replaced)"
    );

    let mut c = config(4, vec![]);
    c.oracles.authorized[0].identity = vec![];
    let e = refused(c);
    assert_eq!(e, StateError::OraclePlaceholder { index: 0 });
    assert_eq!(
        e.message(),
        "oracle at index 0 has an all-zero identity (placeholder not replaced)"
    );

    let e = refused(config(4, vec![validator(1, 1), validator(0, 4_294_967_296)]));
    assert_eq!(e, StateError::ValidatorPower { index: 1, power: 4_294_967_296 });
    assert_eq!(
        e.message(),
        "validator at index 1 has power 4294967296 which exceeds maximum 4294967295"
    );

    let e = refused(config(4, vec![validator(0, 1)]));
    assert_eq!(e, StateError::ValidatorPlaceholder { index: 0 });
    assert_eq!(
        e.message(),
        "validator at index 0 has an all-zero public key (placeholder not replaced)"
    );
}

#[test]
fn the_template_is_refused() {
    let state = with_config(config(1, vec![]));
    let template = Config::template(2);
    assert_eq!(template.version, 2);
    assert_eq!(template.admins.authorized[0].identity, vec![0u8; 64]);
    assert_eq!(
        state.check_config(&template),
        Err(StateError::TotalMismatch { total: 0, expected: 1 })
    );
}

#[test]
fn a_validator_is_declared_once() {
    let mut state = State::new();
    assert_eq!(state.declare_validator(update(2, 5)), Ok(()));
    assert_eq!(state.declare_validator(update(1, 7)), Ok(()));
    let e = state.declare_validator(update(2, 9)).unwrap_err();
    assert_eq!(e, StateError::ValidatorExists { public_key: key(2), power: 5 });
    assert_eq!(
        e.message(),
        format!("validator {} already exists with power 5", "02".repeat(32))
    );
    assert_eq!(state.active_validators().unwrap(), vec![update(1, 7), update(2, 5)]);
}

#[test]
fn validators_stand_under_their_keys() {
    let mut state = State::new();
    state.declare_validator(update(0xab, 5)).unwrap();
    let name = "current/validators/".to_string() + &"ab".repeat(32);
    assert_eq!(state.validators().get(name.as_bytes()), Some(5));
    assert_eq!(state.validators().len(), 1);
}

#[test]
fn keys_in_the_state_that_cannot_be_read() {
    let stored = |key: &[u8], power: u64| {
        let mut table = Table::new();
        table.put(key.to_vec(), power);
        State::new().with_stored_validators(table)
    };
    let state = stored(b"current/validators/abc", 1);
    let e = state.active_validators().unwrap_err();
    assert_eq!(e, StateError::KeyNotHex { cause: HexError::OddLength });
    assert_eq!(e.message(), "Odd number of digits");

    let state = stored(b"current/validators/zz", 0);
    let e = state.active_validators().unwrap_err();
    assert_eq!(
        e,
        StateError::KeyNotHex { cause: HexError::InvalidHexCharacter { c: 'z', index: 0 } }
    );
    assert_eq!(e.message(), "Invalid character 'z' at position 0");

    let mut state = stored(b"current/validators/abcd", 0);
    assert_eq!(state.active_validators(), Ok(vec![]));
    assert_eq!(
        state.sync_validators_from_config(&vec![validator(1, 1)]),
        Err(StateError::InvalidPublicKey)
    );
    let state = stored(b"current/validators/abcd", 1);
    let e = state.active_validators().unwrap_err();
    assert_eq!(e, StateError::InvalidPublicKey);
    assert_eq!(e.message(), "invalid ed25519 public key");
}

#[test]
fn taking_over_validators() {
    let mut state = started(vec![update(1, 10), update(2, 10), update(3, 10)]);
    state.tombstone_validator(&address(3)).unwrap();
    let wanted = vec![validator(2, 99), validator(3, 7), validator(4, 5)];
    assert_eq!(state.sync_validators_from_config(&wanted), Ok(()));
    assert_eq!(state.active_validators().unwrap(), vec![update(2, 10), update(4, 5)]);
    let rows = state.validators().len();
    assert_eq!(rows, 4);
    state.sync_validators_from_config(&wanted).unwrap();
    assert_eq!(state.active_validators().unwrap(), vec![update(2, 10), update(4, 5)]);
    assert_eq!(state.validators().len(), rows);
}

#[test]
fn a_configuration_without_validators_changes_none() {
    let mut state = started(vec![update(1, 10), update(2, 10)]);
    assert_eq!(state.sync_validators_from_config(&vec![]), Ok(()));
    assert_eq!(state.active_validators().unwrap(), vec![update(1, 10), update(2, 10)]);
}

#[test]
fn validators_of_a_configuration_with_wrong_keys() {
    let mut state = started(vec![update(1, 10)]);
    let short = Validator { public_key: vec![1; 31], power: 1 };
    let e = state.sync_validators_from_config(&vec![validator(2, 1), short]).unwrap_err();
    assert_eq!(e, StateError::InvalidPublicKeyInConfig);
    assert_eq!(e.message(), "invalid ed25519 public key in config");
    assert_eq!(state.active_validators().unwrap(), vec![update(1, 10)]);
}

#[test]
fn powers_from_a_configuration_have_32_bits() {
    let mut state = State::new();
    let wanted = vec![validator(1, 4_294_967_296 + 3), validator(2, 4), validator(2, 6)];
    state.sync_validators_from_config(&wanted).unwrap();
    assert_eq!(state.active_validators().unwrap(), vec![update(1, 3), update(2, 6)]);
}

#[test]
fn tombstoning() {
    let mut state = started(vec![update(1, 10), update(2, 20)]);
    state.tombstone_validator(&address(2)).unwrap();
    assert_eq!(state.active_validators().unwrap(), vec![update(1, 10)]);
    state.tombstone_validator(&address(9)).unwrap();
    state.tombstone_validator(&address(2)).unwrap();
    assert_eq!(state.active_validators().unwrap(), vec![update(1, 10)]);
    assert_eq!(
        state.declare_validator(update(2, 20)),
        Err(StateError::ValidatorExists { public_key: key(2), power: 0 })
    );
    state.sync_validators_from_config(&vec![validator(1, 10), validator(2, 20)]).unwrap();
    assert_eq!(state.active_validators().unwrap(), vec![update(1, 10)]);
}

#[test]
fn addresses_are_the_first_20_bytes_of_the_hash() {
    let hash = sha2::Sha256::digest([7u8; 32]);
    assert_eq!(key_address(&[7u8; 32]), hash[..20].to_vec());
}

#[test]
fn who_voted() {
    let mut state = started(vec![update(1, 10), update(2, 10), update(3, 10)]);
    assert!(state.voted().is_empty());
    state.mark_validators_voted(&vec![address(3), address(1), address(8)]).unwrap();
    assert_eq!(state.voted(), &vec![key(1), key(3)]);
    assert_eq!(state.active_validators().unwrap().len(), 3);
    assert_eq!(state.validators_at(&vec![address(2)]), Ok(vec![key(2)]));
    assert_eq!(state.voted(), &vec![key(1), key(3)]);
    state.mark_validators_voted(&vec![]).unwrap();
    assert!(state.voted().is_empty());
}

#[test]
fn public_keys_have_32_bytes() {
    assert_eq!(PublicKey::from_raw_ed25519(&[5; 32]), Some(key(5)));
    assert_eq!(PublicKey::from_raw_ed25519(&[5; 31]), None);
    assert_eq!(PublicKey::from_raw_ed25519(&[5; 33]), None);
    assert_eq!(key(5).to_bytes(), vec![5; 32]);
}

#[test]
fn the_chain_begins() {
    let mut state = State::new();
    let asked = request(vec![update(2, 10), update(1, 20)], "");
    let message = tendermint_proto::v0_38::abci::RequestInitChain {
        time: Some(tendermint_proto::google::protobuf::Timestamp {
            seconds: 1_700_000_000,
            nanos: 0,
        }),
        chain_id: "felidae-test".to_string(),
        consensus_params: Some(tendermint_proto::v0_38::types::ConsensusParams {
            block: None,
            evidence: None,
            validator: None,
            version: None,
            abci: None,
        }),
        validators: [(2u8, 10i64), (1, 20)]
            .iter()
            .map(|(n, power)| tendermint_proto::v0_38::abci::ValidatorUpdate {
                pub_key: Some(tendermint_proto::v0_38::crypto::PublicKey {
                    sum: Some(tendermint_proto::v0_38::crypto::public_key::Sum::Ed25519(vec![
                        *n;
                        32
                    ])),
                }),
                power: *power,
            })
            .collect(),
        app_state_bytes: vec![].into(),
        initial_height: 1,
    };
    let expected = sha2::Sha256::digest(message.encode_to_vec()).to_vec();
    let answer = state.init_chain(asked.clone(), Err("unused".to_string())).unwrap();
    assert_eq!(answer.app_hash, expected);
    assert_eq!(answer.validators, asked.validators);
    assert_eq!(answer.consensus_params, asked.consensus_params);
    assert_eq!(state.chain_id().unwrap().0, "felidae-test");
    assert_eq!(state.config().unwrap(), &default_config());
    assert_eq!(state.active_validators().unwrap(), vec![update(1, 20), update(2, 10)]);
}

#[test]
fn the_default_configuration() {
    let c = default_config();
    assert_eq!(c.version, 0);
    assert!(c.admins.authorized.is_empty());
    assert!(!c.oracles.enabled);
    assert_eq!(c.oracles.voting.delay, Delay(Duration::from_secs(i64::MAX as u64)));
    assert_eq!(c.oracles.observation_timeout, Duration::from_secs(i64::MAX as u64));
    assert_eq!(c.oracles.max_enrolled_subdomains, 0);
}

#[test]
fn a_chain_that_cannot_begin() {
    let mut state = State::new();
    let mut asked = request(vec![], "");
    asked.initial_height = 2;
    let e = state.init_chain(asked, Ok(config(1, vec![]))).unwrap_err();
    assert_eq!(e, StateError::InitialHeight);
    assert_eq!(e.message(), "initial height must be 1");
    assert_eq!(state.chain_id(), None);

    let e = state.init_chain(request(vec![], "{"), Ok(config(1, vec![]))).unwrap_err();
    assert!(e.message().starts_with("failed to parse app_state as JSON: EOF while parsing"));
    assert!(state.chain_id().is_some());

    for text in ["{}", "[]", "3"] {
        let e = state.init_chain(request(vec![], text), Ok(config(1, vec![]))).unwrap_err();
        assert_eq!(e, StateError::NoConfigKey);
        assert_eq!(e.message(), "app_state must contain a 'config' key");
    }

    let asked = request(vec![], "{\"config\": 1}");
    let e = state.init_chain(asked, Err("no struct".to_string())).unwrap_err();
    assert_eq!(e, StateError::ConfigNotReadable { cause: "no struct".to_string() });
    assert_eq!(
        e.message(),
        "failed to deserialize config from app_state.config: no struct"
    );
    assert_eq!(state.config().unwrap_err(), StateError::ConfigNotFound);
}

#[test]
fn the_configuration_in_the_application_state() {
    assert_eq!(
        genesis_config_value(b"{\"other\": 1, \"config\": { \"version\" : 3 }}")
            .map(|value| value.map(|v| v.to_string())),
        Ok(Some("{\"version\":3}".to_string()))
    );
    assert_eq!(genesis_config_value(b"{\"other\": 1}"), Ok(None));
    assert!(genesis_config_value(b"{").is_err());
    let mut state = State::new();
    state
        .init_chain(request(vec![], "{\"config\": {}}"), Ok(config(9, vec![])))
        .unwrap();
    assert_eq!(state.config().unwrap().version, 9);
}

fn begin_with(genesis: Vec<Update>, named: Vec<Validator>) -> Result<(), StateError> {
    let mut state = State::new();
    let asked = request(genesis, "{\"config\": {}}");
    state.init_chain(asked, Ok(config(1, named))).map(|_| ())
}

#[test]
fn genesis_and_configuration_agree() {
    let genesis = vec![update(1, 10), update(2, 20)];
    assert_eq!(begin_with(genesis.clone(), vec![validator(2, 20), validator(1, 10)]), Ok(()));
    assert_eq!(begin_with(genesis.clone(), vec![]), Ok(()));
    let twice = vec![validator(2, 3), validator(1, 10), validator(2, 20)];
    assert_eq!(begin_with(genesis, twice), Ok(()));
}

#[test]
fn genesis_and_configuration_differ() {
    let genesis = vec![update(1, 10), update(2, 20)];
    let e = begin_with(genesis.clone(), vec![validator(1, 10)]).unwrap_err();
    assert_eq!(e, StateError::ValidatorCounts { genesis: 2, config: 1 });
    assert_eq!(e.message(), "genesis has 2 validators but config has 1 validators");

    let e = begin_with(genesis.clone(), vec![validator(1, 11), validator(2, 21)]).unwrap_err();
    assert_eq!(
        e,
        StateError::PowerMismatch { public_key: vec![1; 32], genesis: 10, config: 11 }
    );
    assert_eq!(
        e.message(),
        format!("validator {} has power 10 in genesis but 11 in config", "01".repeat(32))
    );

    let e = begin_with(genesis.clone(), vec![validator(1, 10), validator(3, 20)]).unwrap_err();
    assert_eq!(e, StateError::NotInConfig { public_key: vec![2; 32] });
    assert_eq!(
        e.message(),
        format!("validator {} in genesis is not in config", "02".repeat(32))
    );
}

#[test]
fn a_validator_twice_in_genesis() {
    let e = begin_with(vec![update(1, 10), update(1, 10)], vec![]).unwrap_err();
    assert_eq!(e, StateError::ValidatorExists { public_key: key(1), power: 10 });
}

#[test]
fn a_block_without_events() {
    let mut state = started(vec![update(1, 10), update(2, 10)]);
    let told = state.finalize_block(&block(1), vec![], vec![], vec![]).unwrap();
    assert_eq!(told.validator_updates, vec![update(1, 10), update(2, 10)]);
    assert!(told.tx_results.is_empty());
    assert_eq!(state.block_height(), Some(1));
    assert_eq!(state.block_time(), Some(Time { seconds: 1_700_000_001, nanos: 0 }));
}

#[test]
fn transactions_are_answered_in_order() {
    let mut state = started(vec![update(1, 10)]);
    let deliveries = vec![Ok(()), Err("bad signature".to_string()), Ok(())];
    let told = state.finalize_block(&block(1), deliveries, vec![], vec![]).unwrap();
    let codes: Vec<u32> = told.tx_results.iter().map(|r| r.code).collect();
    assert_eq!(codes, vec![0, 1, 0]);
    assert_eq!(told.tx_results[1].log, "bad signature");
    assert_eq!(told.tx_results[0].log, "");
    let result = tx_result(Err("x".to_string()));
    assert_eq!((result.gas_wanted, result.gas_used), (0, 0));
    assert!(result.data.is_empty() && result.info.is_empty() && result.codespace.is_empty());
    assert!(result.events.is_empty());
    assert_eq!(told.consensus_param_updates, None);
    assert!(told.app_hash.is_empty());
    assert!(told.events.is_empty());
}

#[test]
fn votes_on_the_last_block() {
    let mut state = started(vec![update(1, 10), update(2, 10), update(3, 10), update(4, 10)]);
    let mut asked = block(1);
    let vote = |n: u8, sig_info| VoteInfo { address: address(n), sig_info };
    asked.votes = vec![
        vote(1, BlockSignatureInfo::Flag(BlockIdFlag::Commit)),
        vote(2, BlockSignatureInfo::Flag(BlockIdFlag::Absent)),
        vote(3, BlockSignatureInfo::Flag(BlockIdFlag::Nil)),
        vote(4, BlockSignatureInfo::LegacySigned),
    ];
    let start = state.begin_block(&asked).unwrap();
    assert_eq!(state.voted(), &vec![key(1), key(3), key(4)]);
    assert_eq!(start.active().len(), 4);
    asked.votes.truncate(2);
    state.finalize_block(&asked, vec![], vec![], vec![]).unwrap();
    assert_eq!(state.voted(), &vec![key(1)]);
}

#[test]
fn the_steps_of_a_block() {
    let mut state = started(vec![update(1, 10), update(2, 10)]);
    let mut asked = block(1);
    asked.misbehavior = vec![Misbehavior { address: address(2) }];
    let start = state.begin_block(&asked).unwrap();
    assert_eq!(start.active(), &vec![update(1, 10), update(2, 10)]);
    let delivered = start.deliver(vec![Err("no".to_string())]);
    let named = vec![validator(1, 10), validator(3, 4)];
    let configured = delivered.apply_configs(&mut state, vec![config(1, named)]).unwrap();
    let settled = configured.settle(vec![]);
    assert!(settled.canonical().is_empty());
    let told = settled.end(&state).unwrap();
    assert_eq!(told.tx_results[0].log, "no");
    assert_eq!(told.validator_updates, vec![update(1, 10), update(3, 4), update(2, 0)]);
}

#[test]
fn misbehavior_takes_power_for_good() {
    let mut state = started(vec![update(1, 10), update(2, 10)]);
    let mut asked = block(1);
    asked.misbehavior = vec![Misbehavior { address: address(2) }];
    let told = state.finalize_block(&asked, vec![], vec![], vec![]).unwrap();
    assert_eq!(told.validator_updates, vec![update(1, 10), update(2, 0)]);
    let again = config(1, vec![validator(1, 10), validator(2, 10)]);
    let told = state.finalize_block(&block(2), vec![], vec![again], vec![]).unwrap();
    assert_eq!(told.validator_updates, vec![update(1, 10)]);
}

#[test]
fn validators_come_and_go() {
    let genesis = vec![update(1, 10), update(2, 10), update(3, 10)];
    let mut state = started(genesis.clone());
    let named = |extra: Vec<Validator>| {
        let mut all = vec![validator(1, 10), validator(2, 10), validator(3, 10)];
        all.extend(extra);
        all
    };
    let told = state
        .finalize_block(&block(1), vec![], vec![config(1, named(vec![]))], vec![])
        .unwrap();
    assert_eq!(told.validator_updates, genesis);
    let more = config(2, named(vec![validator(4, 5)]));
    let told = state.finalize_block(&block(2), vec![], vec![more], vec![]).unwrap();
    assert_eq!(told.validator_updates.len(), 4);
    assert_eq!(told.validator_updates[3], update(4, 5));
    let fewer = config(3, named(vec![]));
    let told = state.finalize_block(&block(3), vec![], vec![fewer], vec![]).unwrap();
    let mut expected = genesis.clone();
    expected.push(update(4, 0));
    assert_eq!(told.validator_updates, expected);
    let told = state.finalize_block(&block(4), vec![], vec![], vec![]).unwrap();
    assert_eq!(told.validator_updates, genesis);
}

#[test]
fn an_older_configuration_behind_a_newer_one_is_passed_over() {
    let mut state = started(vec![update(1, 10)]);
    let configs = vec![
        config(5, vec![]),
        config(4, vec![validator(7, 1)]),
        config(5, vec![validator(8, 1)]),
    ];
    state.finalize_block(&block(1), vec![], configs, vec![]).unwrap();
    assert_eq!(state.config().unwrap().version, 5);
    assert!(state.config().unwrap().validators.is_empty());
    assert_eq!(state.active_validators().unwrap(), vec![update(1, 10)]);
}

#[test]
fn a_block_without_a_configuration() {
    let mut state = State::new();
    let e = state.finalize_block(&block(1), vec![], vec![config(1, vec![])], vec![]);
    assert_eq!(e.unwrap_err(), StateError::ConfigNotFound);
}

#[test]
fn observations_become_canonical() {
    let mut state = started(vec![]);
    let name = |n: &str| Fqdn::from_ascii_str(n).unwrap();
    let promoted = vec![
        (
            PrefixOrderDomain { name: name("sub.example.com.") },
            OracleVoteValue {
                hash_observed: HashObserved::Hash([1; 32]),
                zone: Zone { name: name("com.") },
            },
        ),
        (
            PrefixOrderDomain { name: name("other.org.") },
            OracleVoteValue {
                hash_observed: HashObserved::NotFound,
                zone: Zone { name: name("org.") },
            },
        ),
    ];
    let told = state.finalize_block(&block(1), vec![], vec![], promoted).unwrap();
    assert_eq!(
        told.canonical,
        vec![
            (Domain { name: name("sub.example.com.") }, HashObserved::Hash([1; 32])),
            (Domain { name: name("other.org.") }, HashObserved::NotFound),
        ]
    );
}

#[test]
fn validators_by_address() {
    let validators = vec![update(1, 10), update(2, 10), update(3, 10)];
    let addresses = vec![vec![7; 20], vec![8; 20], vec![7; 20]];
    assert_eq!(select_by_address(&validators, &addresses, &vec![[7; 20]]), vec![key(1), key(3)]);
    assert_eq!(select_by_address(&validators, &addresses, &vec![]), vec![]);
    let mut state = started(validators);
    state.tombstone_first(&vec![key(2), key(3)]);
    assert_eq!(state.active_validators().unwrap(), vec![update(1, 10), update(3, 10)]);
    state.tombstone_first(&vec![]);
    assert_eq!(state.active_validators().unwrap().len(), 2);
}
