use felidae::clock::Duration;
use felidae::clock::Time;
use felidae::domain::Domain;
use felidae::domain::Fqdn;
use felidae::domain::PrefixOrderDomain;
use felidae::domain::Zone;
use felidae::error::ParseError;
use felidae::error::Target;
use felidae::proto;
use felidae::transaction::Action;
use felidae::transaction::Admin;
use felidae::transaction::AdminConfig;
use felidae::transaction::Blockstamp;
use felidae::transaction::ChainId;
use felidae::transaction::Config;
use felidae::transaction::Delay;
use felidae::transaction::Empty;
use felidae::transaction::HashObserved;
use felidae::transaction::Observation;
use felidae::transaction::Observe;
use felidae::transaction::OnionConfig;
use felidae::transaction::Oracle;
use felidae::transaction::OracleConfig;
use felidae::transaction::OracleIdentity;
use felidae::transaction::OracleVoteValue;
use felidae::transaction::Quorum;
use felidae::transaction::Reconfigure;
use felidae::transaction::Timeout;
use felidae::transaction::Total;
use felidae::transaction::Transaction;
use felidae::transaction::Unsigned;
use felidae::transaction::Validator;
use felidae::transaction::VotingConfig;
use std::hash::DefaultHasher;
use std::hash::Hash;
use std::hash::Hasher;

fn fqdn(name: &str) -> Fqdn {
    Fqdn::from_ascii_str(name).unwrap()
}

fn voting(total: u64, quorum: u64) -> VotingConfig {
    VotingConfig {
        total: Total(total),
        quorum: Quorum(quorum),
        timeout: Timeout(Duration::from_secs(30)),
        delay: Delay(Duration::from_secs(5)),
    }
}

fn config() -> Config {
    Config {
        version: 7,
        admins: AdminConfig {
            voting: voting(1, 1),
            authorized: vec![Admin { identity: vec![3u8; 65] }],
        },
        oracles: OracleConfig {
            enabled: true,
            voting: voting(2, 2),
            max_enrolled_subdomains: 100,
            observation_timeout: Duration::from_secs(120),
            authorized: vec![
                Oracle { identity: vec![1u8; 64], endpoint: "127.0.0.1".to_string() },
                Oracle { identity: vec![2u8; 64], endpoint: "oracle.example".to_string() },
            ],
        },
        onion: OnionConfig { enabled: true },
        validators: vec![Validator { public_key: vec![9u8; 32], power: 10 }],
    }
}

fn reconfigure() -> Reconfigure {
    Reconfigure {
        config: config(),
        not_before: Time { seconds: 1_650_000_000, nanos: 5 },
        not_after: Time { seconds: 1_660_000_000, nanos: 0 },
        admin: Admin { identity: vec![3u8; 65] },
    }
}

fn observation() -> Observation {
    Observation {
        domain: Domain { name: fqdn("sub.example.com.") },
        zone: Zone { name: fqdn("com.") },
        blockstamp: Blockstamp { block_height: 4, app_hash: vec![42u8; 32] },
        hash_observed: HashObserved::Hash([7u8; 32]),
    }
}

fn missing<T>(r: Result<T, ParseError>, target: Target) {
    match r {
        Ok(_) => panic!("nothing was refused"),
        Err(e) => assert_eq!(e, ParseError { target, value: "missing".to_string() }),
    }
}

#[test]
fn transactions_round_trip() {
    let tx = Transaction {
        chain_id: ChainId("test-chain".to_string()),
        actions: vec![
            Action::Reconfigure(reconfigure()),
            Action::Observe(Observe {
                observation: observation(),
                oracle: OracleIdentity { identity: vec![1u8; 64] },
            }),
        ],
    };
    let message = proto::Transaction::from(tx.clone());
    assert_eq!(message.chain_id, "test-chain");
    assert_eq!(message.actions.len(), 2);
    assert_eq!(Transaction::try_from(message), Ok(tx));
}

#[test]
fn the_first_action_that_is_wrong_is_the_error() {
    let good = proto::Action::from(Action::Observe(Observe {
        observation: observation(),
        oracle: OracleIdentity { identity: vec![] },
    }));
    let mut signed_by_none = proto::Observe::from(Observe {
        observation: observation(),
        oracle: OracleIdentity { identity: vec![] },
    });
    signed_by_none.signature = None;
    let message = proto::Transaction {
        chain_id: "c".to_string(),
        actions: vec![
            good,
            proto::Action { action: None },
            proto::Action { action: Some(proto::ActionBody::Observe(signed_by_none)) },
        ],
    };
    missing(Transaction::try_from(message), Target::Action);
}

#[test]
fn a_signature_changes_nothing() {
    let mut message = proto::Reconfigure::from(reconfigure());
    assert_eq!(
        message.signature,
        Some(proto::Signature { public_key: vec![3u8; 65], signature: vec![] })
    );
    message.signature =
        Some(proto::Signature { public_key: vec![3u8; 65], signature: vec![1, 2, 3] });
    assert_eq!(Reconfigure::try_from(message), Ok(reconfigure()));
}

#[test]
fn parts_of_a_reconfiguration_that_are_missing() {
    let whole = proto::Reconfigure::from(reconfigure());
    let mut m = whole.clone();
    m.signature = None;
    m.config = None;
    missing(Reconfigure::try_from(m), Target::Admin);
    let mut m = whole.clone();
    m.config = None;
    m.not_before = None;
    missing(Reconfigure::try_from(m), Target::Config);
    let mut m = whole.clone();
    m.not_before = None;
    missing(Reconfigure::try_from(m), Target::Time);
    let mut m = whole.clone();
    m.not_after = Some(proto::Timestamp { seconds: 0, nanos: 1_000_000_000 });
    missing(Reconfigure::try_from(m), Target::Time);
    let mut m = whole.clone();
    m.not_after = Some(proto::Timestamp { seconds: 253_402_300_800, nanos: 0 });
    missing(Reconfigure::try_from(m), Target::Time);
    let mut m = whole;
    m.not_after = Some(proto::Timestamp { seconds: 253_402_300_799, nanos: 999_999_999 });
    let read = Reconfigure::try_from(m).unwrap();
    assert_eq!(read.not_after, Time { seconds: 253_402_300_799, nanos: 999_999_999 });
}

#[test]
fn times_before_the_epoch() {
    assert_eq!(
        Time::from_timestamp(-62_135_596_800, 0),
        Some(Time { seconds: -62_135_596_800, nanos: 0 })
    );
    assert_eq!(Time::from_timestamp(-62_135_596_801, 0), None);
    assert_eq!(Time::from_timestamp(-5, 7), Some(Time { seconds: -5, nanos: 7 }));
    assert_eq!(Time::from_timestamp(0, -1), None);
}

#[test]
fn parts_of_an_observation_that_are_missing() {
    let whole = proto::Observe::from(Observe {
        observation: observation(),
        oracle: OracleIdentity { identity: vec![5] },
    });
    let mut m = whole.clone();
    m.signature = None;
    missing(Observe::try_from(m), Target::OracleIdentity);
    let mut m = whole.clone();
    m.observation = None;
    missing(Observe::try_from(m), Target::Observation);
    let read = Observe::try_from(whole).unwrap();
    assert_eq!(read.oracle.identity, vec![5]);

    let whole = proto::Observation::from(observation());
    assert_eq!(whole.domain, "sub.example.com.");
    let mut m = whole.clone();
    m.hash_observed = None;
    missing(Observation::try_from(m), Target::HashObserved);
    let mut m = whole.clone();
    m.blockstamp = None;
    missing(Observation::try_from(m), Target::Blockstamp);
    let mut m = whole.clone();
    m.blockstamp = Some(proto::Blockstamp { block_hash: vec![], block_number: -1 });
    missing(Observation::try_from(m), Target::Blockstamp);
    let mut m = whole.clone();
    m.domain = "no dot".to_string();
    m.zone = "no dot either".to_string();
    assert_eq!(
        Observation::try_from(m),
        Err(ParseError { target: Target::Domain, value: "no dot".to_string() })
    );
    let mut m = whole;
    m.zone = "com".to_string();
    assert_eq!(
        Observation::try_from(m),
        Err(ParseError { target: Target::Zone, value: "com".to_string() })
    );
}

#[test]
fn configurations_round_trip() {
    let message = proto::Config::from(config());
    assert_eq!(message.version, 7);
    assert_eq!(Config::try_from(message), Ok(config()));
}

#[test]
fn parts_of_a_configuration_that_are_wrong() {
    let whole = proto::Config::from(config());
    for version in [-1, 4_294_967_296] {
        let mut m = whole.clone();
        m.version = version;
        m.admin_config = None;
        missing(Config::try_from(m), Target::U32);
    }
    let mut m = whole.clone();
    m.version = 4_294_967_295;
    assert_eq!(Config::try_from(m).unwrap().version, u32::MAX);
    let mut m = whole.clone();
    m.admin_config = None;
    missing(Config::try_from(m), Target::AdminConfig);
    let mut m = whole.clone();
    m.oracle_config = None;
    missing(Config::try_from(m), Target::OracleConfig);
    let mut m = whole.clone();
    m.onion_config = None;
    missing(Config::try_from(m), Target::OnionConfig);
    let mut m = whole.clone();
    m.validators[0].power = -2;
    assert_eq!(
        Config::try_from(m),
        Err(ParseError { target: Target::U64, value: "invalid power".to_string() })
    );
    let mut m = whole.clone();
    let mut oracles = m.oracle_config.clone().unwrap();
    oracles.max_enrolled_subdomains = -1;
    m.oracle_config = Some(oracles);
    missing(Config::try_from(m), Target::U64);
    let mut m = whole.clone();
    let mut oracles = m.oracle_config.clone().unwrap();
    oracles.observation_timeout = -1;
    m.oracle_config = Some(oracles);
    missing(Config::try_from(m), Target::Duration);
    let mut m = whole.clone();
    let mut oracles = m.oracle_config.clone().unwrap();
    oracles.voting_config = None;
    m.oracle_config = Some(oracles);
    missing(Config::try_from(m), Target::VotingConfig);
    let mut m = whole.clone();
    let mut oracles = m.oracle_config.clone().unwrap();
    oracles.oracles[1].public_key = None;
    m.oracle_config = Some(oracles);
    missing(Config::try_from(m), Target::OracleIdentity);
    let mut m = whole;
    let mut admins = m.admin_config.clone().unwrap();
    admins.voting_config = None;
    m.admin_config = Some(admins);
    missing(Config::try_from(m), Target::VotingConfig);
}

#[test]
fn negative_numbers_in_a_way_of_voting() {
    let whole = proto::VotingConfig { total: 3, quorum: 2, timeout: 30, delay: 5 };
    assert_eq!(VotingConfig::try_from(whole), Ok(voting(3, 2)));
    assert_eq!(proto::VotingConfig::from(voting(3, 2)), whole);
    let refused = |m: proto::VotingConfig| VotingConfig::try_from(m).unwrap_err();
    let e = refused(proto::VotingConfig { total: -12, quorum: -1, timeout: -1, delay: -1 });
    assert_eq!(e, ParseError { target: Target::Total, value: "-12".to_string() });
    let e = refused(proto::VotingConfig { quorum: i64::MIN, ..whole });
    assert_eq!(
        e,
        ParseError { target: Target::Quorum, value: "-9223372036854775808".to_string() }
    );
    let e = refused(proto::VotingConfig { timeout: -1, delay: -2, ..whole });
    assert_eq!(e, ParseError { target: Target::Timeout, value: "-1".to_string() });
    let e = refused(proto::VotingConfig { delay: -100, ..whole });
    assert_eq!(e, ParseError { target: Target::Delay, value: "-100".to_string() });
}

#[test]
fn numbers_that_are_too_great_become_the_greatest() {
    let big = VotingConfig {
        total: Total(u64::MAX),
        quorum: Quorum(i64::MAX as u64 + 1),
        timeout: Timeout(Duration { secs: u64::MAX, nanos: 1 }),
        delay: Delay(Duration { secs: 9, nanos: 999_999_999 }),
    };
    let message = proto::VotingConfig::from(big);
    assert_eq!(
        message,
        proto::VotingConfig { total: i64::MAX, quorum: i64::MAX, timeout: i64::MAX, delay: 9 }
    );
    let stamp = Blockstamp { block_height: u64::MAX, app_hash: vec![1] };
    let message = proto::Blockstamp::from(stamp);
    assert_eq!(message.block_number, i64::MAX);
    let message = proto::Validator::from(Validator { public_key: vec![], power: u64::MAX });
    assert_eq!(message.power, i64::MAX);
}

#[test]
fn an_oracle_without_an_endpoint_answers_at_the_local_host() {
    let message = proto::Oracle {
        public_key: Some(proto::OracleIdentity { public_key: vec![1] }),
        endpoint: String::new(),
    };
    let oracle = Oracle::try_from(message).unwrap();
    assert_eq!(oracle, Oracle { identity: vec![1], endpoint: "127.0.0.1".to_string() });
}

#[test]
fn hashes_are_32_bytes_or_none() {
    let read = |hash: Vec<u8>| HashObserved::try_from(proto::HashObserved { hash });
    assert_eq!(read(vec![8u8; 32]), Ok(HashObserved::Hash([8u8; 32])));
    assert_eq!(read(vec![]), Ok(HashObserved::NotFound));
    assert_eq!(
        read(vec![0xab, 0x01]),
        Err(ParseError { target: Target::HashObserved, value: "ab01".to_string() })
    );
    assert_eq!(proto::HashObserved::from(HashObserved::Hash([8u8; 32])).hash, vec![8u8; 32]);
    assert!(proto::HashObserved::from(HashObserved::NotFound).hash.is_empty());
    assert_eq!(HashObserved::NotFound.debug_text(), "NotFound");
    assert_eq!(HashObserved::Hash([0x0f; 32]).debug_text(), "0f".repeat(32));
}

#[test]
fn vote_values() {
    let value = OracleVoteValue {
        hash_observed: HashObserved::NotFound,
        zone: Zone { name: fqdn("com.") },
    };
    let message = proto::OracleVoteValue::from(value.clone());
    assert_eq!(message.zone, "com.");
    assert_eq!(OracleVoteValue::try_from(message.clone()), Ok(value));
    let mut m = message.clone();
    m.hash_observed = None;
    assert_eq!(
        OracleVoteValue::try_from(m),
        Err(ParseError {
            target: Target::OracleVoteValue,
            value: "missing hash_observed".to_string()
        })
    );
    let mut m = message;
    m.zone = "com".to_string();
    assert_eq!(
        OracleVoteValue::try_from(m),
        Err(ParseError {
            target: Target::OracleVoteValue,
            value: "invalid zone: the trailing dot of the FQDN string is missing".to_string()
        })
    );
}

#[test]
fn texts() {
    assert_eq!(
        ChainId::try_from("felidae".to_string()),
        Ok(ChainId("felidae".to_string()))
    );
    assert_eq!(
        ChainId::try_from(String::new()),
        Err(ParseError { target: Target::ChainId, value: String::new() })
    );
    assert_eq!(String::from(ChainId("x".to_string())), "x");
    assert_eq!(String::from(Domain { name: fqdn("a.b.") }), "a.b.");
    assert_eq!(Domain::try_from("a.b.".to_string()), Ok(Domain { name: fqdn("a.b.") }));
    assert_eq!(
        Domain::try_from("a.b".to_string()),
        Err(ParseError { target: Target::Domain, value: "a.b".to_string() })
    );
    assert_eq!(String::from(Zone { name: fqdn("b.") }), "b.");
    assert_eq!(Zone::try_from("b.".to_string()), Ok(Zone { name: fqdn("b.") }));
    assert_eq!(
        Zone::try_from("b".to_string()),
        Err(ParseError { target: Target::Zone, value: "b".to_string() })
    );
    let prefix = PrefixOrderDomain { name: fqdn("jawn.best.") };
    assert_eq!(String::from(prefix.clone()), ".best.jawn");
    assert_eq!(PrefixOrderDomain::try_from(".best.jawn".to_string()), Ok(prefix));
    assert_eq!(
        PrefixOrderDomain::try_from(".a..b".to_string()),
        Err(ParseError { target: Target::PrefixOrderDomain, value: ".a..b".to_string() })
    );
    assert_eq!(String::from(Empty), "");
    assert_eq!(Empty::try_from(String::new()), Ok(Empty));
    assert_eq!(
        Empty::try_from("x".to_string()),
        Err(ParseError { target: Target::Empty, value: "x".to_string() })
    );
}

#[test]
fn keys_and_signatures() {
    let unsigned = Unsigned { public_key: vec![1, 2] };
    let signature = proto::Signature::from(unsigned.clone());
    assert_eq!(signature, proto::Signature::unsigned(vec![1, 2]));
    assert!(signature.signature.is_empty());
    assert_eq!(Unsigned::try_from(signature.clone()), Ok(unsigned.clone()));
    assert_eq!(Admin::try_from(unsigned.clone()), Ok(Admin { identity: vec![1, 2] }));
    assert_eq!(
        OracleIdentity::try_from(unsigned),
        Ok(OracleIdentity { identity: vec![1, 2] })
    );
    assert_eq!(proto::Signature::from(Admin { identity: vec![1, 2] }), signature);
    assert_eq!(proto::Signature::from(OracleIdentity { identity: vec![1, 2] }), signature);
    assert_eq!(
        proto::Signature::from(Oracle { identity: vec![1, 2], endpoint: String::new() }),
        signature
    );
}

#[test]
fn blockstamps_compare_by_height_and_then_by_hash() {
    let stamp = |h: u64, a: &[u8]| Blockstamp { block_height: h, app_hash: a.to_vec() };
    assert!(stamp(1, &[9]) < stamp(2, &[0]));
    assert!(stamp(2, &[0]) < stamp(2, &[0, 0]));
    assert!(stamp(2, &[1]) > stamp(2, &[0, 255]));
    assert!(stamp(2, &[1]) == stamp(2, &[1]));
    let mut stamps = vec![stamp(3, &[1]), stamp(1, &[2]), stamp(1, &[1])];
    stamps.sort();
    assert_eq!(stamps, vec![stamp(1, &[1]), stamp(1, &[2]), stamp(3, &[1])]);
}

#[test]
fn a_blockstamp_is_hashed_by_its_hash_and_then_its_height() {
    let stamp = Blockstamp { block_height: 7, app_hash: vec![1, 2, 3] };
    let mut own = DefaultHasher::new();
    stamp.hash(&mut own);
    let mut in_turn = DefaultHasher::new();
    stamp.app_hash.as_slice().hash(&mut in_turn);
    stamp.block_height.hash(&mut in_turn);
    assert_eq!(own.finish(), in_turn.finish());
    let mut swapped = DefaultHasher::new();
    stamp.block_height.hash(&mut swapped);
    stamp.app_hash.as_slice().hash(&mut swapped);
    assert_ne!(own.finish(), swapped.finish());
}
