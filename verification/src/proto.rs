//! The messages that transactions, configurations and votes travel and are stored as.

use vstd::prelude::*;

verus! {

#[derive(Clone, Debug, PartialEq, Eq)]
pub struct Transaction {
    pub chain_id: String,
    pub actions: Vec<Action>,
}

pub struct TransactionView {
    pub chain_id: Seq<char>,
    pub actions: Seq<ActionView>,
}

impl View for Transaction {
    type V = TransactionView;

    open spec fn view(&self) -> TransactionView {
        TransactionView {
            chain_id: self.chain_id@,
            actions: self.actions@.map_values(|a: Action| a@),
        }
    }
}

#[derive(Clone, Debug, PartialEq, Eq)]
pub struct Action {
    pub action: Option<ActionBody>,
}

#[derive(Clone, Debug, PartialEq, Eq)]
pub enum ActionBody {
    Reconfigure(Reconfigure),
    Observe(Observe),
}

pub enum ActionView {
    Missing,
    Reconfigure(ReconfigureView),
    Observe(ObserveView),
}

impl View for Action {
    type V = ActionView;

    open spec fn view(&self) -> ActionView {
        match self.action {
            None => ActionView::Missing,
            Some(ActionBody::Reconfigure(r)) => ActionView::Reconfigure(r@),
            Some(ActionBody::Observe(o)) => ActionView::Observe(o@),
        }
    }
}

/// A public key, and the signature made with its secret key: empty where nothing is signed yet.
#[derive(Clone, Debug, PartialEq, Eq)]
pub struct Signature {
    pub public_key: Vec<u8>,
    pub signature: Vec<u8>,
}

pub struct SignatureView {
    pub public_key: Seq<u8>,
    pub signature: Seq<u8>,
}

impl View for Signature {
    type V = SignatureView;

    open spec fn view(&self) -> SignatureView {
        SignatureView { public_key: self.public_key@, signature: self.signature@ }
    }
}

impl SignatureView {
    /// The message before it is signed.
    pub open spec fn unsigned(public_key: Seq<u8>) -> SignatureView {
        SignatureView { public_key, signature: Seq::empty() }
    }
}

impl Signature {
    /// The message before it is signed.
    pub fn unsigned(public_key: Vec<u8>) -> (r: Signature)
        ensures
            r@ == SignatureView::unsigned(public_key@),
    {
        Signature { public_key, signature: Vec::new() }
    }
}

#[derive(Clone, Copy, Debug, PartialEq, Eq)]
pub struct Timestamp {
    pub seconds: i64,
    pub nanos: i32,
}

#[derive(Clone, Debug, PartialEq, Eq)]
pub struct Reconfigure {
    pub signature: Option<Signature>,
    pub config: Option<Config>,
    pub not_before: Option<Timestamp>,
    pub not_after: Option<Timestamp>,
}

pub struct ReconfigureView {
    pub signature: Option<SignatureView>,
    pub config: Option<ConfigView>,
    pub not_before: Option<Timestamp>,
    pub not_after: Option<Timestamp>,
}

impl View for Reconfigure {
    type V = ReconfigureView;

    open spec fn view(&self) -> ReconfigureView {
        ReconfigureView {
            signature: match self.signature {
                Some(s) => Some(s@),
                None => None,
            },
            config: match self.config {
                Some(c) => Some(c@),
                None => None,
            },
            not_before: self.not_before,
            not_after: self.not_after,
        }
    }
}

#[derive(Clone, Debug, PartialEq, Eq)]
pub struct Observe {
    pub signature: Option<Signature>,
    pub observation: Option<Observation>,
}

pub struct ObserveView {
    pub signature: Option<SignatureView>,
    pub observation: Option<ObservationView>,
}

impl View for Observe {
    type V = ObserveView;

    open spec fn view(&self) -> ObserveView {
        ObserveView {
            signature: match self.signature {
                Some(s) => Some(s@),
                None => None,
            },
            observation: match self.observation {
                Some(o) => Some(o@),
                None => None,
            },
        }
    }
}

#[derive(Clone, Debug, PartialEq, Eq)]
pub struct Config {
    pub version: i64,
    pub admin_config: Option<AdminConfig>,
    pub oracle_config: Option<OracleConfig>,
    pub onion_config: Option<OnionConfig>,
    pub validators: Vec<Validator>,
}

pub struct ConfigView {
    pub version: i64,
    pub admin_config: Option<AdminConfigView>,
    pub oracle_config: Option<OracleConfigView>,
    pub onion_config: Option<OnionConfig>,
    pub validators: Seq<ValidatorView>,
}

impl View for Config {
    type V = ConfigView;

    open spec fn view(&self) -> ConfigView {
        ConfigView {
            version: self.version,
            admin_config: match self.admin_config {
                Some(c) => Some(c@),
                None => None,
            },
            oracle_config: match self.oracle_config {
                Some(c) => Some(c@),
                None => None,
            },
            onion_config: self.onion_config,
            validators: self.validators@.map_values(|v: Validator| v@),
        }
    }
}

#[derive(Clone, Debug, PartialEq, Eq)]
pub struct AdminConfig {
    pub admins: Vec<Admin>,
    pub voting_config: Option<VotingConfig>,
}

pub struct AdminConfigView {
    pub admins: Seq<Seq<u8>>,
    pub voting_config: Option<VotingConfig>,
}

impl View for AdminConfig {
    type V = AdminConfigView;

    open spec fn view(&self) -> AdminConfigView {
        AdminConfigView {
            admins: self.admins@.map_values(|a: Admin| a@),
            voting_config: self.voting_config,
        }
    }
}

#[derive(Clone, Debug, PartialEq, Eq)]
pub struct Admin {
    pub public_key: Vec<u8>,
}

impl View for Admin {
    type V = Seq<u8>;

    open spec fn view(&self) -> Seq<u8> {
        self.public_key@
    }
}

#[derive(Clone, Debug, PartialEq, Eq)]
pub struct OracleConfig {
    pub enabled: bool,
    pub oracles: Vec<Oracle>,
    pub voting_config: Option<VotingConfig>,
    pub max_enrolled_subdomains: i64,
    pub observation_timeout: i64,
}

pub struct OracleConfigView {
    pub enabled: bool,
    pub oracles: Seq<OracleView>,
    pub voting_config: Option<VotingConfig>,
    pub max_enrolled_subdomains: i64,
    pub observation_timeout: i64,
}

impl View for OracleConfig {
    type V = OracleConfigView;

    open spec fn view(&self) -> OracleConfigView {
        OracleConfigView {
            enabled: self.enabled,
            oracles: self.oracles@.map_values(|o: Oracle| o@),
            voting_config: self.voting_config,
            max_enrolled_subdomains: self.max_enrolled_subdomains,
            observation_timeout: self.observation_timeout,
        }
    }
}

#[derive(Clone, Debug, PartialEq, Eq)]
pub struct Oracle {
    pub public_key: Option<OracleIdentity>,
    pub endpoint: String,
}

pub struct OracleView {
    pub public_key: Option<Seq<u8>>,
    pub endpoint: Seq<char>,
}

impl View for Oracle {
    type V = OracleView;

    open spec fn view(&self) -> OracleView {
        OracleView {
            public_key: match self.public_key {
                Some(k) => Some(k@),
                None => None,
            },
            endpoint: self.endpoint@,
        }
    }
}

#[derive(Clone, Debug, PartialEq, Eq)]
pub struct OracleIdentity {
    pub public_key: Vec<u8>,
}

impl View for OracleIdentity {
    type V = Seq<u8>;

    open spec fn view(&self) -> Seq<u8> {
        self.public_key@
    }
}

#[derive(Clone, Copy, Debug, PartialEq, Eq)]
pub struct OnionConfig {
    pub enabled: bool,
}

#[derive(Clone, Copy, Debug, PartialEq, Eq)]
pub struct VotingConfig {
    pub total: i64,
    pub quorum: i64,
    pub timeout: i64,
    pub delay: i64,
}

#[derive(Clone, Debug, PartialEq, Eq)]
pub struct Validator {
    pub public_key: Vec<u8>,
    pub power: i64,
}

pub struct ValidatorView {
    pub public_key: Seq<u8>,
    pub power: i64,
}

impl View for Validator {
    type V = ValidatorView;

    open spec fn view(&self) -> ValidatorView {
        ValidatorView { public_key: self.public_key@, power: self.power }
    }
}

#[derive(Clone, Debug, PartialEq, Eq)]
pub struct Observation {
    pub domain: String,
    pub zone: String,
    pub hash_observed: Option<HashObserved>,
    pub blockstamp: Option<Blockstamp>,
}

pub struct ObservationView {
    pub domain: Seq<char>,
    pub zone: Seq<char>,
    pub hash_observed: Option<Seq<u8>>,
    pub blockstamp: Option<BlockstampView>,
}

impl View for Observation {
    type V = ObservationView;

    open spec fn view(&self) -> ObservationView {
        ObservationView {
            domain: self.domain@,
            zone: self.zone@,
            hash_observed: match self.hash_observed {
                Some(h) => Some(h@),
                None => None,
            },
            blockstamp: match self.blockstamp {
                Some(b) => Some(b@),
                None => None,
            },
        }
    }
}

#[derive(Clone, Debug, PartialEq, Eq)]
pub struct HashObserved {
    pub hash: Vec<u8>,
}

impl View for HashObserved {
    type V = Seq<u8>;

    open spec fn view(&self) -> Seq<u8> {
        self.hash@
    }
}

#[derive(Clone, Debug, PartialEq, Eq)]
pub struct Blockstamp {
    pub block_hash: Vec<u8>,
    pub block_number: i64,
}

pub struct BlockstampView {
    pub block_hash: Seq<u8>,
    pub block_number: i64,
}

impl View for Blockstamp {
    type V = BlockstampView;

    open spec fn view(&self) -> BlockstampView {
        BlockstampView { block_hash: self.block_hash@, block_number: self.block_number }
    }
}

#[derive(Clone, Debug, PartialEq, Eq)]
pub struct OracleVoteValue {
    pub hash_observed: Option<HashObserved>,
    pub zone: String,
}

pub struct OracleVoteValueView {
    pub hash_observed: Option<Seq<u8>>,
    pub zone: Seq<char>,
}

impl View for OracleVoteValue {
    type V = OracleVoteValueView;

    open spec fn view(&self) -> OracleVoteValueView {
        OracleVoteValueView {
            hash_observed: match self.hash_observed {
                Some(h) => Some(h@),
                None => None,
            },
            zone: self.zone@,
        }
    }
}

} // verus!
