//! Transactions, the actions in them, and the chain configuration that they change.

use vstd::prelude::*;

use crate::clock::Duration;
use crate::clock::Time;
use crate::domain::Domain;
use crate::domain::Zone;
use crate::error;
use crate::error::ParseError;
use crate::error::Target;
use crate::hexadecimal;
use crate::octets;

verus! {

/// A transaction: actions for the chain with this identifier.
#[derive(Clone, Debug, PartialEq, Eq, PartialOrd, Ord, Hash)]
pub struct Transaction {
    pub chain_id: ChainId,
    pub actions: Vec<Action>,
}

pub struct TransactionView {
    pub chain_id: Seq<char>,
    pub actions: Seq<ActionView>,
}

impl View for Transaction {
    type V = TransactionView;

    open spec fn view(&self) -> TransactionView {
        TransactionView {
            chain_id: self.chain_id@,
            actions: self.actions@.map_values(|a: Action| a@),
        }
    }
}

/// The identifier of a chain.
#[derive(Clone, Debug, PartialEq, Eq, PartialOrd, Ord, Hash)]
pub struct ChainId(pub String);

impl View for ChainId {
    type V = Seq<char>;

    open spec fn view(&self) -> Seq<char> {
        self.0@
    }
}

/// The public key of a message that is not signed.
#[derive(Clone, Debug, PartialEq, Eq, PartialOrd, Ord, Hash)]
pub struct Unsigned {
    pub public_key: Vec<u8>,
}

impl View for Unsigned {
    type V = Seq<u8>;

    open spec fn view(&self) -> Seq<u8> {
        self.public_key@
    }
}

#[derive(Clone, Debug, PartialEq, Eq, PartialOrd, Ord, Hash)]
pub enum Action {
    /// Vote for a new configuration.
    Reconfigure(Reconfigure),
    /// Post a result of observing a domain.
    Observe(Observe),
}

pub enum ActionView {
    Reconfigure(ReconfigureView),
    Observe(ObserveView),
}

impl View for Action {
    type V = ActionView;

    open spec fn view(&self) -> ActionView {
        match self {
            Action::Reconfigure(r) => ActionView::Reconfigure(r@),
            Action::Observe(o) => ActionView::Observe(o@),
        }
    }
}

/// An admin's vote for a configuration, valid in a span of time.
#[derive(Clone, Debug, PartialEq, Eq, PartialOrd, Ord, Hash)]
pub struct Reconfigure {
    pub config: Config,
    pub not_before: Time,
    pub not_after: Time,
    pub admin: Admin,
}

pub struct ReconfigureView {
    pub config: ConfigView,
    pub not_before: Time,
    pub not_after: Time,
    pub admin: Seq<u8>,
}

impl View for Reconfigure {
    type V = ReconfigureView;

    open spec fn view(&self) -> ReconfigureView {
        ReconfigureView {
            config: self.config@,
            not_before: self.not_before,
            not_after: self.not_after,
            admin: self.admin@,
        }
    }
}

/// The configuration of the chain.
#[derive(Clone, Debug, PartialEq, Eq, PartialOrd, Ord, Hash)]
pub struct Config {
    pub version: u32,
    pub admins: AdminConfig,
    pub oracles: OracleConfig,
    pub onion: OnionConfig,
    pub validators: Vec<Validator>,
}

pub struct ConfigView {
    pub version: u32,
    pub admins: AdminConfigView,
    pub oracles: OracleConfigView,
    pub onion: OnionConfig,
    pub validators: Seq<ValidatorView>,
}

impl View for Config {
    type V = ConfigView;

    open spec fn view(&self) -> ConfigView {
        ConfigView {
            version: self.version,
            admins: self.admins@,
            oracles: self.oracles@,
            onion: self.onion,
            validators: self.validators@.map_values(|v: Validator| v@),
        }
    }
}

/// A day, in seconds.
pub const DAY: u64 = 86_400;

/// The configuration that is handed out to be filled in: one admin and one oracle whose keys are
/// placeholders of zeros, no votes, and everything switched off.
pub open spec fn template_view(version: u32) -> ConfigView {
    ConfigView {
        version,
        admins: AdminConfigView {
            voting: VotingConfig {
                total: Total(0),
                quorum: Quorum(0),
                timeout: Timeout(Duration::whole(DAY)),
                delay: Delay(Duration::whole(0)),
            },
            authorized: seq![Seq::new(64, |i: int| 0u8)],
        },
        oracles: OracleConfigView {
            enabled: false,
            voting: VotingConfig {
                total: Total(0),
                quorum: Quorum(0),
                timeout: Timeout(Duration::whole(300)),
                delay: Delay(Duration::whole((7 * DAY) as u64)),
            },
            max_enrolled_subdomains: 1,
            observation_timeout: Duration::whole(300),
            authorized: seq![
                OracleView { identity: Seq::new(64, |i: int| 0u8), endpoint: "127.0.0.1"@ },
            ],
        },
        onion: OnionConfig { enabled: false },
        validators: Seq::empty(),
    }
}

impl Config {
    /// The configuration that is handed out to be filled in.
    pub fn template(version: u32) -> (r: Config)
        ensures
            r@ == template_view(version),
    {
        let admin: Vec<u8> = vec![0u8; 64];
        let oracle: Vec<u8> = vec![0u8; 64];
        let config = Config {
            version,
            admins: AdminConfig {
                voting: VotingConfig {
                    total: Total(0),
                    quorum: Quorum(0),
                    timeout: Timeout(Duration::from_secs(24 * 60 * 60)),
                    delay: Delay(Duration::from_secs(0)),
                },
                authorized: vec![Admin { identity: admin }],
            },
            oracles: OracleConfig {
                enabled: false,
                voting: VotingConfig {
                    total: Total(0),
                    quorum: Quorum(0),
                    timeout: Timeout(Duration::from_secs(5 * 60)),
                    delay: Delay(Duration::from_secs(7 * 24 * 60 * 60)),
                },
                max_enrolled_subdomains: 1,
                observation_timeout: Duration::from_secs(5 * 60),
                authorized: vec![Oracle { identity: oracle, endpoint: default_oracle_endpoint() }],
            },
            onion: OnionConfig { enabled: false },
            validators: Vec::new(),
        };
        proof {
            let expected = template_view(version);
            assert(admin@ =~= Seq::new(64, |i: int| 0u8));
            assert(oracle@ =~= Seq::new(64, |i: int| 0u8));
            assert(config.admins@.authorized =~= expected.admins.authorized);
            assert(config.oracles@.authorized =~= expected.oracles.authorized);
            assert(config@.validators =~= expected.validators);
        }
        config
    }
}

/// Who may change the configuration, and how they vote.
#[derive(Clone, Debug, PartialEq, Eq, PartialOrd, Ord, Hash)]
pub struct AdminConfig {
    pub voting: VotingConfig,
    pub authorized: Vec<Admin>,
}

pub struct AdminConfigView {
    pub voting: VotingConfig,
    pub authorized: Seq<Seq<u8>>,
}

impl View for AdminConfig {
    type V = AdminConfigView;

    open spec fn view(&self) -> AdminConfigView {
        AdminConfigView {
            voting: self.voting,
            authorized: self.authorized@.map_values(|a: Admin| a@),
        }
    }
}

/// An admin, by its public key.
#[derive(Clone, Debug, PartialEq, Eq, PartialOrd, Ord, Hash)]
pub struct Admin {
    pub identity: Vec<u8>,
}

impl View for Admin {
    type V = Seq<u8>;

    open spec fn view(&self) -> Seq<u8> {
        self.identity@
    }
}

/// A validator, by its public key, and its voting power.
#[derive(Clone, Debug, PartialEq, Eq, PartialOrd, Ord, Hash)]
pub struct Validator {
    pub public_key: Vec<u8>,
    pub power: u64,
}

pub struct ValidatorView {
    pub public_key: Seq<u8>,
    pub power: u64,
}

impl View for Validator {
    type V = ValidatorView;

    open spec fn view(&self) -> ValidatorView {
        ValidatorView { public_key: self.public_key@, power: self.power }
    }
}

/// Who may observe domains, how they vote, and the limits on what is observed.
#[derive(Clone, Debug, PartialEq, Eq, PartialOrd, Ord, Hash)]
pub struct OracleConfig {
    pub enabled: bool,
    pub voting: VotingConfig,
    pub max_enrolled_subdomains: u64,
    pub observation_timeout: Duration,
    pub authorized: Vec<Oracle>,
}

pub struct OracleConfigView {
    pub enabled: bool,
    pub voting: VotingConfig,
    pub max_enrolled_subdomains: u64,
    pub observation_timeout: Duration,
    pub authorized: Seq<OracleView>,
}

impl View for OracleConfig {
    type V = OracleConfigView;

    open spec fn view(&self) -> OracleConfigView {
        OracleConfigView {
            enabled: self.enabled,
            voting: self.voting,
            max_enrolled_subdomains: self.max_enrolled_subdomains,
            observation_timeout: self.observation_timeout,
            authorized: self.authorized@.map_values(|o: Oracle| o@),
        }
    }
}

/// An oracle, by its public key, and the domain name or IP address that it answers at.
#[derive(Clone, Debug, PartialEq, Eq, PartialOrd, Ord, Hash)]
pub struct Oracle {
    pub identity: Vec<u8>,
    pub endpoint: String,
}

pub struct OracleView {
    pub identity: Seq<u8>,
    pub endpoint: Seq<char>,
}

impl View for Oracle {
    type V = OracleView;

    open spec fn view(&self) -> OracleView {
        OracleView { identity: self.identity@, endpoint: self.endpoint@ }
    }
}

/// The endpoint of an oracle that names none.
pub fn default_oracle_endpoint() -> (r: String)
    ensures
        r@ == "127.0.0.1"@,
{
    "127.0.0.1".to_string()
}

/// An oracle's public key.
#[derive(Clone, Debug, PartialEq, Eq, PartialOrd, Ord, Hash)]
pub struct OracleIdentity {
    pub identity: Vec<u8>,
}

impl View for OracleIdentity {
    type V = Seq<u8>;

    open spec fn view(&self) -> Seq<u8> {
        self.identity@
    }
}

#[derive(Clone, Copy, Debug, PartialEq, Eq, PartialOrd, Ord, Hash)]
pub struct OnionConfig {
    pub enabled: bool,
}

#[derive(Clone, Copy, Debug, PartialEq, Eq, PartialOrd, Ord, Hash)]
pub struct VotingConfig {
    pub total: Total,
    /// The least number of votes for a vote result to be applied.
    pub quorum: Quorum,
    pub timeout: Timeout,
    /// How long a vote result waits before it is canonical. Another result in that time replaces
    /// it.
    pub delay: Delay,
}

#[derive(Clone, Copy, Debug, PartialEq, Eq, PartialOrd, Ord, Hash)]
pub struct Total(pub u64);

#[derive(Clone, Copy, Debug, PartialEq, Eq, PartialOrd, Ord, Hash)]
pub struct Quorum(pub u64);

#[derive(Clone, Copy, Debug, PartialEq, Eq, PartialOrd, Ord, Hash)]
pub struct Timeout(pub Duration);

#[derive(Clone, Copy, Debug, PartialEq, Eq, PartialOrd, Ord, Hash)]
pub struct Delay(pub Duration);

/// An oracle's vote on what a domain holds.
#[derive(Clone, Debug, PartialEq, Eq, PartialOrd, Ord, Hash)]
pub struct Observe {
    pub observation: Observation,
    pub oracle: OracleIdentity,
}

pub struct ObserveView {
    pub observation: ObservationView,
    pub oracle: Seq<u8>,
}

impl View for Observe {
    type V = ObserveView;

    open spec fn view(&self) -> ObserveView {
        ObserveView { observation: self.observation@, oracle: self.oracle@ }
    }
}

/// What was observed of a domain in a zone, and the block that it was observed at.
#[derive(Clone, Debug, PartialEq, Eq, PartialOrd, Ord, Hash)]
pub struct Observation {
    pub domain: Domain,
    pub zone: Zone,
    pub blockstamp: Blockstamp,
    pub hash_observed: HashObserved,
}

pub struct ObservationView {
    pub domain: Seq<Seq<char>>,
    pub zone: Seq<Seq<char>>,
    pub blockstamp: BlockstampView,
    pub hash_observed: HashObservedView,
}

impl View for Observation {
    type V = ObservationView;

    open spec fn view(&self) -> ObservationView {
        ObservationView {
            domain: self.domain@,
            zone: self.zone@,
            blockstamp: self.blockstamp@,
            hash_observed: self.hash_observed@,
        }
    }
}

/// The key of a thing that there is only one of. It is written as the empty text.
#[derive(Clone, Copy, Debug, PartialEq, Eq, PartialOrd, Ord, Hash)]
pub struct Empty;

impl Empty {
    /// The empty text.
    pub fn to_string(&self) -> (r: String)
        ensures
            r@ == Seq::<char>::empty(),
    {
        String::new()
    }

    /// Takes the empty text and nothing else.
    pub fn from_str(string: &str) -> (r: Result<Empty, ParseError>)
        ensures
            r is Ok <==> string@.len() == 0,
            r matches Err(e) ==> e@ == (error::ParseErrorView {
                target: Target::Empty,
                value: string@,
            }),
    {
        if string.is_empty() {
            Ok(Empty)
        } else {
            Err(ParseError::new(Target::Empty, string))
        }
    }
}

/// The hash of what was found at a domain, or that nothing was found.
#[derive(Clone, Copy, Debug, PartialEq, Eq, PartialOrd, Ord, Hash)]
pub enum HashObserved {
    Hash([u8; 32]),
    NotFound,
}

pub enum HashObservedView {
    Hash(Seq<u8>),
    NotFound,
}

impl View for HashObserved {
    type V = HashObservedView;

    open spec fn view(&self) -> HashObservedView {
        match self {
            HashObserved::Hash(hash) => HashObservedView::Hash(hash@),
            HashObserved::NotFound => HashObservedView::NotFound,
        }
    }
}

impl HashObserved {
    /// The hash in hexadecimal, or `NotFound`.
    pub fn debug_text(&self) -> (r: String)
        ensures
            r@ == (match self@ {
                HashObservedView::Hash(hash) => hexadecimal::hex_text(hash),
                HashObservedView::NotFound => "NotFound"@,
            }),
    {
        match self {
            HashObserved::Hash(hash) => hexadecimal::hex_encode(hash.as_slice()),
            HashObserved::NotFound => "NotFound".to_string(),
        }
    }
}

/// What oracles vote for: what is found at a domain, and the zone of the domain.
#[derive(Clone, Debug, PartialEq, Eq, PartialOrd, Ord, Hash)]
pub struct OracleVoteValue {
    pub hash_observed: HashObserved,
    pub zone: Zone,
}

pub struct OracleVoteValueView {
    pub hash_observed: HashObservedView,
    pub zone: Seq<Seq<char>>,
}

impl View for OracleVoteValue {
    type V = OracleVoteValueView;

    open spec fn view(&self) -> OracleVoteValueView {
        OracleVoteValueView { hash_observed: self.hash_observed@, zone: self.zone@ }
    }
}

/// A block, by its height and the application hash recorded for it.
#[derive(Clone, Debug, Eq, Ord)]
pub struct Blockstamp {
    pub block_height: u64,
    pub app_hash: Vec<u8>,
}

pub struct BlockstampView {
    pub block_height: u64,
    pub app_hash: Seq<u8>,
}

impl View for Blockstamp {
    type V = BlockstampView;

    open spec fn view(&self) -> BlockstampView {
        BlockstampView { block_height: self.block_height, app_hash: self.app_hash@ }
    }
}

impl vstd::std_specs::cmp::PartialEqSpecImpl for Blockstamp {
    open spec fn obeys_eq_spec() -> bool {
        true
    }

    open spec fn eq_spec(&self, other: &Blockstamp) -> bool {
        self@ == other@
    }
}

impl PartialEq for Blockstamp {
    fn eq(&self, other: &Blockstamp) -> (r: bool) {
        self.block_height == other.block_height && octets::same_bytes(
            self.app_hash.as_slice(),
            other.app_hash.as_slice(),
        )
    }
}

/// Trusted: `std::hash::Hash::hash` of a pair feeds its parts to the hasher in turn. What becomes of the
/// hasher is its own affair, and nothing is stated of it.
#[verifier::external_body]
fn hash_in_turn<H: std::hash::Hasher>(first: &[u8], second: u64, state: &mut H) {
    std::hash::Hash::hash(&(first, second), state)
}

impl std::hash::Hash for Blockstamp {
    fn hash<H: std::hash::Hasher>(&self, state: &mut H) {
        hash_in_turn(self.app_hash.as_slice(), self.block_height, state);
    }
}

/// How two blockstamps compare: by height, then by the bytes of the application hash.
pub open spec fn blockstamp_order(a: BlockstampView, b: BlockstampView) -> std::cmp::Ordering {
    if a.block_height < b.block_height {
        std::cmp::Ordering::Less
    } else if a.block_height > b.block_height {
        std::cmp::Ordering::Greater
    } else if octets::lex_less(a.app_hash, b.app_hash) {
        std::cmp::Ordering::Less
    } else if octets::lex_less(b.app_hash, a.app_hash) {
        std::cmp::Ordering::Greater
    } else {
        std::cmp::Ordering::Equal
    }
}

impl vstd::std_specs::cmp::PartialOrdSpecImpl for Blockstamp {
    open spec fn obeys_partial_cmp_spec() -> bool {
        true
    }

    open spec fn partial_cmp_spec(&self, other: &Blockstamp) -> Option<std::cmp::Ordering> {
        Some(blockstamp_order(self@, other@))
    }
}

impl PartialOrd for Blockstamp {
    fn partial_cmp(&self, other: &Blockstamp) -> (r: Option<std::cmp::Ordering>) {
        if self.block_height < other.block_height {
            Some(std::cmp::Ordering::Less)
        } else if self.block_height > other.block_height {
            Some(std::cmp::Ordering::Greater)
        } else if octets::bytes_less(self.app_hash.as_slice(), other.app_hash.as_slice()) {
            Some(std::cmp::Ordering::Less)
        } else if octets::bytes_less(other.app_hash.as_slice(), self.app_hash.as_slice()) {
            Some(std::cmp::Ordering::Greater)
        } else {
            Some(std::cmp::Ordering::Equal)
        }
    }
}

/// Blockstamps compare as equal exactly when they are equal, and swapping them turns the order
/// round.
pub proof fn lemma_blockstamp_order_total(a: BlockstampView, b: BlockstampView)
    ensures
        blockstamp_order(a, b) == std::cmp::Ordering::Equal <==> a == b,
        blockstamp_order(a, b) == std::cmp::Ordering::Less <==> blockstamp_order(b, a)
            == std::cmp::Ordering::Greater,
{
    octets::lemma_lex_total(a.app_hash, b.app_hash);
}

/// The order of blockstamps is transitive.
pub proof fn lemma_blockstamp_order_transitive(
    a: BlockstampView,
    b: BlockstampView,
    c: BlockstampView,
)
    requires
        blockstamp_order(a, b) == std::cmp::Ordering::Less,
        blockstamp_order(b, c) == std::cmp::Ordering::Less,
    ensures
        blockstamp_order(a, c) == std::cmp::Ordering::Less,
{
    if a.block_height == b.block_height && b.block_height == c.block_height {
        octets::lemma_lex_transitive(a.app_hash, b.app_hash, c.app_hash);
    }
}

} // verus!
