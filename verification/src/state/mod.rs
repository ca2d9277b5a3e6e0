//! The state of the chain: its configuration, its validators, and where it stands.

use vstd::prelude::*;

use crate::clock::Time;
use crate::crypto::PublicKey;
use crate::hexadecimal;
use crate::hexadecimal::HexError;
use crate::table::RowView;
use crate::table::Table;
use crate::text;
use crate::transaction::ChainId;
use crate::transaction::Config;
use crate::transaction::ConfigView;

pub mod block_laws;
pub mod config;
pub mod finalize_block;
pub mod init_chain;
pub mod outcome_laws;
pub mod refusal_laws;
pub mod validator;
pub mod validator_laws;

verus! {

/// The state of the chain.
pub struct State {
    chain_id: Option<ChainId>,
    config: Option<Config>,
    validators: Table,
    voted: Vec<PublicKey>,
    block_height: Option<u64>,
    block_time: Option<Time>,
}

pub struct StateView {
    pub chain_id: Option<Seq<char>>,
    /// The configuration, as its message keeps it.
    pub config: Option<ConfigView>,
    /// The power of each validator, under its key.
    pub validators: Seq<RowView>,
    /// The keys of the active validators that voted on the last block.
    pub voted: Seq<Seq<u8>>,
    pub block_height: Option<u64>,
    pub block_time: Option<Time>,
}

impl View for State {
    type V = StateView;

    closed spec fn view(&self) -> StateView {
        StateView {
            chain_id: match self.chain_id {
                Some(chain_id) => Some(chain_id@),
                None => None,
            },
            config: match self.config {
                Some(config) => Some(config@),
                None => None,
            },
            validators: self.validators@,
            voted: self.voted@.map_values(|k: PublicKey| k@),
            block_height: self.block_height,
            block_time: self.block_time,
        }
    }
}

impl State {
    /// The state before the chain begins.
    pub fn new() -> (r: State)
        ensures
            r@ == (StateView {
                chain_id: None,
                config: None,
                validators: Seq::empty(),
                voted: Seq::empty(),
                block_height: None,
                block_time: None,
            }),
    {
        let state = State {
            chain_id: None,
            config: None,
            validators: Table::new(),
            voted: Vec::new(),
            block_height: None,
            block_time: None,
        };
        assert(state@.voted =~= Seq::empty());
        state
    }

    /// The state once the validators are those of a table that was stored, whatever its rows are.
    pub fn with_stored_validators(self, validators: Table) -> (r: State)
        ensures
            r@ == (StateView { validators: validators@, ..self@ }),
    {
        State {
            chain_id: self.chain_id,
            config: self.config,
            validators,
            voted: self.voted,
            block_height: self.block_height,
            block_time: self.block_time,
        }
    }

    /// The name of the chain.
    pub fn chain_id(&self) -> (r: Option<&ChainId>)
        ensures
            self@.chain_id == (match r {
                Some(chain_id) => Some(chain_id@),
                None => None,
            }),
    {
        match &self.chain_id {
            Some(chain_id) => Some(chain_id),
            None => None,
        }
    }

    /// The power of each validator, under its key.
    pub fn validators(&self) -> (r: &Table)
        ensures
            r@ == self@.validators,
    {
        &self.validators
    }

    /// The keys of the active validators that voted on the last block.
    pub fn voted(&self) -> (r: &Vec<PublicKey>)
        ensures
            r@.map_values(|k: PublicKey| k@) == self@.voted,
    {
        &self.voted
    }

    /// The height of the last block.
    pub fn block_height(&self) -> (r: Option<u64>)
        ensures
            r == self@.block_height,
    {
        self.block_height
    }

    /// The time of the last block.
    pub fn block_time(&self) -> (r: Option<Time>)
        ensures
            r == self@.block_time,
    {
        self.block_time
    }
}

/// Why a step of the state was refused.
#[derive(Clone, Debug, PartialEq, Eq)]
pub enum StateError {
    /// No configuration was set.
    ConfigNotFound,
    /// The version of a new configuration is not above the current one.
    VersionNotGreater { version: u32, current: u32 },
    /// The total of votes is not the number of voters.
    TotalMismatch { total: u64, expected: u64 },
    /// No vote is needed.
    QuorumZero,
    /// More votes are needed than there are.
    QuorumAboveTotal { quorum: u64, total: u64 },
    /// No subdomain may be enrolled.
    SubdomainsZero,
    /// Fewer subdomains may be enrolled than before.
    SubdomainsDecrease,
    /// An admin's key is all zeros.
    AdminPlaceholder { index: usize },
    /// An oracle's key is all zeros.
    OraclePlaceholder { index: usize },
    /// A validator's power is too great.
    ValidatorPower { index: usize, power: u64 },
    /// A validator's key is all zeros.
    ValidatorPlaceholder { index: usize },
    /// A validator is declared a second time.
    ValidatorExists { public_key: PublicKey, power: u64 },
    /// A key in the state is no hexadecimal text.
    KeyNotHex { cause: HexError },
    /// A key in the state has the wrong length.
    InvalidPublicKey,
    /// A key in a configuration has the wrong length.
    InvalidPublicKeyInConfig,
    /// The chain does not begin at height 1.
    InitialHeight,
    /// The application state is no JSON.
    AppStateNotJson { cause: String },
    /// The application state names no configuration.
    NoConfigKey,
    /// The configuration in the application state cannot be read.
    ConfigNotReadable { cause: String },
    /// Genesis and configuration name different numbers of validators.
    ValidatorCounts { genesis: usize, config: usize },
    /// Genesis and configuration disagree on a validator's power.
    PowerMismatch { public_key: Vec<u8>, genesis: u64, config: u64 },
    /// A validator of genesis is missing in the configuration.
    NotInConfig { public_key: Vec<u8> },
}

pub enum StateErrorView {
    ConfigNotFound,
    VersionNotGreater { version: u32, current: u32 },
    TotalMismatch { total: u64, expected: u64 },
    QuorumZero,
    QuorumAboveTotal { quorum: u64, total: u64 },
    SubdomainsZero,
    SubdomainsDecrease,
    AdminPlaceholder { index: usize },
    OraclePlaceholder { index: usize },
    ValidatorPower { index: usize, power: u64 },
    ValidatorPlaceholder { index: usize },
    ValidatorExists { public_key: Seq<u8>, power: u64 },
    KeyNotHex { cause: HexError },
    InvalidPublicKey,
    InvalidPublicKeyInConfig,
    InitialHeight,
    AppStateNotJson { cause: Seq<char> },
    NoConfigKey,
    ConfigNotReadable { cause: Seq<char> },
    ValidatorCounts { genesis: usize, config: usize },
    PowerMismatch { public_key: Seq<u8>, genesis: u64, config: u64 },
    NotInConfig { public_key: Seq<u8> },
}

impl View for StateError {
    type V = StateErrorView;

    open spec fn view(&self) -> StateErrorView {
        match *self {
            StateError::ConfigNotFound => StateErrorView::ConfigNotFound,
            StateError::VersionNotGreater { version, current } => {
                StateErrorView::VersionNotGreater { version, current }
            },
            StateError::TotalMismatch { total, expected } => {
                StateErrorView::TotalMismatch { total, expected }
            },
            StateError::QuorumZero => StateErrorView::QuorumZero,
            StateError::QuorumAboveTotal { quorum, total } => {
                StateErrorView::QuorumAboveTotal { quorum, total }
            },
            StateError::SubdomainsZero => StateErrorView::SubdomainsZero,
            StateError::SubdomainsDecrease => StateErrorView::SubdomainsDecrease,
            StateError::AdminPlaceholder { index } => StateErrorView::AdminPlaceholder { index },
            StateError::OraclePlaceholder { index } => StateErrorView::OraclePlaceholder { index },
            StateError::ValidatorPower { index, power } => {
                StateErrorView::ValidatorPower { index, power }
            },
            StateError::ValidatorPlaceholder { index } => {
                StateErrorView::ValidatorPlaceholder { index }
            },
            StateError::ValidatorExists { public_key, power } => {
                StateErrorView::ValidatorExists { public_key: public_key@, power }
            },
            StateError::KeyNotHex { cause } => StateErrorView::KeyNotHex { cause },
            StateError::InvalidPublicKey => StateErrorView::InvalidPublicKey,
            StateError::InvalidPublicKeyInConfig => StateErrorView::InvalidPublicKeyInConfig,
            StateError::InitialHeight => StateErrorView::InitialHeight,
            StateError::AppStateNotJson { cause } => {
                StateErrorView::AppStateNotJson { cause: cause@ }
            },
            StateError::NoConfigKey => StateErrorView::NoConfigKey,
            StateError::ConfigNotReadable { cause } => {
                StateErrorView::ConfigNotReadable { cause: cause@ }
            },
            StateError::ValidatorCounts { genesis, config } => {
                StateErrorView::ValidatorCounts { genesis, config }
            },
            StateError::PowerMismatch { public_key, genesis, config } => {
                StateErrorView::PowerMismatch { public_key: public_key@, genesis, config }
            },
            StateError::NotInConfig { public_key } => {
                StateErrorView::NotInConfig { public_key: public_key@ }
            },
        }
    }
}

impl StateErrorView {
    /// What is said of the error.
    pub open spec fn words(self) -> Seq<char> {
        match self {
            StateErrorView::ConfigNotFound => {
                "config not found in state; is the state initialized?"@
            },
            StateErrorView::VersionNotGreater { version, current } => {
                "new config version "@ + text::decimal(version as nat)
                    + " must be greater than current version "@ + text::decimal(current as nat)
            },
            StateErrorView::TotalMismatch { total, expected } => {
                "voting config total "@ + text::decimal(total as nat)
                    + " does not match expected total "@ + text::decimal(expected as nat)
            },
            StateErrorView::QuorumZero => "voting config quorum must be non-zero"@,
            StateErrorView::QuorumAboveTotal { quorum, total } => {
                "voting config quorum "@ + text::decimal(quorum as nat)
                    + " cannot be greater than total "@ + text::decimal(total as nat)
            },
            StateErrorView::SubdomainsZero => "max_enrolled_subdomains must be non-zero"@,
            StateErrorView::SubdomainsDecrease => "max_enrolled_subdomains cannot decrease"@,
            StateErrorView::AdminPlaceholder { index } => {
                "admin at index "@ + text::decimal(index as nat)
                    + " has an all-zero identity (placeholder not replaced)"@
            },
            StateErrorView::OraclePlaceholder { index } => {
                "oracle at index "@ + text::decimal(index as nat)
                    + " has an all-zero identity (placeholder not replaced)"@
            },
            StateErrorView::ValidatorPower { index, power } => {
                "validator at index "@ + text::decimal(index as nat) + " has power "@
                    + text::decimal(power as nat) + " which exceeds maximum 4294967295"@
            },
            StateErrorView::ValidatorPlaceholder { index } => {
                "validator at index "@ + text::decimal(index as nat)
                    + " has an all-zero public key (placeholder not replaced)"@
            },
            StateErrorView::ValidatorExists { public_key, power } => {
                "validator "@ + hexadecimal::hex_text(public_key) + " already exists with power "@
                    + text::decimal(power as nat)
            },
            StateErrorView::KeyNotHex { cause } => hexadecimal::hex_error_text(cause),
            StateErrorView::InvalidPublicKey => "invalid ed25519 public key"@,
            StateErrorView::InvalidPublicKeyInConfig => "invalid ed25519 public key in config"@,
            StateErrorView::InitialHeight => "initial height must be 1"@,
            StateErrorView::AppStateNotJson { cause } => {
                "failed to parse app_state as JSON: "@ + cause
            },
            StateErrorView::NoConfigKey => "app_state must contain a 'config' key"@,
            StateErrorView::ConfigNotReadable { cause } => {
                "failed to deserialize config from app_state.config: "@ + cause
            },
            StateErrorView::ValidatorCounts { genesis, config } => {
                "genesis has "@ + text::decimal(genesis as nat) + " validators but config has "@
                    + text::decimal(config as nat) + " validators"@
            },
            StateErrorView::PowerMismatch { public_key, genesis, config } => {
                "validator "@ + hexadecimal::hex_text(public_key) + " has power "@
                    + text::decimal(genesis as nat) + " in genesis but "@
                    + text::decimal(config as nat) + " in config"@
            },
            StateErrorView::NotInConfig { public_key } => {
                "validator "@ + hexadecimal::hex_text(public_key) + " in genesis is not in config"@
            },
        }
    }
}

impl StateError {
    /// What is said of the error.
    pub fn message(&self) -> (r: String)
        ensures
            r@ == self@.words(),
    {
        match self {
            StateError::ConfigNotFound => {
                "config not found in state; is the state initialized?".to_string()
            },
            StateError::VersionNotGreater { version, current } => {
                let mut message = "new config version ".to_string();
                message.append(text::decimal_text(*version as u64).as_str());
                message.append(" must be greater than current version ");
                message.append(text::decimal_text(*current as u64).as_str());
                message
            },
            StateError::TotalMismatch { total, expected } => {
                let mut message = "voting config total ".to_string();
                message.append(text::decimal_text(*total).as_str());
                message.append(" does not match expected total ");
                message.append(text::decimal_text(*expected).as_str());
                message
            },
            StateError::QuorumZero => "voting config quorum must be non-zero".to_string(),
            StateError::QuorumAboveTotal { quorum, total } => {
                let mut message = "voting config quorum ".to_string();
                message.append(text::decimal_text(*quorum).as_str());
                message.append(" cannot be greater than total ");
                message.append(text::decimal_text(*total).as_str());
                message
            },
            StateError::SubdomainsZero => "max_enrolled_subdomains must be non-zero".to_string(),
            StateError::SubdomainsDecrease => "max_enrolled_subdomains cannot decrease".to_string(),
            StateError::AdminPlaceholder { index } => {
                let mut message = "admin at index ".to_string();
                message.append(text::decimal_text(*index as u64).as_str());
                message.append(" has an all-zero identity (placeholder not replaced)");
                message
            },
            StateError::OraclePlaceholder { index } => {
                let mut message = "oracle at index ".to_string();
                message.append(text::decimal_text(*index as u64).as_str());
                message.append(" has an all-zero identity (placeholder not replaced)");
                message
            },
            StateError::ValidatorPower { index, power } => {
                let mut message = "validator at index ".to_string();
                message.append(text::decimal_text(*index as u64).as_str());
                message.append(" has power ");
                message.append(text::decimal_text(*power).as_str());
                message.append(" which exceeds maximum 4294967295");
                message
            },
            StateError::ValidatorPlaceholder { index } => {
                let mut message = "validator at index ".to_string();
                message.append(text::decimal_text(*index as u64).as_str());
                message.append(" has an all-zero public key (placeholder not replaced)");
                message
            },
            StateError::ValidatorExists { public_key, power } => {
                let mut message = "validator ".to_string();
                message.append(hexadecimal::hex_encode(public_key.bytes.as_slice()).as_str());
                message.append(" already exists with power ");
                message.append(text::decimal_text(*power).as_str());
                message
            },
            StateError::KeyNotHex { cause } => hexadecimal::hex_error_message(*cause),
            StateError::InvalidPublicKey => "invalid ed25519 public key".to_string(),
            StateError::InvalidPublicKeyInConfig => {
                "invalid ed25519 public key in config".to_string()
            },
            StateError::InitialHeight => "initial height must be 1".to_string(),
            StateError::AppStateNotJson { cause } => {
                let mut message = "failed to parse app_state as JSON: ".to_string();
                message.append(cause.as_str());
                message
            },
            StateError::NoConfigKey => "app_state must contain a 'config' key".to_string(),
            StateError::ConfigNotReadable { cause } => {
                let mut message = "failed to deserialize config from app_state.config: ".to_string();
                message.append(cause.as_str());
                message
            },
            StateError::ValidatorCounts { genesis, config } => {
                let mut message = "genesis has ".to_string();
                message.append(text::decimal_text(*genesis as u64).as_str());
                message.append(" validators but config has ");
                message.append(text::decimal_text(*config as u64).as_str());
                message.append(" validators");
                message
            },
            StateError::PowerMismatch { public_key, genesis, config } => {
                let mut message = "validator ".to_string();
                message.append(hexadecimal::hex_encode(public_key.as_slice()).as_str());
                message.append(" has power ");
                message.append(text::decimal_text(*genesis).as_str());
                message.append(" in genesis but ");
                message.append(text::decimal_text(*config).as_str());
                message.append(" in config");
                message
            },
            StateError::NotInConfig { public_key } => {
                let mut message = "validator ".to_string();
                message.append(hexadecimal::hex_encode(public_key.as_slice()).as_str());
                message.append(" in genesis is not in config");
                message
            },
        }
    }
}

} // verus!
