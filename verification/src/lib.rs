//! The core of felidae: transactions and the configuration of the chain, its state from block to block,
//! and the files that a network is deployed with.

pub mod clock;
pub mod cometbft;
pub mod cometbft_laws;
pub mod compose;
pub mod compose_laws;
pub mod convert;
pub mod convert_laws;
pub mod crypto;
pub mod deployment;
pub mod deployment_laws;
pub mod domain;
pub mod domain_laws;
pub mod error;
pub mod genesis;
pub mod genesis_laws;
pub mod hexadecimal;
pub mod json;
pub mod json_laws;
pub mod keys;
pub mod network;
pub mod network_laws;
pub mod network_outcomes;
pub mod node;
pub mod octets;
pub mod proto;
pub mod sequence;
pub mod state;
pub mod table;
pub mod text;
pub mod text_laws;
pub mod transaction;
