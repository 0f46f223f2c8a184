//! OneCipher: the decisions of the command-line wallet and secret manager.
pub mod audit;
pub mod codec;
pub mod commands;
pub mod curve;
pub mod daemon;
pub mod dispatch;
pub mod eip1559;
pub mod enclave_spawn;
pub mod environment;
pub mod error;
pub mod exit;
pub mod hash;
pub mod json;
pub mod manifest;
pub mod netagent;
pub mod order;
pub mod output;
pub mod path;
pub mod pattern;
pub mod rlp;
pub mod seqs;
pub mod text;
pub mod time;
