//! Running and rebuilding Ethereum execution clients for benchmarks.

pub mod chain;
pub mod client;
pub mod command;
pub mod compile;
mod entropy;
pub mod error;
pub mod geth;
pub mod launch;
pub mod log;
pub mod outside;
pub mod path;
pub mod ready;
pub mod reth;
pub mod rpc;
pub mod secret;
pub mod stop;
pub mod text;
pub mod unwind;
pub mod verbatim;

pub use client::EthereumClient;
pub use geth::GethClient;
pub use reth::RethClient;
