pub mod error;
pub mod util;
pub mod hash;
pub mod keypair;
pub mod encoding;
pub mod transaction;
pub mod hasher;
pub mod block;
pub mod state;
pub mod vm;
pub mod storage;
pub mod validator;
pub mod blockchain;
pub mod tx_pool;
pub mod message;
pub mod rpc;
pub mod server;
