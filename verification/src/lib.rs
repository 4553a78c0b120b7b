//! Normalisation of cryptocurrency exchange feeds: subscription commands,
//! control-frame filtering, message classification and the session state
//! machine, with every function verified against its contract.

pub mod coinbase_pro;
pub mod huobi;
pub mod json;
pub mod mexc;
pub mod model;
pub mod session;
pub mod subscription;
pub mod text;
pub mod token_set;
