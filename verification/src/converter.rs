//! The share converter: deposits of an underlying asset against fungible
//! shares of the pool, and back.

pub mod engine;
pub mod laws;
pub mod model;
pub mod types;

pub use self::engine::{CapitalConverter, ConverterRecord};
pub use self::model::ConverterView;
pub use self::types::{
    Approval, Burn, Custody, Error, Mint, Payouts, SetMaxConvert, SetOperator, Transfer,
};
