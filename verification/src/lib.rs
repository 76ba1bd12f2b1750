//! Proportional capital-pool accounting: a share converter and a multi-pool
//! reward accumulator, as state machines over plain values.

pub mod account;
pub mod converter;
pub mod kinds;
pub mod math;
pub mod stake;
pub mod table;
