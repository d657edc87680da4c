//! What holds of the library as a whole.

pub mod claim;
pub mod message;
pub mod plain;
pub mod views;
pub mod wire;
