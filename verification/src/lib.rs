//! Decision logic of the Feldera connectors.

pub mod clock;
pub mod dynamodb;
pub mod solace;
pub mod text;
pub mod validation;
