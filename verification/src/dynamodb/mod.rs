//! DynamoDB output connector.

pub mod endpoint;
pub mod item;
pub mod plan;
pub mod request;
pub mod retry;
pub mod stats;
pub mod worker;
