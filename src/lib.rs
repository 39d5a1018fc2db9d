pub mod error;
pub mod health;
pub mod ids;
pub mod model;
pub mod publish;
pub mod search;
pub mod stats;
pub mod store;
pub mod verification;
