//! A privileged local action broker: policy, allowlists, rate limiting,
//! confirmation queue and a hash-chained audit log.
pub mod audit;
pub mod clock;
pub mod config;
pub mod confirm;
pub mod events;
pub mod handlers;
pub mod model;
pub mod pipeline;
pub mod policy;
pub mod rate_limit;
pub mod text;
pub mod validate;
