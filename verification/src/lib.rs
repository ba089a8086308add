pub mod allowlist;
pub mod attempt;
pub mod client;
pub mod daemon;
pub mod executor;
pub mod expr;
pub mod fanout;
pub mod json;
pub mod mcp;
pub mod memory;
pub mod number;
pub mod order;
pub mod paths;
pub mod policy_crypto;
pub mod policy_sync;
pub mod providers;
pub mod ranking;
pub mod report;
pub mod result;
pub mod run;
pub mod session;
pub mod strmap;
pub mod text;
pub mod workflow;
pub mod worktree;
