//! Verified core of an admin backend: token handling, request context
//! building, cache indexing, operation-log records and the decisions the
//! HTTP middlewares take.

pub mod access;
pub mod cache_groups;
pub mod cache_index;
pub mod cache_plan;
pub mod cron;
pub mod config;
pub mod ctx;
pub mod ids;
pub mod job;
pub mod jwt;
pub mod links;
pub mod machine;
pub mod oper_log;
pub mod outcome;
pub mod role;
pub mod search;
pub mod upload;
pub mod text;
pub mod utf8_facts;
