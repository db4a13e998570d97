//! Verified request-handling logic of a Matrix homeserver: identifier and
//! token handling, federation and client request checks, push rule sets,
//! room directory pagination, sync timeline selection and the module
//! reload policy.
pub mod account;
pub mod account_data;
pub mod alias;
pub mod appservice;
pub mod cli;
pub mod directory;
pub mod error;
pub mod events;
pub mod federation;
pub mod history;
pub mod keys;
pub mod media;
pub mod membership;
pub mod missing_events;
pub mod mods;
pub mod pdu;
pub mod profile;
pub mod push_rules;
pub mod query;
pub mod report;
pub mod room;
pub mod room_version;
pub mod search;
pub mod session;
pub mod sync;
pub mod text;
pub mod transaction;
pub mod turn;
