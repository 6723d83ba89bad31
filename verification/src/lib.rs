//! Core of a multi-tenant identity / access-management backend.
//!
//! The crate models the generic scoped-resource framework that every other
//! module of such a system is built on:
//!
//! * `scope` — the ownership-path + scope-level visibility rule applied to
//!   every read and write;
//! * `sys_code` — fixed-width positional codes that make ancestor /
//!   descendant tests on category trees a plain prefix test;
//! * `item` — the generic resource item / kind / domain model with
//!   scope-filtered create / read / update / soft-delete / paginate;
//! * `rel` — directed, tagged relations between items, with optional
//!   attribute and time-window extensions;
//! * `set` — hierarchical category trees (org charts, menu and API trees)
//!   built on the positional codes;
//! * `cert` — the credential lifecycle: configuration rules, issuance,
//!   validation, lockout and rotation;
//! * `attr`, `role`, `account` — the IAM services wired on top of the core;
//! * `result` — the error model shared by all operations.
//!
//! Storage is an in-memory table per entity; a surrounding application owns
//! durability, transport and clock reads and passes plain values in.

pub mod account;
pub mod attr;
pub mod cert;
pub mod cp_cert;
pub mod item;
pub mod paging;
pub mod rel;
pub mod result;
pub mod role;
pub mod scope;
pub mod set;
pub mod sys_code;
pub mod table;

pub use result::ActionKind;
pub use result::RbumError;
pub use result::StatusCodeKind;
