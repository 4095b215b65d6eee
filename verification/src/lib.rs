//! Verified building blocks of a few small systems programs.
//!
//! The larger part is the core of a layer-7 reverse proxy: the settings it
//! starts with ([`config`]), the set of upstreams that are alive
//! ([`upstream`]), the health round that refreshes that set ([`health`]),
//! the fixed-window rate limiter ([`rate_limit`]), the state machine of a
//! client connection ([`connection`]) and the value of the forwarding header
//! ([`header`]).
//!
//! Beside it stand the pure parts of a small debugger (reading commands and
//! addresses, patching a byte of a memory word, the decisions around a
//! breakpoint) and a singly linked list.
//!
//! The library does no input or output. Every function carries a contract
//! that Verus proves.

pub mod address;
pub mod config;
pub mod connection;
pub mod debugger;
pub mod debugger_command;
pub mod header;
pub mod health;
pub mod inferior;
pub mod linked_list;
pub mod rate_limit;
pub mod upstream;
pub mod word;
