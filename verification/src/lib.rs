//! Query one DNS name against several resolvers and compare their answers.
//!
//! The library holds the logic of the tool: parsing a routing message for
//! the default gateway, normalizing a domain name to its fully-qualified
//! form, building the resolver set, and rendering each resolver's outcome
//! as printable lines. The surrounding binary does the socket and thread
//! work and hands plain values in and out.

pub mod addr;
pub mod dispatch;
pub mod query;
pub mod route;
