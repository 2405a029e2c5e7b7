//! Members of a riding club and the rides they log, as served by a GraphQL API.
//!
//! The library holds the records the API hands out and the decisions its
//! resolvers make: which key a member lookup uses, how a stored row becomes a
//! record, and what a registration stores. Talking to the database and to HTTP
//! clients is left to the program around it.

pub mod date;
pub mod ident;
pub mod schema;
