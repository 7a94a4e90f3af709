//! Authorization-code grant for a single local user: the callback query
//! grammar, the callback receiver's decisions, the authorization request and
//! the token cache record, and the decisions of the flow that joins them.

mod text;

pub mod query;
pub mod callback;
pub mod authorize;
pub mod cache;
pub mod flow;
