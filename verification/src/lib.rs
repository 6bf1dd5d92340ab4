//! Departments and user-department associations: search criteria, the
//! compilation of criteria into conjunctive filters, the decisions around each
//! store round trip, and the mapping between HTTP and typed requests.

pub mod errors;
pub mod http;
pub mod laws;
pub mod membership_laws;
pub mod memberships;
pub mod models;
pub mod query;
pub mod requests;
pub mod routing;
pub mod search;
pub mod sequences;
pub mod store;
pub mod text;
