//! Accounts of the management services: users, organizations and roles.

pub mod phc;
pub mod user;
