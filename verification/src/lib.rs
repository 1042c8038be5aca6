//! Verified core of a small shop back end: the records it stores, the
//! rules by which requests change them, the role checks that guard its
//! routes, and the bulk inserts it hands to the database.

pub mod auth;
pub mod controllers;
pub mod json;
pub mod laws;
pub mod middleware;
pub mod models;
pub mod patch;
pub mod services;
pub mod status;
pub mod text;
pub mod time;
