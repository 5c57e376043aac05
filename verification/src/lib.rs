//! A small news-publishing backend: articles with categories, user
//! accounts with bcrypt-hashed passwords, and JWT-based identity, all
//! working against an in-memory table store with verified invariants.

pub mod auth;
pub mod category;
pub mod errors;
pub mod jwt;
pub mod laws;
pub mod middleware;
pub mod models;
pub mod news;
pub mod store;
