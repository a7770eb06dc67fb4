pub mod claims;
pub mod primitives;
pub mod auth;
pub mod principal;
pub mod controller;
pub mod tools;
