//! A house-events manager: people, events, bonus points and rewards, with
//! role-based permissions.
pub mod auth;
pub mod cfg;
pub mod error;
pub mod image_format;
pub mod liquid_utils;
pub mod routes;
pub mod sorting;
pub mod state;
pub mod text;
