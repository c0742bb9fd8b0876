pub mod constants;
pub mod extentions;
pub mod game;
pub mod models;
pub mod controllers;
pub mod auth;
pub mod throttling;
