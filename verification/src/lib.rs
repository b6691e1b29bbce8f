//! A client library for the Paperless-ngx document server.
pub mod api;
pub mod cli;
pub mod demo;
pub mod demo_data;
pub mod error;
pub mod filename;
pub mod json;
pub mod services;
pub mod text;
