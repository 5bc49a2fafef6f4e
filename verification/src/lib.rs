//! Core of a gRPC-aware reverse proxy: routing, health tracking, OIDC
//! sessions, certificate renewal and HTTP-to-HTTPS redirection.

pub mod acme;
pub mod auth;
pub mod base64;
pub mod clock;
pub mod config;
pub mod error;
pub mod health;
pub mod http;
pub mod proxy;
pub mod redirect;
pub mod routing;
pub mod startup;
pub mod text;
pub mod tokens;
pub mod urls;
