//! JSON-RPC 2.0 messages, dispatch rules and connection state.

pub mod args;
pub mod auth;
pub mod batch;
pub mod client;
pub mod config;
pub mod credentials;
pub mod derive;
pub mod dispatch;
pub mod error;
pub mod fields;
pub mod frame;
pub mod http;
pub mod id_map;
pub mod json;
pub mod laws;
pub mod rename;
pub mod request;
pub mod response;
pub mod server;
pub mod service;
pub mod shape;
pub mod stream;
pub mod subscription;
pub mod text;
pub mod websocket;
