//! Request handling logic of the HttpArena benchmark application: query and
//! body parsing, response construction, HTML rendering of the fortunes page,
//! static file path checks, the CRUD cache, and the gRPC and WebSocket handlers.

pub mod strings;
pub mod request;
pub mod response;
pub mod html;
pub mod fortunes;
pub mod static_files;
pub mod models;
pub mod services;
pub mod views;
pub mod crud;
pub mod grpc;
pub mod websocket;
pub mod urls;
pub mod grpc_urls;
pub mod ws_urls;
pub mod compression;
pub mod dispatch;
pub mod config;


