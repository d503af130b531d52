//! URL configuration of the gRPC project.

use vstd::prelude::*;
use crate::urls::{Mount, ServerRouter, UnifiedRouter};

verus! {

/// The limits of the gRPC server.
pub struct GrpcServerSettings {
    pub max_decoding_message_size: usize,
    pub max_encoding_message_size: usize,
    pub request_timeout_secs: u64,
    pub max_concurrent_connections: usize,
}

/// A gRPC service as the router serves it.
pub struct GrpcService {
    pub name: &'static str,
    pub max_decoding_message_size: usize,
    pub max_encoding_message_size: usize,
}

/// The settings that the benchmark server is built with: 4 MiB messages
/// both ways, a 30 s request timeout and at most 4096 connections.
pub fn grpc_server_settings() -> (s: GrpcServerSettings)
    ensures
        s.max_decoding_message_size == 4 * 1024 * 1024,
        s.max_encoding_message_size == 4 * 1024 * 1024,
        s.request_timeout_secs == 30,
        s.max_concurrent_connections == 4096,
{
    GrpcServerSettings {
        max_decoding_message_size: 4 * 1024 * 1024,
        max_encoding_message_size: 4 * 1024 * 1024,
        request_timeout_secs: 30,
        max_concurrent_connections: 4096,
    }
}

/// The gRPC services: `benchmark.BenchmarkService` with the message size
/// limits of `grpc_server_settings`.
pub fn grpc_services() -> (r: Vec<GrpcService>)
    ensures
        r@.len() == 1,
        r@[0].name@ == "benchmark.BenchmarkService"@,
        r@[0].max_decoding_message_size == 4 * 1024 * 1024,
        r@[0].max_encoding_message_size == 4 * 1024 * 1024,
{
    let settings = grpc_server_settings();
    let mut r: Vec<GrpcService> = Vec::new();
    r.push(
        GrpcService {
            name: "benchmark.BenchmarkService",
            max_decoding_message_size: settings.max_decoding_message_size,
            max_encoding_message_size: settings.max_encoding_message_size,
        },
    );
    r
}

/// The gRPC project's application: no HTTP endpoints under `/` and the
/// benchmark gRPC service.
pub fn url_patterns() -> (r: UnifiedRouter)
    ensures
        r.mounts@.len() == 1,
        r.mounts@[0].prefix@ == "/"@,
        r.mounts@[0].router.endpoints@.len() == 0,
        r.grpc@.len() == 1,
        r.grpc@[0].name@ == "benchmark.BenchmarkService"@,
        r.grpc@[0].max_decoding_message_size == 4 * 1024 * 1024,
        r.grpc@[0].max_encoding_message_size == 4 * 1024 * 1024,
        r.websocket@.len() == 0,
        !r.compression,
{
    let mut mounts: Vec<Mount> = Vec::new();
    mounts.push(Mount { prefix: "/", router: ServerRouter { endpoints: Vec::new() } });
    UnifiedRouter { mounts, grpc: grpc_services(), websocket: Vec::new(), compression: false }
}

/// The gRPC project: its application's routes.
pub fn routes() -> (r: UnifiedRouter)
    ensures
        r.mounts@.len() == 1,
        r.mounts@[0].prefix@ == "/"@,
        r.mounts@[0].router.endpoints@.len() == 0,
        r.grpc@.len() == 1,
        r.grpc@[0].name@ == "benchmark.BenchmarkService"@,
        r.grpc@[0].max_decoding_message_size == 4 * 1024 * 1024,
        r.grpc@[0].max_encoding_message_size == 4 * 1024 * 1024,
        r.websocket@.len() == 0,
        !r.compression,
{
    url_patterns()
}

} // verus!
