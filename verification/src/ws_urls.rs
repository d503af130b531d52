//! URL configuration of the WebSocket project.

use vstd::prelude::*;
use crate::urls::{UnifiedRouter, WebSocketRoute};

verus! {

/// The WebSocket consumers: the echo consumer at `/ws`.
pub fn ws_url_patterns() -> (r: Vec<WebSocketRoute>)
    ensures
        r@.len() == 1,
        r@[0].path@ == "/ws"@,
        r@[0].name@ == "echo"@,
{
    let mut r: Vec<WebSocketRoute> = Vec::new();
    r.push(WebSocketRoute { path: "/ws", name: "echo" });
    r
}

/// The WebSocket application's routes: its consumers.
pub fn url_patterns() -> (r: UnifiedRouter)
    ensures
        r.mounts@.len() == 0,
        r.grpc@.len() == 0,
        r.websocket@.len() == 1,
        r.websocket@[0].path@ == "/ws"@,
        r.websocket@[0].name@ == "echo"@,
        !r.compression,
{
    UnifiedRouter { mounts: Vec::new(), grpc: Vec::new(), websocket: ws_url_patterns(), compression: false }
}

} // verus!
