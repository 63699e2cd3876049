//! The protocol a request speaks, read from the method it stores.
use vstd::prelude::*;

use crate::response_view::is_lit;
use crate::text::{ascii_upper, chars_of, to_ascii_uppercase};

verus! {

/// The network protocol of a request: the kind of request, not its verb.
#[derive(Debug, Clone, Copy, PartialEq, Eq, Structural)]
pub enum RequestProtocol {
    Http,
    WebSocket,
    Grpc,
}

/// The protocol a stored method names, in any letter case: `WS` or
/// `WEBSOCKET` for WebSocket, `GRPC`, `GRPC_UNARY` or `GRPC_STREAMING` for
/// gRPC, and HTTP for everything else.
pub open spec fn protocol_of_method(method: Seq<char>) -> RequestProtocol {
    let u = ascii_upper(method);
    if u == "WS"@ || u == "WEBSOCKET"@ {
        RequestProtocol::WebSocket
    } else if u == "GRPC"@ || u == "GRPC_UNARY"@ || u == "GRPC_STREAMING"@ {
        RequestProtocol::Grpc
    } else {
        RequestProtocol::Http
    }
}

/// The short label shown in a protocol badge.
pub open spec fn protocol_label(p: RequestProtocol) -> Seq<char> {
    match p {
        RequestProtocol::Http => "HTTP"@,
        RequestProtocol::WebSocket => "WS"@,
        RequestProtocol::Grpc => "gRPC"@,
    }
}

impl RequestProtocol {
    /// The protocol a stored method names.
    pub fn from_method(method: &str) -> (r: Self)
        ensures
            r == protocol_of_method(method@),
    {
        let c = chars_of(method);
        let u = to_ascii_uppercase(c.as_slice());
        let s = u.as_slice();
        if is_lit(s, "WS") || is_lit(s, "WEBSOCKET") {
            RequestProtocol::WebSocket
        } else if is_lit(s, "GRPC") || is_lit(s, "GRPC_UNARY") || is_lit(s, "GRPC_STREAMING") {
            RequestProtocol::Grpc
        } else {
            RequestProtocol::Http
        }
    }

    /// The short label shown in a protocol badge.
    pub fn label(self) -> (r: &'static str)
        ensures
            r@ == protocol_label(self),
    {
        match self {
            RequestProtocol::Http => "HTTP",
            RequestProtocol::WebSocket => "WS",
            RequestProtocol::Grpc => "gRPC",
        }
    }
}

} // verus!
