//! The front door's routing decision. The public port carries both the
//! user's own HTTP traffic and the tunnel websocket; the first bytes of each
//! connection are sniffed for the request path, and connections asking for
//! the tunnel path are relayed to the tunnel port while everything else goes
//! to the workspace port.

use vstd::prelude::*;
use vstd::slice::slice_index_get;

use crate::scan::{find_byte_from, spec_find_byte};

verus! {

/// The public port the front door listens on.
pub const PROXY_PORT: u16 = 3321;

/// The port the tunnel websocket server listens on.
pub const SERVER_PORT: u16 = 3322;

/// The bytes of the tunnel path `/__atbws`.
pub open spec fn spec_tunnel_path() -> Seq<u8> {
    seq![47u8, 95u8, 95u8, 97u8, 116u8, 98u8, 119u8, 115u8]
}

/// Whether the first bytes of a connection ask for the tunnel: after the
/// first space of the request line, the path starts with `/__atbws`.
pub open spec fn spec_is_tunnel_request(head: Seq<u8>) -> bool {
    match spec_find_byte(head, 32) {
        Some(p) => {
            let path = head.skip(p + 1);
            path.len() >= 8 && path.take(8) == spec_tunnel_path()
        },
        None => false,
    }
}

/// The destination port for a connection whose first bytes are `head`: the
/// tunnel port for a tunnel request, otherwise the configured workspace port
/// — `None`, which the caller refuses, when no workspace port is known.
pub open spec fn spec_route(head: Seq<u8>, configured: Option<u16>) -> Option<u16> {
    if spec_is_tunnel_request(head) {
        Some(SERVER_PORT)
    } else {
        configured
    }
}

/// Picks the destination port from the first bytes read off an accepted
/// connection.
pub fn route_request(head: &[u8], configured: Option<u16>) -> (r: Option<u16>)
    ensures
        r == spec_route(head@, configured),
{
    assert(head@.skip(0) =~= head@);
    let p = match find_byte_from(head, 32, 0) {
        None => {
            return configured;
        },
        Some(p) => p,
    };
    let len = head.len();
    let ghost path = head@.skip(p as int + 1);
    if len - (p + 1) < 8 {
        return configured;
    }
    let b0 = *slice_index_get(head, p + 1);
    let b1 = *slice_index_get(head, p + 2);
    let b2 = *slice_index_get(head, p + 3);
    let b3 = *slice_index_get(head, p + 4);
    let b4 = *slice_index_get(head, p + 5);
    let b5 = *slice_index_get(head, p + 6);
    let b6 = *slice_index_get(head, p + 7);
    let b7 = *slice_index_get(head, p + 8);
    assert(path.take(8)[0] == b0 && path.take(8)[1] == b1 && path.take(8)[2] == b2 && path.take(
        8,
    )[3] == b3 && path.take(8)[4] == b4 && path.take(8)[5] == b5 && path.take(8)[6] == b6
        && path.take(8)[7] == b7);
    if b0 == 47 && b1 == 95 && b2 == 95 && b3 == 97 && b4 == 116 && b5 == 98 && b6 == 119 && b7
        == 115 {
        assert(path.take(8) =~= spec_tunnel_path());
        Some(SERVER_PORT)
    } else {
        assert(path.take(8) != spec_tunnel_path());
        configured
    }
}

} // verus!
