//! Probing loopback ports and choosing the port the server runs on.

use vstd::prelude::*;
use crate::text::{
    decimal, lemma_number_field, lemma_number_field_unique, number_field, push_decimal,
};

verus! {

/// How many bytes of a reply the readiness probe reads at most.
pub const PROBE_BUFFER_LEN: usize = 64;

/// How long the readiness probe waits on a read or a write, in milliseconds.
pub const PROBE_TIMEOUT_MILLIS: u64 = 500;

/// How many consecutive ports, from the first one, are tried for the server.
pub const PORT_WINDOW: u16 = 10;

/// The request that the readiness probe sends to `127.0.0.1:<port>`.
pub open spec fn probe_request_text(port: nat) -> Seq<char> {
    "GET / HTTP/1.1\r\nHost: 127.0.0.1:"@ + decimal(port) + "\r\nConnection: close\r\n\r\n"@
}

/// Law: the probe's `Host` header names the probed port: right after
/// `Host: 127.0.0.1:` stands a digit run, ended by the line's `\r`, that
/// reads back as the port.
pub proof fn lemma_probe_request_names_port(port: u16)
    ensures
        probe_request_text(port as nat).take("GET / HTTP/1.1\r\nHost: 127.0.0.1:"@.len() as int)
            == "GET / HTTP/1.1\r\nHost: 127.0.0.1:"@,
        exists|j: int|
            number_field(
                probe_request_text(port as nat),
                "GET / HTTP/1.1\r\nHost: 127.0.0.1:"@.len() as int,
                j,
                port as nat,
                u16::MAX as nat,
            ) && probe_request_text(port as nat)[j] == '\r',
{
    let tail = "\r\nConnection: close\r\n\r\n"@;
    reveal_strlit("\r\nConnection: close\r\n\r\n");
    let d = decimal(port as nat);
    lemma_number_field("GET / HTTP/1.1\r\nHost: 127.0.0.1:"@, port as nat, tail, u16::MAX as nat);
    let j = ("GET / HTTP/1.1\r\nHost: 127.0.0.1:"@.len() + d.len()) as int;
    assert(probe_request_text(port as nat) =~= "GET / HTTP/1.1\r\nHost: 127.0.0.1:"@ + d + tail);
    assert(probe_request_text(port as nat)[j] == tail[0]);
}

/// Law: probes of different ports send different requests.
pub proof fn lemma_probe_request_injective(p: u16, q: u16)
    ensures
        p != q ==> probe_request_text(p as nat) != probe_request_text(q as nat),
{
    if probe_request_text(p as nat) == probe_request_text(q as nat) {
        lemma_probe_request_names_port(p);
        lemma_probe_request_names_port(q);
        let s = probe_request_text(p as nat);
        let i = "GET / HTTP/1.1\r\nHost: 127.0.0.1:"@.len() as int;
        let j1 = choose|j: int| number_field(s, i, j, p as nat, u16::MAX as nat) && s[j] == '\r';
        let j2 = choose|j: int|
            number_field(probe_request_text(q as nat), i, j, q as nat, u16::MAX as nat)
                && probe_request_text(q as nat)[j] == '\r';
        lemma_number_field_unique(s, i, j1, j2, p as nat, q as nat, u16::MAX as nat);
    }
}

/// The HTTP request that asks the server on `port` for `/` and closes the
/// connection afterwards.
pub fn probe_request(port: u16) -> (req: String)
    ensures
        req@ == probe_request_text(port as nat),
{
    let mut req = String::from_str("GET / HTTP/1.1\r\nHost: 127.0.0.1:");
    push_decimal(&mut req, port as u64);
    req.append("\r\nConnection: close\r\n\r\n");
    req
}

/// The bytes `HTTP/` that every HTTP response starts with.
pub open spec fn http_prefix() -> Seq<u8> {
    seq![72u8, 84u8, 84u8, 80u8, 47u8]
}

/// Whether the bytes read from a port are the start of an HTTP response,
/// that is, whether they begin with `HTTP/`. Any HTTP response means a
/// server owns the port.
pub fn is_http_response(reply: &[u8]) -> (b: bool)
    ensures
        b == (reply@.len() >= 5 && reply@.take(5) == http_prefix()),
{
    let ok = reply.len() >= 5 && reply[0] == 72u8 && reply[1] == 84u8 && reply[2] == 84u8
        && reply[3] == 80u8 && reply[4] == 47u8;
    proof {
        if reply@.len() >= 5 {
            if ok {
                assert(reply@.take(5) =~= http_prefix());
            } else {
                assert(reply@.take(5) != http_prefix()) by {
                    if reply@.take(5) == http_prefix() {
                        assert(reply@.take(5)[0] == reply@[0]);
                        assert(reply@.take(5)[1] == reply@[1]);
                        assert(reply@.take(5)[2] == reply@[2]);
                        assert(reply@.take(5)[3] == reply@[3]);
                        assert(reply@.take(5)[4] == reply@[4]);
                    }
                }
            }
        }
    }
    ok
}

/// What probing a port found.
#[derive(Clone, Copy, Debug, PartialEq, Eq, Structural)]
pub enum PortProbe {
    /// The port answers HTTP: a server from an earlier run can be reused.
    Serving,
    /// Something accepts connections on the port but does not answer HTTP.
    Occupied,
    /// Nothing accepts connections on the port.
    Free,
}

/// What to do after probing a port.
#[derive(Clone, Copy, Debug, PartialEq, Eq, Structural)]
pub enum PortPick {
    /// Run the server on this port (or reuse the one serving there).
    Use(u16),
    /// Probe this port next.
    Next(u16),
    /// Every port of the window is occupied.
    Exhausted,
}

/// The decision after probing `port`, the window being
/// `start..start + PORT_WINDOW`.
pub open spec fn pick_step(start: u16, port: u16, probe: PortProbe) -> PortPick {
    if probe != PortProbe::Occupied {
        PortPick::Use(port)
    } else if port + 1 < start + PORT_WINDOW {
        PortPick::Next((port + 1) as u16)
    } else {
        PortPick::Exhausted
    }
}

/// Decides what to do after probing `port` while looking for the first port
/// of `start..start + PORT_WINDOW` that is free or already serving HTTP: a
/// port found so is used, an occupied one is skipped.
pub fn pick_port_step(start: u16, port: u16, probe: PortProbe) -> (pick: PortPick)
    requires
        start <= u16::MAX - PORT_WINDOW,
        start <= port < start + PORT_WINDOW,
    ensures
        pick == pick_step(start, port, probe),
{
    match probe {
        PortProbe::Occupied => {
            if port + 1 < start + PORT_WINDOW {
                PortPick::Next(port + 1)
            } else {
                PortPick::Exhausted
            }
        },
        _ => PortPick::Use(port),
    }
}

/// The outcome of probing from `port` on, port after port as `pick_step`
/// says, where `probes[i]` is what probing `start + i` finds.
#[verifier::opaque]
pub open spec fn pick_run(start: u16, port: u16, probes: Seq<PortProbe>) -> PortPick
    decreases start + PORT_WINDOW - port,
{
    if start <= port < start + PORT_WINDOW && port - start < probes.len() {
        match pick_step(start, port, probes[port - start]) {
            PortPick::Next(q) => if q > port {
                pick_run(start, q, probes)
            } else {
                PortPick::Exhausted
            },
            other => other,
        }
    } else {
        PortPick::Exhausted
    }
}

proof fn lemma_pick_run_uses(start: u16, port: u16, probes: Seq<PortProbe>, j: int)
    requires
        start <= u16::MAX - PORT_WINDOW,
        start <= port,
        probes.len() >= PORT_WINDOW,
        port - start <= j < PORT_WINDOW,
        probes[j] != PortProbe::Occupied,
        forall|k: int| port - start <= k < j ==> probes[k] == PortProbe::Occupied,
    ensures
        pick_run(start, port, probes) == PortPick::Use((start + j) as u16),
    decreases j - (port - start),
{
    reveal(pick_run);
    if port - start < j {
        assert(probes[port - start] == PortProbe::Occupied);
        lemma_pick_run_uses(start, (port + 1) as u16, probes, j);
    }
}

proof fn lemma_pick_run_exhausted(start: u16, port: u16, probes: Seq<PortProbe>)
    requires
        start <= u16::MAX - PORT_WINDOW,
        start <= port < start + PORT_WINDOW,
        probes.len() >= PORT_WINDOW,
        forall|k: int| port - start <= k < PORT_WINDOW ==> probes[k] == PortProbe::Occupied,
    ensures
        pick_run(start, port, probes) == PortPick::Exhausted,
    decreases start + PORT_WINDOW - port,
{
    reveal(pick_run);
    assert(probes[port - start] == PortProbe::Occupied);
    if port + 1 < start + PORT_WINDOW {
        lemma_pick_run_exhausted(start, (port + 1) as u16, probes);
    }
}

/// Whether every port of the window is occupied.
pub open spec fn all_occupied(probes: Seq<PortProbe>) -> bool {
    forall|i: int| 0 <= i < PORT_WINDOW ==> #[trigger] probes[i] == PortProbe::Occupied
}

/// Whether `start + j` is the first port of the window that is free or
/// serving.
pub open spec fn first_usable_at(probes: Seq<PortProbe>, j: int) -> bool {
    &&& 0 <= j < PORT_WINDOW
    &&& probes[j] != PortProbe::Occupied
    &&& forall|k: int| 0 <= k < j ==> #[trigger] probes[k] == PortProbe::Occupied
}

/// Law: probing `start`, `start + 1`, ... with `pick_port_step` settles on
/// the first port of the window that is free or already serving HTTP, and
/// ends `Exhausted` exactly when every port of the window is occupied.
pub proof fn lemma_pick_port_first_usable(start: u16, probes: Seq<PortProbe>)
    requires
        start <= u16::MAX - PORT_WINDOW,
        probes.len() >= PORT_WINDOW,
    ensures
        forall|j: int|
            #[trigger] first_usable_at(probes, j) ==> pick_run(start, start, probes)
                == PortPick::Use((start + j) as u16),
        all_occupied(probes) <==> pick_run(start, start, probes) == PortPick::Exhausted,
{
    assert forall|j: int| #[trigger] first_usable_at(probes, j) implies pick_run(start, start, probes)
        == PortPick::Use((start + j) as u16) by {
        lemma_pick_run_uses(start, start, probes, j);
    }
    if all_occupied(probes) {
        lemma_pick_run_exhausted(start, start, probes);
    } else {
        let i = choose|i: int| 0 <= i < PORT_WINDOW && probes[i] != PortProbe::Occupied;
        let j = lemma_first_usable_exists(probes, i);
        lemma_pick_run_uses(start, start, probes, j);
    }
}

proof fn lemma_first_usable_exists(probes: Seq<PortProbe>, i: int) -> (j: int)
    requires
        0 <= i < PORT_WINDOW,
        i < probes.len(),
        probes[i] != PortProbe::Occupied,
    ensures
        first_usable_at(probes, j),
    decreases i,
{
    if forall|k: int| 0 <= k < i ==> #[trigger] probes[k] == PortProbe::Occupied {
        i
    } else {
        let k = choose|k: int| 0 <= k < i && probes[k] != PortProbe::Occupied;
        lemma_first_usable_exists(probes, k)
    }
}

/// The text of the error when every port of `start..start + PORT_WINDOW` is
/// occupied.
pub open spec fn no_free_port_text(start: nat) -> Seq<char> {
    "no free port found in "@ + decimal(start) + ".."@ + decimal((start + PORT_WINDOW) as nat)
}

/// The error when every port of `start..start + PORT_WINDOW` is occupied.
pub fn no_free_port_message(start: u16) -> (msg: String)
    requires
        start <= u16::MAX - PORT_WINDOW,
    ensures
        msg@ == no_free_port_text(start as nat),
{
    let mut msg = String::from_str("no free port found in ");
    push_decimal(&mut msg, start as u64);
    msg.append("..");
    push_decimal(&mut msg, (start + PORT_WINDOW) as u64);
    msg
}

} // verus!
