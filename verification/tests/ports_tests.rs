use dsh_shell::ports::{
    is_http_response, no_free_port_message, pick_port_step, probe_request, PortPick, PortProbe,
    PORT_WINDOW, PROBE_BUFFER_LEN, PROBE_TIMEOUT_MILLIS,
};

fn drive(start: u16, probes: &[PortProbe]) -> PortPick {
    let mut port = start;
    loop {
        match pick_port_step(start, port, probes[(port - start) as usize]) {
            PortPick::Next(q) => port = q,
            other => return other,
        }
    }
}

#[test]
fn probe_request_asks_for_the_root_and_closes() {
    assert_eq!(
        probe_request(3080),
        "GET / HTTP/1.1\r\nHost: 127.0.0.1:3080\r\nConnection: close\r\n\r\n"
    );
    assert_eq!(PROBE_BUFFER_LEN, 64);
    assert_eq!(PROBE_TIMEOUT_MILLIS, 500);
}

#[test]
fn http_replies_are_recognised_by_their_prefix() {
    assert!(is_http_response(b"HTTP/1.1 200 OK\r\n"));
    assert!(is_http_response(b"HTTP/"));
    assert!(!is_http_response(b"HTTP"));
    assert!(!is_http_response(b""));
    assert!(!is_http_response(b"http/1.1 200 OK"));
    assert!(!is_http_response(b"SSH-2.0-OpenSSH"));
    assert!(!is_http_response(b" HTTP/1.1"));
}

#[test]
fn pick_port_step_uses_free_and_serving_ports() {
    assert_eq!(pick_port_step(3080, 3080, PortProbe::Free), PortPick::Use(3080));
    assert_eq!(pick_port_step(3080, 3083, PortProbe::Serving), PortPick::Use(3083));
    assert_eq!(pick_port_step(3080, 3080, PortProbe::Occupied), PortPick::Next(3081));
    assert_eq!(pick_port_step(3080, 3088, PortProbe::Occupied), PortPick::Next(3089));
    assert_eq!(pick_port_step(3080, 3089, PortProbe::Occupied), PortPick::Exhausted);
    assert_eq!(pick_port_step(3080, 3089, PortProbe::Free), PortPick::Use(3089));
}

#[test]
fn picking_settles_on_the_first_usable_port() {
    assert_eq!(PORT_WINDOW, 10);
    let mut probes = [PortProbe::Occupied; 10];
    assert_eq!(drive(3080, &probes), PortPick::Exhausted);
    probes[6] = PortProbe::Free;
    probes[8] = PortProbe::Serving;
    assert_eq!(drive(3080, &probes), PortPick::Use(3086));
    probes[2] = PortProbe::Serving;
    assert_eq!(drive(3080, &probes), PortPick::Use(3082));
    assert_eq!(drive(65525, &[PortProbe::Occupied; 10]), PortPick::Exhausted);
}

#[test]
fn exhausted_window_error_names_the_range() {
    assert_eq!(no_free_port_message(3080), "no free port found in 3080..3090");
    assert_eq!(no_free_port_message(65525), "no free port found in 65525..65535");
}
