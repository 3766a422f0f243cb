use decork::handshake::rejection_message;
use decork::relay::{advance, start, CopyAction, CopyEvent, CopyState};
use decork::tunnel::{Tunnel, TunnelAction};

fn reading(destination: &str, credential: Option<&str>) -> Tunnel {
    let mut tunnel = Tunnel::start("proxy.local:8080", destination, credential);
    tunnel.completed();
    tunnel.completed();
    tunnel.completed();
    assert_eq!(tunnel.action(), TunnelAction::ReadReply { capacity: 8192 });
    tunnel
}

#[test]
fn tunnel_connects_then_sends_then_flushes_then_reads() {
    let mut tunnel = Tunnel::start("proxy.local:8080", "example.com:443", None);
    assert_eq!(tunnel.action(), TunnelAction::Connect);
    assert_eq!(tunnel.proxy(), "proxy.local:8080");
    tunnel.completed();
    assert_eq!(tunnel.action(), TunnelAction::SendRequest);
    assert_eq!(tunnel.request(), "CONNECT example.com:443 HTTP/1.0\r\n\r\n");
    tunnel.completed();
    assert_eq!(tunnel.action(), TunnelAction::FlushRequest);
    tunnel.completed();
    assert_eq!(tunnel.action(), TunnelAction::ReadReply { capacity: 8192 });
    tunnel.completed();
    assert_eq!(tunnel.action(), TunnelAction::ReadReply { capacity: 8192 });
}

#[test]
fn accepted_tunnel_yields_a_working_relay() {
    let mut tunnel = Tunnel::start("proxy.local:8080", "example.com:443", Some("alice:secret"));
    assert_eq!(tunnel.proxy(), "proxy.local:8080");
    assert_eq!(
        tunnel.request(),
        "CONNECT example.com:443 HTTP/1.0\r\nProxy-Authorization: Basic YWxpY2U6c2VjcmV0\r\n\r\n"
    );
    tunnel.completed();
    tunnel.completed();
    tunnel.completed();
    tunnel.received(b"200 Connection established\r\n\r\n");
    assert_eq!(tunnel.action(), TunnelAction::DeliverSurplus);
    assert_eq!(tunnel.surplus(), b"");
    tunnel.completed();
    assert_eq!(tunnel.action(), TunnelAction::FlushSurplus);
    tunnel.completed();
    assert_eq!(tunnel.action(), TunnelAction::StartRelay);

    let (state, action) = start();
    assert_eq!(action, CopyAction::Read { capacity: 8192 });
    let (state, action) = advance(state, CopyEvent::Read { piece: b"hello world\n" });
    assert_eq!(action, CopyAction::Write { piece: b"hello world\n" });
    let (state, _) = advance(state, CopyEvent::Written);
    let (state, _) = advance(state, CopyEvent::Flushed);
    assert_eq!(state, CopyState::Reading);
}

#[test]
fn refused_tunnel_names_the_status_and_never_relays() {
    let mut tunnel = reading("example.com:443", Some("alice:secret"));
    tunnel.received(b"407 Unauthorized\r\n\r\n");
    assert_eq!(tunnel.action(), TunnelAction::ReportRefusal);
    assert_eq!(tunnel.diagnostic(), b"407 Unauthorized\r\n");
    assert_eq!(tunnel.surplus(), b"");
    assert!(rejection_message(tunnel.diagnostic()).contains("407"));
    tunnel.completed();
    assert_eq!(tunnel.action(), TunnelAction::ReportRefusal);
    tunnel.received(b"200 OK\r\n\r\n");
    assert_eq!(tunnel.action(), TunnelAction::ReportRefusal);
    tunnel.failed();
    assert_eq!(tunnel.action(), TunnelAction::ReportRefusal);
    assert_eq!(tunnel.diagnostic(), b"407 Unauthorized\r\n");
}

#[test]
fn surplus_is_delivered_before_the_relay_starts() {
    let mut tunnel = reading("example.com:22", None);
    tunnel.received(b"HTTP/1.0 200 OK\r\nVia: proxy\r\n");
    assert_eq!(tunnel.action(), TunnelAction::ReadReply { capacity: 8192 });
    tunnel.received(b"\r\nSSH-2.0-server\r\n");
    assert_eq!(tunnel.action(), TunnelAction::DeliverSurplus);
    assert_eq!(tunnel.surplus(), b"SSH-2.0-server\r\n");
    assert_eq!(tunnel.diagnostic(), b"");
    tunnel.received(b"ignored");
    assert_eq!(tunnel.surplus(), b"SSH-2.0-server\r\n");
    tunnel.completed();
    tunnel.completed();
    assert_eq!(tunnel.action(), TunnelAction::StartRelay);
    assert_eq!(tunnel.surplus(), b"SSH-2.0-server\r\n");
}

#[test]
fn stream_ending_early_refuses_the_tunnel() {
    let mut tunnel = reading("example.com:22", None);
    tunnel.received(b"HTTP/1.0 200 OK\r\nVia: proxy\r\n");
    tunnel.received(b"");
    assert_eq!(tunnel.action(), TunnelAction::ReportRefusal);
    assert_eq!(tunnel.diagnostic(), b"HTTP/1.0 200 OK\r\n");

    let mut tunnel = reading("example.com:22", None);
    tunnel.received(b"HTTP/1.0 2");
    tunnel.received(b"");
    assert_eq!(tunnel.action(), TunnelAction::ReportRefusal);
    assert_eq!(tunnel.diagnostic(), b"HTTP/1.0 2");

    let mut tunnel = reading("example.com:22", None);
    tunnel.received(b"");
    assert_eq!(tunnel.action(), TunnelAction::ReportRefusal);
    assert_eq!(tunnel.diagnostic(), b"");
}

#[test]
fn failed_read_counts_as_the_end_of_the_reply() {
    let mut tunnel = reading("example.com:22", None);
    tunnel.received(b"HTTP/1.0 200 OK\r\n");
    tunnel.failed();
    assert_eq!(tunnel.action(), TunnelAction::ReportRefusal);
    assert_eq!(tunnel.diagnostic(), b"HTTP/1.0 200 OK\r\n");
}

#[test]
fn failed_write_or_flush_breaks_the_tunnel() {
    let mut tunnel = Tunnel::start("proxy.local:8080", "example.com:22", None);
    tunnel.completed();
    tunnel.failed();
    assert_eq!(tunnel.action(), TunnelAction::ReportFailure);

    let mut tunnel = Tunnel::start("proxy.local:8080", "example.com:22", None);
    tunnel.completed();
    tunnel.completed();
    tunnel.failed();
    assert_eq!(tunnel.action(), TunnelAction::ReportFailure);

    let mut tunnel = reading("example.com:22", None);
    tunnel.received(b"200\r\n\r\nabc");
    tunnel.failed();
    assert_eq!(tunnel.action(), TunnelAction::ReportFailure);

    let mut tunnel = reading("example.com:22", None);
    tunnel.received(b"200\r\n\r\nabc");
    tunnel.completed();
    tunnel.failed();
    assert_eq!(tunnel.action(), TunnelAction::ReportFailure);
    tunnel.completed();
    tunnel.received(b"200\r\n\r\n");
    assert_eq!(tunnel.action(), TunnelAction::ReportFailure);
}

#[test]
fn bytes_are_not_taken_before_the_request_is_out() {
    let mut tunnel = Tunnel::start("proxy.local:8080", "example.com:22", None);
    tunnel.received(b"200 OK\r\n\r\n");
    assert_eq!(tunnel.action(), TunnelAction::Connect);
    tunnel.completed();
    tunnel.received(b"200 OK\r\n\r\n");
    assert_eq!(tunnel.action(), TunnelAction::SendRequest);
    tunnel.completed();
    tunnel.received(b"200 OK\r\n\r\n");
    assert_eq!(tunnel.action(), TunnelAction::FlushRequest);
    tunnel.completed();
    tunnel.received(b"503 Busy\r\n");
    assert_eq!(tunnel.action(), TunnelAction::ReportRefusal);
    assert_eq!(tunnel.diagnostic(), b"503 Busy\r\n");
}

#[test]
fn open_tunnel_stays_open() {
    let mut tunnel = reading("example.com:22", None);
    tunnel.received(b"200\n\n");
    tunnel.completed();
    tunnel.completed();
    tunnel.completed();
    tunnel.failed();
    tunnel.received(b"");
    tunnel.received(b"more");
    assert_eq!(tunnel.action(), TunnelAction::StartRelay);
    assert_eq!(tunnel.surplus(), b"");
}

#[test]
fn proxy_that_passes_traffic_through_is_transparent() {
    let traffic: Vec<u8> = (0..5000usize).map(|index| (index % 256) as u8).collect();
    let mut stream = b"HTTP/1.0 200 OK\r\n\r\n".to_vec();
    stream.extend_from_slice(&traffic);
    let head = 19;
    for cut in [1, 5, head - 1, head, head + 1, 100, stream.len()] {
        let mut tunnel = reading("example.com:443", None);
        let mut seen = Vec::new();
        let mut offset = 0;
        while offset < stream.len() {
            let end = (offset + cut).min(stream.len());
            if tunnel.action() == (TunnelAction::ReadReply { capacity: 8192 }) {
                tunnel.received(&stream[offset..end]);
                if tunnel.action() == TunnelAction::DeliverSurplus {
                    seen.extend_from_slice(tunnel.surplus());
                    tunnel.completed();
                    tunnel.completed();
                }
            } else {
                assert_eq!(tunnel.action(), TunnelAction::StartRelay);
                seen.extend_from_slice(&stream[offset..end]);
            }
            offset = end;
        }
        assert_eq!(seen, traffic);
    }
}

#[test]
fn proxy_that_cannot_be_reached_ends_the_tunnel() {
    let mut tunnel = Tunnel::start("proxy.local:8080", "example.com:22", None);
    tunnel.failed();
    assert_eq!(tunnel.action(), TunnelAction::ReportUnreachable);
    tunnel.completed();
    tunnel.received(b"200 OK\r\n\r\n");
    tunnel.failed();
    assert_eq!(tunnel.action(), TunnelAction::ReportUnreachable);
    assert_eq!(tunnel.surplus(), b"");
    assert_eq!(tunnel.diagnostic(), b"");
}
