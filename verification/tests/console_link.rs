use ltc_bridge::timecode::TimecodeFrame;
use ltc_bridge::wing::{
    mute_packet, timecode_packet, ConnectionState, PacketOutcome, TickAction, WingConfig, WingConn,
};

const SEC: u64 = 1_000_000_000;

fn console() -> WingConn {
    WingConn::new(WingConfig::default())
}

const CONSOLE: Option<[u8; 4]> = Some([192, 168, 1, 20]);

#[test]
fn default_config() {
    let c = WingConfig::default();
    assert_eq!(c.console_ip, "192.168.1.20");
    assert_eq!(c.native_port, 2222);
    assert_eq!(c.osc_port, 2223);
    assert_eq!(c.discovery_interval_nanos, 3 * SEC);
}

#[test]
fn new_connection_is_discovering() {
    let w = console();
    assert_eq!(w.state, ConnectionState::Discovering);
    assert!(!w.is_connected());
    assert_eq!(w.last_fader_send, None);
}

#[test]
fn discovery_repeats_after_interval() {
    let mut w = console();
    assert_eq!(w.tick(0), TickAction::Discover);
    // An unsuccessful send is not recorded: the request is due again.
    assert_eq!(w.tick(1), TickAction::Discover);
    w.discovery_sent(1);
    assert_eq!(w.tick(SEC), TickAction::Idle);
    assert_eq!(w.tick(3 * SEC + 1), TickAction::Idle);
    assert_eq!(w.tick(3 * SEC + 2), TickAction::Discover);
}

#[test]
fn packets_from_elsewhere_are_ignored() {
    let mut w = console();
    let out = w.handle_packet(b"WING,1,Desk,wing-rack,S1,3.0", Some([192, 168, 1, 21]), 5);
    assert_eq!(out, PacketOutcome::Ignored);
    assert_eq!(w.last_reply, None);
    let out = w.handle_packet(b"WING,1,Desk,wing-rack,S1,3.0", None, 5);
    assert_eq!(out, PacketOutcome::Ignored);
    assert!(!w.is_connected());
}

#[test]
fn ident_reply_connects_once() {
    let mut w = console();
    let out = w.handle_packet(b"  WING,192.168.1.20,Main Desk,wing-compact,S123,3.0.5\r\n", CONSOLE, 7);
    assert_eq!(
        out,
        PacketOutcome::Connected {
            name: "Main Desk".to_string(),
            model: "wing-compact".to_string(),
            firmware: "3.0.5".to_string(),
        }
    );
    assert!(w.is_connected());
    assert_eq!(w.last_reply, Some(7));
    let out = w.handle_packet(b"WING,192.168.1.20,Main Desk,wing-compact,S123,3.0.5", CONSOLE, 9);
    assert_eq!(out, PacketOutcome::Reply);
    assert_eq!(w.last_reply, Some(9));
}

#[test]
fn short_ident_uses_question_marks() {
    let mut w = console();
    let out = w.handle_packet(b"WING,x", CONSOLE, 1);
    assert_eq!(
        out,
        PacketOutcome::Connected {
            name: "?".to_string(),
            model: "?".to_string(),
            firmware: "?".to_string(),
        }
    );
}

#[test]
fn other_replies_only_count_as_replies() {
    let mut w = console();
    assert_eq!(w.handle_packet(b"WING", CONSOLE, 1), PacketOutcome::Reply);
    assert_eq!(w.handle_packet(&[0xff, 0xfe, 0x2c], CONSOLE, 2), PacketOutcome::Reply);
    assert_eq!(w.handle_packet(b"meters,1,2", CONSOLE, 3), PacketOutcome::Reply);
    assert!(!w.is_connected());
    assert_eq!(w.last_reply, Some(3));
}

#[test]
fn connected_keepalive_and_staleness() {
    let mut w = console();
    w.handle_packet(b"WING,a,b,c,d,e", CONSOLE, 0);
    assert_eq!(w.tick(0), TickAction::KeepAlive { went_stale: false });
    assert_eq!(w.last_discovery, Some(0));
    assert_eq!(w.tick(SEC), TickAction::Idle);
    assert_eq!(w.tick(4 * SEC), TickAction::KeepAlive { went_stale: false });
    assert_eq!(w.tick(5 * SEC), TickAction::Idle);
    assert_eq!(w.tick(15 * SEC + 1), TickAction::KeepAlive { went_stale: true });
    assert_eq!(w.state, ConnectionState::Stale);
    assert_eq!(w.tick(15 * SEC + 2), TickAction::Idle);
    assert_eq!(w.state, ConnectionState::Discovering);
}

#[test]
fn stale_without_keepalive_due() {
    let mut w = console();
    w.handle_packet(b"WING,a,b,c,d,e", CONSOLE, 0);
    w.discovery_sent(14 * SEC);
    assert_eq!(w.tick(15 * SEC + 1), TickAction::WentStale);
    assert!(!w.is_connected());
}

#[test]
fn fader_rate_limit() {
    let mut w = console();
    assert_eq!(w.send_fader(1, 10), Some("/ch/1/fdr".to_string()));
    assert_eq!(w.send_fader(1, 10 + 399_999_999), None);
    assert_eq!(w.last_fader_send, Some(10));
    assert_eq!(w.send_fader(12, 10 + 400_000_000), Some("/ch/12/fdr".to_string()));
    assert_eq!(w.last_fader_send, Some(10 + 400_000_000));
}

#[test]
fn mute_packet_bytes() {
    let mut expected = b"/ch/1/mute\0\0,i\0\0".to_vec();
    expected.extend_from_slice(&[0, 0, 0, 1]);
    assert_eq!(mute_packet(1, true), expected);
    let mut expected = b"/ch/40/mute\0,i\0\0".to_vec();
    expected.extend_from_slice(&[0, 0, 0, 0]);
    assert_eq!(mute_packet(40, false), expected);
}

#[test]
fn mute_packet_matches_rosc() {
    let msg = rosc::OscPacket::Message(rosc::OscMessage {
        addr: "/ch/7/mute".to_string(),
        args: vec![rosc::OscType::Int(1)],
    });
    assert_eq!(mute_packet(7, true), rosc::encoder::encode(&msg).unwrap());
}

#[test]
fn timecode_packet_bytes() {
    let tc = TimecodeFrame { hours: 1, mins: 2, secs: 3, frames: 4 };
    let expected = b"/ch/1/$name\0,s\0\001:02:03:04\0".to_vec();
    let bytes = timecode_packet(tc);
    assert_eq!(bytes, expected);
    assert_eq!(bytes.len() % 4, 0);
}

#[test]
fn ident_reply_trims_unicode_whitespace() {
    let mut w = console();
    let out = w.handle_packet("\u{3000}\tWING,ip,Desk,m,s,f\u{85}".as_bytes(), CONSOLE, 1);
    assert_eq!(
        out,
        PacketOutcome::Connected {
            name: "Desk".to_string(),
            model: "m".to_string(),
            firmware: "f".to_string(),
        }
    );
}

#[test]
fn console_address_compared_as_text() {
    let mut config = WingConfig::default();
    config.console_ip = "10.0.0.7".to_string();
    let mut w = WingConn::new(config);
    assert_eq!(w.handle_packet(b"WING,a", Some([10, 0, 0, 70]), 1), PacketOutcome::Ignored);
    assert_ne!(w.handle_packet(b"WING,a", Some([10, 0, 0, 7]), 1), PacketOutcome::Ignored);
}
