use ltc_bridge::network::LocalInterface;
use ltc_bridge::ui::{
    blank, bottom_border, describe_adapter, divider, interface_row, framed_line, select_broadcast,
    top_border,
};

#[test]
fn borders() {
    assert_eq!(top_border(), format!("┌{}┐", "─".repeat(55)));
    assert_eq!(bottom_border(), format!("└{}┘", "─".repeat(55)));
    assert_eq!(divider(), format!("├{}┤", "─".repeat(55)));
    assert_eq!(top_border().chars().count(), 57);
}

#[test]
fn framed_lines() {
    assert_eq!(framed_line("hello"), format!("│  {:<53}  │", "hello"));
    assert_eq!(blank(), format!("│  {}  │", " ".repeat(53)));
    let long: String = "x".repeat(60);
    assert_eq!(framed_line(&long), format!("│  {}  │", "x".repeat(53)));
    assert_eq!(framed_line("ü✓").chars().count(), 59);
}

#[test]
fn adapter_descriptions() {
    assert_eq!(describe_adapter("eth0"), "(Ethernet)");
    assert_eq!(describe_adapter("EN0"), "(Ethernet)");
    assert_eq!(describe_adapter("wlan0"), "(WiFi)");
    assert_eq!(describe_adapter("tun0"), "(VPN)");
    assert_eq!(describe_adapter("docker0"), "");
}

#[test]
fn interface_rows() {
    let iface = LocalInterface {
        name: "eth0".to_string(),
        ip: [192, 168, 1, 5],
        prefix_len: Some(24),
        broadcast: Some([192, 168, 1, 255]),
    };
    assert_eq!(
        interface_row(&iface),
        format!("  {:8}  {:16}  {}{}  {}", "eth0", "192.168.1.5", "/24", "  bcast 192.168.1.255", "(Ethernet)")
    );
    let bare = LocalInterface {
        name: "bridge100x".to_string(),
        ip: [10, 0, 0, 1],
        prefix_len: None,
        broadcast: None,
    };
    assert_eq!(interface_row(&bare), format!("  {:8}  {:16}  {}{}  {}", "bridge100x", "10.0.0.1", "", "", ""));
}

#[test]
fn broadcast_for_console_subnet() {
    let a = LocalInterface { name: "a".to_string(), ip: [10, 0, 0, 2], prefix_len: None, broadcast: None };
    let b = LocalInterface {
        name: "b".to_string(),
        ip: [192, 168, 1, 5],
        prefix_len: Some(24),
        broadcast: Some([192, 168, 1, 255]),
    };
    let c = LocalInterface {
        name: "c".to_string(),
        ip: [192, 168, 7, 5],
        prefix_len: Some(24),
        broadcast: Some([192, 168, 7, 255]),
    };
    let ifaces = vec![a, b, c];
    assert_eq!(select_broadcast(&ifaces, [192, 168, 9, 9]), [192, 168, 1, 255]);
    assert_eq!(select_broadcast(&ifaces, [172, 16, 0, 1]), [255, 255, 255, 255]);
    assert_eq!(select_broadcast(&Vec::new(), [192, 168, 1, 20]), [255, 255, 255, 255]);
}
