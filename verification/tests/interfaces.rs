use ltc_bridge::network::{
    adapter_priority, parse_probe_reply, parse_probe_text, priority_of_lowercase, select_interfaces,
    InterfaceAddr, InterfaceRecord, LocalInterface,
};

fn v4(name: &str, ip: [u8; 4], netmask: [u8; 4], broadcast: Option<[u8; 4]>) -> InterfaceRecord {
    InterfaceRecord {
        name: name.to_string(),
        is_loopback: false,
        addr: InterfaceAddr::V4 { ip, netmask, broadcast },
    }
}

#[test]
fn priorities_by_kind() {
    assert_eq!(adapter_priority("eth0"), 0);
    assert_eq!(adapter_priority("enp3s0"), 0);
    assert_eq!(adapter_priority("ETH1"), 0);
    assert_eq!(adapter_priority("wlan0"), 1);
    assert_eq!(adapter_priority("Wi-Fi"), 1);
    assert_eq!(adapter_priority("utun3"), 3);
    assert_eq!(adapter_priority("myvpn"), 3);
    assert_eq!(adapter_priority("docker0"), 4);
    assert_eq!(adapter_priority("veth12ab"), 4);
    assert_eq!(adapter_priority("lo"), 2);
    assert_eq!(adapter_priority(""), 2);
}

#[test]
fn priority_of_lowercase_is_case_sensitive() {
    assert_eq!(priority_of_lowercase("ETH0"), 2);
    assert_eq!(priority_of_lowercase("eth0"), 0);
}

#[test]
fn selects_and_orders_interfaces() {
    let records = vec![
        InterfaceRecord { name: "lo".to_string(), is_loopback: true, addr: InterfaceAddr::V4 {
            ip: [127, 0, 0, 1],
            netmask: [255, 0, 0, 0],
            broadcast: None,
        } },
        v4("docker0", [172, 17, 0, 1], [255, 255, 0, 0], Some([172, 17, 255, 255])),
        v4("wlan0", [10, 0, 0, 7], [255, 255, 255, 0], Some([10, 0, 0, 255])),
        InterfaceRecord { name: "eth0".to_string(), is_loopback: false, addr: InterfaceAddr::V6 },
        v4("eth0", [192, 168, 1, 5], [255, 255, 255, 0], Some([192, 168, 1, 255])),
        v4("eth9", [169, 254, 3, 4], [255, 255, 0, 0], None),
        v4("tun0", [10, 8, 0, 2], [255, 255, 255, 255], None),
        v4("eth1", [192, 168, 2, 5], [0, 0, 0, 0], None),
    ];
    let out = select_interfaces(&records);
    let names: Vec<&str> = out.iter().map(|i| i.name.as_str()).collect();
    assert_eq!(names, vec!["eth0", "eth1", "wlan0", "tun0", "docker0"]);
    assert_eq!(
        out[0],
        LocalInterface {
            name: "eth0".to_string(),
            ip: [192, 168, 1, 5],
            prefix_len: Some(24),
            broadcast: Some([192, 168, 1, 255]),
        }
    );
    assert_eq!(out[1].prefix_len, Some(0));
    assert_eq!(out[3].prefix_len, Some(32));
    assert_eq!(out[4].prefix_len, Some(16));
}

#[test]
fn probe_reply_fields() {
    let r = parse_probe_reply([192, 168, 1, 20], b"WING,192.168.1.20,Desk,wing-rack,SN1,2.1\r\n").unwrap();
    assert_eq!(r.ip, [192, 168, 1, 20]);
    assert_eq!(r.model, "wing-rack");
    assert_eq!(r.serial, "SN1");
    assert_eq!(r.firmware, "2.1");
}

#[test]
fn probe_reply_defaults() {
    let r = parse_probe_reply([10, 0, 0, 1], b"  WING,x\n").unwrap();
    assert_eq!(r.model, "wing-fullsize");
    assert_eq!(r.serial, "?");
    assert_eq!(r.firmware, "?");
}

#[test]
fn probe_reply_rejections() {
    assert_eq!(parse_probe_reply([10, 0, 0, 1], b"WING"), None);
    assert_eq!(parse_probe_reply([10, 0, 0, 1], b"HELLO,WING"), None);
    assert_eq!(parse_probe_reply([10, 0, 0, 1], &[0xff, b'W', b'I', b'N', b'G', b',']), None);
    assert_eq!(parse_probe_text([10, 0, 0, 1], "wing,a,b"), None);
}

#[test]
fn probe_reply_lossy_text_after_ident() {
    let r = parse_probe_reply([10, 0, 0, 1], &[b'W', b'I', b'N', b'G', b',', b'a', b',', b'b', b',', 0xff]).unwrap();
    assert_eq!(r.model, "\u{FFFD}");
}
