use solana_gun_quic_client::address::{bind_addr, server_host, split_host_port, SocketAddr};

#[test]
fn endpoints_split_into_host_and_port() {
    assert_eq!(split_host_port("fra1:7000"), Ok(("fra1", 7000)));
    assert_eq!(split_host_port("fra-1.publicnode.com:1"), Ok(("fra-1.publicnode.com", 1)));
    assert_eq!(split_host_port("[2001:db8::1]:7000"), Ok(("2001:db8::1", 7000)));
    assert_eq!(split_host_port("[::1]:65535"), Ok(("::1", 65535)));
    assert_eq!(split_host_port("m\u{fc}nchen.example:443"), Ok(("m\u{fc}nchen.example", 443)));
    // Without brackets the port is what stands behind the last colon.
    assert_eq!(split_host_port("2001:db8::1:7000"), Ok(("2001:db8::1", 7000)));
    // A port is read as the standard library reads integers.
    assert_eq!(split_host_port("h:007000"), Ok(("h", 7000)));
    assert_eq!(split_host_port("h:+7000"), Ok(("h", 7000)));
}

#[test]
fn what_is_no_endpoint_is_refused_with_the_reason() {
    let cases = [
        ("", "missing port in "),
        ("nohost", "missing port in nohost"),
        ("fra1.solanagun.com", "missing port in fra1.solanagun.com"),
        ("bad:0", "invalid port in bad:0"),
        ("bad:99999", "invalid port in bad:99999"),
        ("bad:65536", "invalid port in bad:65536"),
        ("bad:abc", "invalid port in bad:abc"),
        ("bad:", "invalid port in bad:"),
        ("bad:+", "invalid port in bad:+"),
        ("bad:++1", "invalid port in bad:++1"),
        ("bad:-1", "invalid port in bad:-1"),
        ("bad: 1", "invalid port in bad: 1"),
        ("bad:99999999999999999999", "invalid port in bad:99999999999999999999"),
        (":7000", "empty host in :7000"),
        ("[]:7000", "empty host in []:7000"),
        ("[::1", "unterminated IPv6 literal in [::1"),
        ("[::1]", "missing port in [::1]"),
        ("[::1]7000", "missing port in [::1]7000"),
        ("[::1]x:7000", "missing port in [::1]x:7000"),
    ];
    for (addr, reason) in cases {
        assert_eq!(split_host_port(addr), Err(reason.to_string()), "{addr}");
    }
}

#[test]
fn every_port_is_read_back() {
    for port in 1..=u16::MAX {
        assert_eq!(split_host_port(&format!("h:{port}")), Ok(("h", port)));
    }
    for port in [1u16, 80, 7000, 65535] {
        assert_eq!(split_host_port(&format!("[fe80::1]:{port}")), Ok(("fe80::1", port)));
    }
}

#[test]
fn ports_are_read_as_std_reads_them() {
    for text in ["0", "00", "+0", "1", "01", "+1", "1+", "++1", "", "+", "65535", "65536", "1e3"] {
        let expected = text.parse::<u16>().ok().filter(|p| *p != 0);
        let got = split_host_port(&format!("h:{text}")).ok().map(|(_, p)| p);
        assert_eq!(got, expected, "{text}");
    }
}

#[test]
fn server_host_asks_for_no_valid_port() {
    assert_eq!(server_host("h:"), Ok("h"));
    assert_eq!(server_host("[::1]"), Ok("::1"));
    assert_eq!(server_host(":7000"), Ok(""));
    assert_eq!(server_host("h"), Err("missing port in h".to_string()));
}

#[test]
fn bind_address_has_the_same_family() {
    assert_eq!(
        bind_addr(&SocketAddr::V4 { ipv4: 9, port: 9 }),
        SocketAddr::V4 { ipv4: 0, port: 0 }
    );
    assert_eq!(
        bind_addr(&SocketAddr::V6 { ipv6: 9, port: 9, flowinfo: 9, scope_id: 9 }),
        SocketAddr::V6 { ipv6: 0, port: 0, flowinfo: 0, scope_id: 0 }
    );
}
