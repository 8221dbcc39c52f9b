use trust_engine::event::{parse_line, parse_node_id, Event};

#[test]
fn node_id_last_segment_hex_first() {
    // The last non-empty segment reads as hexadecimal when possible.
    assert_eq!(parse_node_id(b"fe80::212:7402:2:202"), Some(0x202));
    assert_eq!(parse_node_id(b"aaaa::ff:fe00:3"), Some(3));
    assert_eq!(parse_node_id(b"12"), Some(0x12));
    assert_eq!(parse_node_id(b"ff"), Some(0xff));
}

#[test]
fn node_id_trailing_colons_skip_empty_segments() {
    assert_eq!(parse_node_id(b"a:b:"), Some(0xb));
}

#[test]
fn node_id_decimal_fallback() {
    // Not valid hexadecimal for 16 bits, but valid decimal.
    assert_eq!(parse_node_id(b"65535"), Some(65_535));
}

#[test]
fn node_id_failures() {
    assert_eq!(parse_node_id(b""), None);
    assert_eq!(parse_node_id(b":"), None);
    assert_eq!(parse_node_id(b"gg"), None);
    // Too large as hexadecimal and as decimal.
    assert_eq!(parse_node_id(b"99999"), None);
}

#[test]
fn tx_line_parses() {
    let ev = parse_line(b"CSV,TX,5,7\n");
    assert!(matches!(ev, Event::Tx { node: 5, seq: 7 }));
}

#[test]
fn tx_line_with_bad_number_is_discarded() {
    assert!(matches!(parse_line(b"CSV,TX,5,x"), Event::Ignored));
    assert!(matches!(parse_line(b"CSV,TX,5"), Event::Ignored));
}

#[test]
fn rx_line_requires_root_receiver() {
    let ev = parse_line(b"CSV,RX,node=1,aaaa::202,7,16");
    assert!(matches!(ev, Event::Rx { src: 0x202, seq: 7 }));
    assert!(matches!(parse_line(b"CSV,RX,node=2,aaaa::202,7,16"), Event::Ignored));
    // Too few fields.
    assert!(matches!(parse_line(b"CSV,RX,node=1,aaaa::202,7"), Event::Ignored));
}

#[test]
fn fwd_line_five_field_arity() {
    let ev = parse_line(b"CSV,FWD,3,10,2");
    assert!(matches!(ev, Event::Fwd { node: 3, udp_to_root: 10, dropped: 2 }));
}

#[test]
fn fwd_line_six_field_arity_skips_sequence() {
    let ev = parse_line(b"CSV,FWD,3,99,10,2");
    assert!(matches!(ev, Event::Fwd { node: 3, udp_to_root: 10, dropped: 2 }));
}

#[test]
fn fwd_pkt_line_parses() {
    let ev = parse_line(b"CSV,FWD_PKT,2,5,17");
    assert!(matches!(ev, Event::FwdPkt { node: 2, src: 5, seq: 17 }));
}

#[test]
fn routing_line_joined_resolves_parent() {
    let ev = parse_line(b"CSV,ROUTING,3,1,fe80::2");
    assert!(matches!(ev, Event::Routing { joined: true, parent: Some(2) }));
    let ev = parse_line(b"CSV,ROUTING,3,0,fe80::2");
    assert!(matches!(ev, Event::Routing { joined: false, parent: None }));
}

#[test]
fn parent_line_keeps_address_verbatim() {
    let ev = parse_line(b"CSV,PARENT,7,fe80::1");
    match ev {
        Event::Parent { node, parent } => {
            assert_eq!(node, 7);
            assert_eq!(parent, b"fe80::1".to_vec());
        },
        _ => panic!("expected a Parent event"),
    }
}

#[test]
fn terminal_markers_end_the_run() {
    assert!(matches!(parse_line(b"SIMULATION_FINISHED at 12:00"), Event::Terminal));
    assert!(matches!(parse_line(b"TEST OK\n"), Event::Terminal));
}

#[test]
fn unknown_lines_are_ignored() {
    assert!(matches!(parse_line(b""), Event::Ignored));
    assert!(matches!(parse_line(b"hello world"), Event::Ignored));
    assert!(matches!(parse_line(b"CSV,WHAT,1,2,3"), Event::Ignored));
    assert!(matches!(parse_line(b"CSV"), Event::Ignored));
}

#[test]
fn lines_are_trimmed_before_matching() {
    assert!(matches!(parse_line(b"  CSV,TX,5,7 \r\n"), Event::Tx { node: 5, seq: 7 }));
}
