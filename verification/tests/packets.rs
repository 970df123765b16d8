use stalk::channel::Channel;
use stalk::event::XdpEvent;
use stalk::raw::decode_xdp;
use stalk::xdp::{parse_packet, stalk_xdp, try_stalk_xdp, XDP_PASS};

fn tcp_packet() -> Vec<u8> {
    let mut p = vec![0u8; 54];
    p[12] = 0x08;
    p[13] = 0x00;
    p[23] = 6;
    p[26..30].copy_from_slice(&[192, 168, 1, 1]);
    p[30..34].copy_from_slice(&[8, 8, 8, 8]);
    p[34..36].copy_from_slice(&443u16.to_be_bytes());
    p[36..38].copy_from_slice(&51123u16.to_be_bytes());
    p
}

fn udp_packet() -> Vec<u8> {
    let mut p = vec![0u8; 42];
    p[12] = 0x08;
    p[13] = 0x00;
    p[23] = 17;
    p[26..30].copy_from_slice(&[10, 0, 0, 7]);
    p[30..34].copy_from_slice(&[10, 0, 0, 1]);
    p[34..36].copy_from_slice(&5353u16.to_be_bytes());
    p[36..38].copy_from_slice(&53u16.to_be_bytes());
    p
}

#[test]
fn tcp_packet_produces_matching_event() {
    let p = tcp_packet();
    let event = parse_packet(&p).expect("tcp packet must produce an event");
    assert_eq!(event.source_addr, u32::from_be_bytes([192, 168, 1, 1]));
    assert_eq!(event.dest_addr, u32::from_be_bytes([8, 8, 8, 8]));
    assert_eq!(event.source_port, 443);
    assert_eq!(event.dest_port, 51123);
    let decoded = XdpEvent::from_raw(&event, 0);
    assert_eq!(decoded.source_addr, [192, 168, 1, 1]);
    assert_eq!(decoded.dest_addr, [8, 8, 8, 8]);
}

#[test]
fn udp_packet_produces_matching_event() {
    let p = udp_packet();
    let event = parse_packet(&p).expect("udp packet must produce an event");
    assert_eq!(event.source_addr, u32::from_be_bytes([10, 0, 0, 7]));
    assert_eq!(event.dest_addr, u32::from_be_bytes([10, 0, 0, 1]));
    assert_eq!(event.source_port, 5353);
    assert_eq!(event.dest_port, 53);
}

#[test]
fn short_packet_produces_no_event() {
    assert!(parse_packet(&[]).is_none());
    assert!(parse_packet(&[0u8; 13]).is_none());
    assert!(parse_packet(&[0u8; 33]).is_none());
    let mut truncated_tcp = tcp_packet();
    truncated_tcp.truncate(53);
    assert!(parse_packet(&truncated_tcp).is_none());
    let mut truncated_udp = udp_packet();
    truncated_udp.truncate(41);
    assert!(parse_packet(&truncated_udp).is_none());
}

#[test]
fn non_ipv4_packet_produces_no_event_and_passes() {
    let mut p = tcp_packet();
    p[12] = 0x86;
    p[13] = 0xDD;
    assert!(parse_packet(&p).is_none());
    let mut ch = Channel::new(1024);
    assert_eq!(stalk_xdp(&p, &mut ch), XDP_PASS);
    assert_eq!(ch.drain().len(), 0);
}

#[test]
fn non_tcp_udp_packet_produces_no_event_and_passes() {
    let mut p = tcp_packet();
    p[23] = 1;
    assert!(parse_packet(&p).is_none());
    let mut ch = Channel::new(1024);
    assert_eq!(stalk_xdp(&p, &mut ch), XDP_PASS);
    assert_eq!(ch.drain().len(), 0);
}

#[test]
fn tcp_packet_emits_exactly_one_record_and_passes() {
    let p = tcp_packet();
    let mut ch = Channel::new(1024);
    assert_eq!(try_stalk_xdp(&p, &mut ch), Ok(XDP_PASS));
    let drained = ch.drain();
    assert_eq!(drained.len(), 1);
    let record = decode_xdp(&drained[0]);
    assert_eq!(record.source_port, 443);
    assert_eq!(record.dest_port, 51123);
}

#[test]
fn full_channel_still_passes_the_packet() {
    let p = tcp_packet();
    let mut ch = Channel::new(3);
    assert_eq!(stalk_xdp(&p, &mut ch), XDP_PASS);
    assert_eq!(ch.drain().len(), 0);
}
