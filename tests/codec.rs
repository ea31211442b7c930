use netlink_wire::inet::{
    Inet6CacheInfo, ICMP6_STATS_LEN, IFLA_INET6_CACHEINFO, IFLA_INET6_CONF, IFLA_INET6_ICMP6STATS,
    IFLA_INET6_STATS, IFLA_INET6_TOKEN, INET6_STATS_LEN, LINK_INET6_DEV_CONF_LEN,
};
use netlink_wire::nla::NlaParse;
use netlink_wire::link::{parse_link_nlas, parse_link_nlas_u8};
use netlink_wire::error::ErrorKind;
use netlink_wire::framed::{FramedState, RecvAction, RecvEvent, RecvState, SendError, SocketAddress};
use netlink_wire::link::{Flags, Header, LayerType, Message};
use netlink_wire::link_nlas::{AfSpecInet, Nla, AF_BRIDGE, AF_INET, IFLA_AF_SPEC};
use netlink_wire::inet::Inet6;
use netlink_wire::nla::{emit_nla, emit_nlas, nla_align, nlas, nlas_buffer_len, parse_nlas, DefaultNla, NlaBuffer};
use netlink_wire::parsers::{parse_string, parse_u32};

fn record_of(nla: &Nla) -> Vec<u8> {
    let mut out = Vec::new();
    emit_nla(nla, &mut out);
    out
}

#[test]
fn name_attribute_scenario() {
    let bytes = record_of(&Nla::IfName("lo".to_string()));
    assert_eq!(bytes, vec![0x07, 0x00, 0x03, 0x00, 0x6c, 0x6f, 0x00, 0x00]);
    let items = nlas(&bytes);
    assert_eq!(items.len(), 1);
    let nla = items.into_iter().next().unwrap().unwrap();
    assert_eq!(nla.kind(), 3);
    assert_eq!(nla.length(), 7);
    assert_eq!(nla.value(), &[0x6c, 0x6f, 0x00]);
}

#[test]
fn tlv_round_trip_various_lengths() {
    for len in 0..9usize {
        let value: Vec<u8> = (0..len as u8).map(|b| b.wrapping_mul(37)).collect();
        let d = DefaultNla::new(0x1234, value.clone());
        let mut out = Vec::new();
        emit_nla(&d, &mut out);
        assert_eq!(out.len(), nla_align(4 + len));
        assert_eq!(out.len() % 4, 0);
        assert!(out[4 + len..].iter().all(|b| *b == 0));
        let parsed: Vec<DefaultNla> = parse_nlas(&out).unwrap();
        assert_eq!(parsed, vec![d]);
    }
}

#[test]
fn unknown_kind_round_trip() {
    let record = vec![0x06, 0x00, 0xe7, 0x03, 0xab, 0xcd, 0x00, 0x00];
    let parsed = parse_nlas::<AfSpecInet>(&record);
    assert!(parsed.is_ok());
    let items = nlas(&record);
    let buf = items.into_iter().next().unwrap().unwrap();
    let nla = Nla::parse_with_param(&buf, AF_INET).unwrap();
    assert_eq!(nla, Nla::Other(DefaultNla::new(999, vec![0xab, 0xcd])));
    assert_eq!(record_of(&nla), record);
}

#[test]
fn truncated_record_fails_and_stops() {
    // declares 16 bytes, only 6 remain; a well-formed record follows the
    // first one but is never reached
    let bytes = [0x08, 0x00, 0x01, 0x00, 1, 2, 3, 4, 0x10, 0x00, 0x01, 0x00, 1, 2];
    let items = nlas(&bytes);
    assert_eq!(items.len(), 2);
    assert!(items[0].is_ok());
    assert_eq!(items[1].as_ref().unwrap_err().kind, ErrorKind::Truncated);
    assert_eq!(parse_nlas::<DefaultNla>(&bytes).unwrap_err().kind, ErrorKind::Truncated);
}

#[test]
fn two_byte_buffer_is_truncated() {
    let bytes = [0x04, 0x00];
    let items = nlas(&bytes);
    assert_eq!(items.len(), 1);
    assert_eq!(items[0].as_ref().unwrap_err().kind, ErrorKind::Truncated);
    assert_eq!(NlaBuffer::new_checked(&bytes).unwrap_err().kind, ErrorKind::Truncated);
}

#[test]
fn empty_buffer_has_no_records() {
    assert!(nlas(&[]).is_empty());
    assert_eq!(parse_nlas::<DefaultNla>(&[]).unwrap(), vec![]);
}

#[test]
fn length_below_header_is_invalid() {
    let bytes = [0x02, 0x00, 0x01, 0x00];
    assert_eq!(NlaBuffer::new_checked(&bytes).unwrap_err().kind, ErrorKind::InvalidLength);
    assert_eq!(nlas(&bytes)[0].as_ref().unwrap_err().kind, ErrorKind::Truncated);
}

#[test]
fn wrong_width_scalar_is_invalid_value() {
    let bytes = [0x07, 0x00, 0x04, 0x00, 1, 2, 3, 0];
    let buf = nlas(&bytes).into_iter().next().unwrap().unwrap();
    assert_eq!(Nla::parse_with_param(&buf, AF_INET).unwrap_err().kind, ErrorKind::InvalidValue);
    assert_eq!(parse_u32(&[1, 0, 0, 0]).unwrap(), 1);
}

#[test]
fn strings_decode_with_or_without_nul() {
    assert_eq!(parse_string(b"eth0\0").unwrap(), "eth0");
    assert_eq!(parse_string(b"eth0").unwrap(), "eth0");
    assert_eq!(parse_string(b"").unwrap(), "");
    assert_eq!(parse_string(&[0xff, 0xfe, 0x00]).unwrap_err().kind, ErrorKind::InvalidValue);
}

#[test]
fn family_decides_address_family_attribute() {
    let inner = vec![Inet6::Flags(0x80000000), Inet6::AddrGenMode(1)];
    let mut value = Vec::new();
    emit_nlas(&[AfSpecInet::Inet6(inner.clone())], &mut value);
    let mut record = vec![(value.len() + 4) as u8, 0x00, IFLA_AF_SPEC as u8, 0x00];
    record.extend_from_slice(&value);
    let buf = nlas(&record).into_iter().next().unwrap().unwrap();
    let under_inet = Nla::parse_with_param(&buf, AF_INET).unwrap();
    let under_bridge = Nla::parse_with_param(&buf, AF_BRIDGE).unwrap();
    assert_eq!(under_inet, Nla::AfSpecInet(vec![AfSpecInet::Inet6(inner)]));
    assert_eq!(under_bridge, Nla::AfSpecBridge(value));
}

#[test]
fn link_message_buffer_len_and_round_trip() {
    let mut header = Header::new();
    header.interface_family = AF_INET as u8;
    header.link_layer_type = LayerType::Other(9999);
    header.flags = Flags::from(0x1003);
    let nlas = vec![
        Nla::Address(vec![0, 1, 2, 3, 4, 5]),
        Nla::Qdisc("noqueue".to_string()),
        Nla::AfSpecInet(vec![AfSpecInet::Inet6(vec![Inet6::Token([7; 16])])]),
        Nla::Carrier(1),
        Nla::Other(DefaultNla::new(200, vec![9, 9, 9])),
    ];
    let msg = Message::from_parts(header, nlas);
    let len = msg.buffer_len();
    assert_eq!(len, 16 + 12 + 12 + 28 + 8 + 8);
    let mut buf = vec![0u8; len];
    msg.emit(&mut buf);
    let back = Message::parse(&netlink_wire::link::MessageBuffer::new(&buf)).unwrap();
    assert_eq!(back, msg);
    assert_eq!(nlas_buffer_len(&back.nlas), len - 16);
}

#[test]
fn recv_steps_follow_the_events() {
    let mut st = FramedState::new();
    let peer = SocketAddress::new(0, 1);
    assert_eq!(st.recv_step(RecvEvent::Incomplete), RecvAction::Receive);
    assert_eq!(st.recv, RecvState::AwaitingData);
    assert_eq!(st.recv_step(RecvEvent::Received(64, peer)), RecvAction::Decode);
    assert_eq!(st.recv_step(RecvEvent::Decoded), RecvAction::Deliver(peer));
    assert_eq!(st.recv_step(RecvEvent::Incomplete), RecvAction::Receive);
    assert_eq!(st.recv_step(RecvEvent::ReceiveFailed), RecvAction::End);
    assert_eq!(st.recv_step(RecvEvent::Decoded), RecvAction::End);
}

#[test]
fn decode_error_ends_stream() {
    let mut st = FramedState::new();
    assert_eq!(st.recv_step(RecvEvent::DecodeFailed), RecvAction::End);
    assert_eq!(st.recv, RecvState::Ended);
}

#[test]
fn short_write_fails_flush() {
    let mut st = FramedState::new();
    let dest = SocketAddress::new(0, 0);
    st.start_send(vec![1, 2, 3, 4, 5, 6, 7, 8], dest).unwrap();
    assert!(st.needs_flush());
    assert_eq!(st.start_send(vec![9], dest), Err(SendError::NotReady));
    let (frame, to) = st.pending_frame().unwrap();
    assert_eq!(frame, &[1, 2, 3, 4, 5, 6, 7, 8]);
    assert_eq!(to, dest);
    assert_eq!(st.complete_flush(5), Err(SendError::ShortWrite));
    assert!(!st.needs_flush());
    assert!(st.pending_frame().is_none());
    assert!(st.writer.is_empty());
}

#[test]
fn full_write_flushes() {
    let mut st = FramedState::new();
    st.start_send(vec![1, 2, 3, 4], SocketAddress::new(7, 0)).unwrap();
    assert_eq!(st.complete_flush(4), Ok(()));
    assert!(!st.needs_flush());
    assert_eq!(st.complete_flush(0), Ok(()));
    st.start_send(vec![5], SocketAddress::new(7, 0)).unwrap();
}

fn one_record(kind: u16, value: &[u8]) -> Vec<u8> {
    let mut out = Vec::new();
    emit_nla(&DefaultNla::new(kind, value.to_vec()), &mut out);
    out
}

#[test]
fn short_inet6_blocks_are_rejected() {
    for (kind, len, ctx) in [
        (IFLA_INET6_CONF, LINK_INET6_DEV_CONF_LEN, "invalid IFLA_INET6_CONF value"),
        (IFLA_INET6_STATS, INET6_STATS_LEN, "invalid IFLA_INET6_STATS value"),
        (IFLA_INET6_ICMP6STATS, ICMP6_STATS_LEN, "invalid IFLA_INET6_ICMP6STATS value"),
        (IFLA_INET6_CACHEINFO, 16, "invalid IFLA_INET6_CACHEINFO value"),
    ] {
        for short in [0, len - 1] {
            let rec = one_record(kind, &vec![0u8; short]);
            let buf = nlas(&rec).into_iter().next().unwrap().unwrap();
            let err = <Inet6 as NlaParse>::parse(&buf).unwrap_err();
            assert_eq!(err.kind, ErrorKind::Truncated);
            assert_eq!(*err.context.last().unwrap(), ctx);
        }
        let rec = one_record(kind, &vec![1u8; len]);
        let buf = nlas(&rec).into_iter().next().unwrap().unwrap();
        assert!(<Inet6 as NlaParse>::parse(&buf).is_ok());
    }
    let rec = one_record(IFLA_INET6_TOKEN, &[1, 2, 3]);
    let buf = nlas(&rec).into_iter().next().unwrap().unwrap();
    let err = <Inet6 as NlaParse>::parse(&buf).unwrap_err();
    assert_eq!(*err.context.last().unwrap(), "invalid IFLA_INET6_TOKEN value");
    let cache = [1, 0, 0, 0, 2, 0, 0, 0, 3, 0, 0, 0, 0xff, 0xff, 0xff, 0xff];
    let rec = one_record(IFLA_INET6_CACHEINFO, &cache);
    let buf = nlas(&rec).into_iter().next().unwrap().unwrap();
    assert_eq!(
        <Inet6 as NlaParse>::parse(&buf).unwrap(),
        Inet6::CacheInfo(Inet6CacheInfo { max_reasm_len: 1, tstamp: 2, reachable_time: 3, retrans_time: -1 })
    );
}

#[test]
fn link_attribute_error_carries_its_context() {
    let rec = one_record(4, &[1, 2]);
    let buf = nlas(&rec).into_iter().next().unwrap().unwrap();
    let err = Nla::parse_with_param(&buf, AF_INET).unwrap_err();
    assert_eq!(err.kind, ErrorKind::InvalidValue);
    assert_eq!(*err.context.last().unwrap(), "invalid IFLA_MTU value");
}

#[test]
fn link_message_errors_name_the_attributes() {
    let mut bytes = vec![0u8; 16];
    bytes.extend_from_slice(&one_record(4, &[1, 2]));
    let err = Message::parse(&netlink_wire::link::MessageBuffer::new(&bytes)).unwrap_err();
    assert_eq!(err.kind, ErrorKind::InvalidValue);
    assert_eq!(err.context, vec!["invalid u32", "invalid IFLA_MTU value", "failed to parse link message NLAs"]);
    let mut bytes = vec![0u8; 16];
    bytes.extend_from_slice(&one_record(4, &[1, 0, 0, 0]));
    bytes.extend_from_slice(&[0x20, 0x00, 0x04, 0x00]);
    let err = Message::parse(&netlink_wire::link::MessageBuffer::new(&bytes)).unwrap_err();
    assert_eq!(err.kind, ErrorKind::Truncated);
    assert_eq!(*err.context.last().unwrap(), "failed to parse link message NLAs");
}

#[test]
fn parse_u8_family_matches_u16() {
    let rec = one_record(26, &one_record(2, &[]));
    let a = parse_link_nlas_u8(&rec, 7).unwrap();
    let b = parse_link_nlas(&rec, 7u16).unwrap();
    assert_eq!(a, b);
    assert_eq!(a, vec![Nla::AfSpecBridge(vec![0x04, 0x00, 0x02, 0x00])]);
    let c = parse_link_nlas_u8(&rec, 10).unwrap();
    assert_eq!(c, vec![Nla::AfSpecInet(vec![AfSpecInet::Inet(vec![])])]);
    let d = parse_link_nlas_u8(&rec, 3).unwrap();
    assert_eq!(d, vec![Nla::AfSpecUnknown(vec![0x04, 0x00, 0x02, 0x00])]);
}

#[test]
fn short_inet_device_configuration_is_rejected() {
    use_inet_conf(123, false);
    use_inet_conf(124, true);
}

fn use_inet_conf(len: usize, ok: bool) {
    let rec = one_record(netlink_wire::inet::IFLA_INET_CONF, &vec![0u8; len]);
    let buf = nlas(&rec).into_iter().next().unwrap().unwrap();
    let r = <netlink_wire::inet::Inet as NlaParse>::parse(&buf);
    assert_eq!(r.is_ok(), ok);
    if let Err(e) = r {
        assert_eq!(*e.context.last().unwrap(), "invalid IFLA_INET_CONF value");
    }
}
