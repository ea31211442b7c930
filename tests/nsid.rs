use netlink_packet_core::NetlinkBuffer;
use netlink_wire::nsid::{Header, Message, Nla, NETNSA_NSID_NOT_ASSIGNED};
use netlink_wire::rtnl::{RtnlBuffer, RtnlMessage, RTM_GETNSID, RTM_NEWNSID};

#[test]
fn get_ns_id_request() {
    let data = vec![
        0x1c, 0x00, 0x00, 0x00, // length = 28
        0x5a, 0x00, // message type = 90 = RTM_GETNSID
        0x01, 0x00, // flags
        0x00, 0x00, 0x00, 0x00, // seq number
        0x00, 0x00, 0x00, 0x00, // pid
        // GETNSID message
        0x00, // rtgen family
        0x00, 0x00, 0x00, // padding
        // NLA
        0x08, 0x00, // length = 8
        0x03, 0x00, // type = 3 (Fd)
        0x04, 0x00, 0x00, 0x00, // 4
    ];
    let expected = RtnlMessage::GetNsId(Message {
        header: Header { rtgen_family: 0 },
        nlas: vec![Nla::Fd(4)],
    });
    let actual = RtnlBuffer::new(NetlinkBuffer::new(&data).payload())
        .parse_with_param(RTM_GETNSID)
        .unwrap();
    assert_eq!(expected, actual);
}

#[test]
fn get_ns_id_response() {
    let data = vec![
        0x1c, 0x00, 0x00, 0x00, // length = 28
        0x58, 0x00, // message type = RTM_NEWNSID
        0x00, 0x00, // flags
        0x00, 0x00, 0x00, 0x00, // seq number
        0x76, 0x12, 0x00, 0x00, // pid
        // NETNSID message
        0x00, // rtgen family
        0x00, 0x00, 0x00, // padding
        // NLA
        0x08, 0x00, // length
        0x01, 0x00, // type = NETNSA_NSID
        0xff, 0xff, 0xff, 0xff, // -1
    ];
    let expected = RtnlMessage::NewNsId(Message {
        header: Header { rtgen_family: 0 },
        nlas: vec![Nla::Id(NETNSA_NSID_NOT_ASSIGNED)],
    });
    let actual = RtnlBuffer::new(NetlinkBuffer::new(&data).payload())
        .parse_with_param(RTM_NEWNSID)
        .unwrap();
    assert_eq!(expected, actual);
}

#[test]
fn nsid_message_round_trip() {
    let msg = Message {
        header: Header { rtgen_family: 0 },
        nlas: vec![Nla::Id(-7), Nla::Pid(0x1276), Nla::Fd(4)],
    };
    assert_eq!(msg.buffer_len(), 4 + 3 * 8);
    let mut buf = vec![0xee; msg.buffer_len()];
    msg.emit(&mut buf[..]);
    assert_eq!(&buf[4..12], &[0x08, 0x00, 0x01, 0x00, 0xf9, 0xff, 0xff, 0xff]);
    let back = Message::parse(&netlink_wire::nsid::MessageBuffer::new(&buf[..])).unwrap();
    assert_eq!(back, msg);
}

#[test]
fn unknown_message_type_is_rejected() {
    let data = [0u8; 4];
    let err = RtnlBuffer::new(&data[..]).parse_with_param(3).unwrap_err();
    assert_eq!(err.kind, netlink_wire::error::ErrorKind::InvalidValue);
}
