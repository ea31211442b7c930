use netlink_wire::nla::{nlas, NlaParse};
use netlink_wire::neighbour::{self, NeighbourHeader, NeighbourMessage};
use netlink_wire::neighbour_table::{self, NeighbourTableMessage};
use netlink_wire::route::{self, RouteHeader, RouteMessage};
use netlink_wire::rtnl::{RtnlBuffer, RtnlMessage, RTM_NEWQDISC, RTM_NEWROUTE};
use netlink_wire::sock_diag::{self, MemInfo, SkMemInfo, TcpInfo};
use netlink_wire::tc::{self, Stats, Stats2, StatsBasic, StatsQueue};
use netlink_wire::unix::{UnixResponseHeader, Vfs};
use netlink_wire::nla::{emit_nlas, parse_nlas, DefaultNla};

fn sample_tcp_info() -> TcpInfo {
    TcpInfo {
        state: 1, ca_state: 2, retransmits: 3, probes: 4, backoff: 5, options: 6, wscale: 7,
        delivery_rate_app_limited: 8, rto: 9, ato: 10, snd_mss: 11, rcv_mss: 12, unacked: 13,
        sacked: 14, lost: 15, retrans: 16, fackets: 17, last_data_sent: 18, last_ack_sent: 19,
        last_data_recv: 20, last_ack_recv: 21, pmtu: 22, rcv_ssthresh: 23, rtt: 24, rttvar: 25,
        snd_ssthresh: 26, snd_cwnd: 27, advmss: 28, reordering: 29, rcv_rtt: 30, rcv_space: 31,
        total_retrans: 32, pacing_rate: 33, max_pacing_rate: 34, bytes_acked: 35,
        bytes_received: 36, segs_out: 37, segs_in: 38, notsent_bytes: 39, min_rtt: 40,
        data_segs_in: 41, data_segs_out: 42, delivery_rate: 43, busy_time: 44, rwnd_limited: 45,
        sndbuf_limited: 46, delivered: 47, delivered_ce: 48, bytes_sent: 49, bytes_retrans: 50,
        dsack_dups: 51, reord_seen: 52, rcv_ooopack: 53, snd_wnd: 0x0102_0304,
    }
}

#[test]
fn tcp_info_layout() {
    let info = sample_tcp_info();
    let mut buf = vec![0u8; 240];
    info.emit(&mut buf);
    assert_eq!(&buf[0..8], &[1, 2, 3, 4, 5, 6, 7, 8]);
    assert_eq!(&buf[8..12], &[9, 0, 0, 0]);
    assert_eq!(&buf[104..112], &[33, 0, 0, 0, 0, 0, 0, 0]);
    assert_eq!(&buf[228..232], &[4, 3, 2, 1]);
    assert_eq!(&buf[232..], &[0; 8]);
    assert_eq!(TcpInfo::parse(&buf).unwrap(), info);
    assert!(TcpInfo::parse(&buf[..231]).is_err());
}

#[test]
fn sock_diag_attributes_round_trip() {
    let attrs = vec![
        sock_diag::Nla::MemInfo(MemInfo { rmem: 1, wmem: 2, fmem: 3, tmem: 4 }),
        sock_diag::Nla::Info(Box::new(sample_tcp_info())),
        sock_diag::Nla::Congestion("cubic".to_string()),
        sock_diag::Nla::SkMemInfo(SkMemInfo {
            receive_queue_allocated: 1, receive_queue_max: 2, send_queue_allocated: 3,
            sndbuf: 4, fwd_alloc: 5, wmem_queued: 6, optmem: 7, backlog: 8, drops: 9,
        }),
        sock_diag::Nla::SkV6Only(true),
        sock_diag::Nla::Mark(77),
        sock_diag::Nla::Other(DefaultNla::new(100, vec![1])),
    ];
    let mut out = Vec::new();
    emit_nlas(&attrs, &mut out);
    assert_eq!(out.len(), 20 + 236 + 12 + 40 + 8 + 8 + 8);
    assert_eq!(parse_nlas::<sock_diag::Nla>(&out).unwrap(), attrs);
}

#[test]
fn sk_mem_info_occupies_its_own_size() {
    let m = SkMemInfo {
        receive_queue_allocated: 0, receive_queue_max: 0, send_queue_allocated: 0, sndbuf: 0,
        fwd_alloc: 0, wmem_queued: 0, optmem: 0, backlog: 0, drops: 0,
    };
    assert_eq!(m.buffer_len(), 36);
}

#[test]
fn tc_message_round_trip_through_rtnl() {
    let msg = tc::Message::from_parts(
        tc::Header { family: 0, index: -1, handle: 0x10000, parent: 0xffff_ffff, info: 1 },
        vec![
            tc::Nla::Kind("fq_codel".to_string()),
            tc::Nla::HwOffload(0),
            tc::Nla::Stats(Stats { bytes: 1, packets: 2, drops: 3, overlimits: 4, bps: 5, pps: 6, qlen: 7, backlog: 8 }),
            tc::Nla::Stats2(vec![
                Stats2::StatsBasic(StatsBasic { bytes: 100, packets: 10 }),
                Stats2::StatsQueue(StatsQueue { qlen: 1, backlog: 2, drops: 3, requeues: 4, overlimits: 5 }),
                Stats2::StatsApp(vec![1, 2, 3]),
            ]),
        ],
    );
    let rtnl = RtnlMessage::NewQueueDiscipline(msg.clone());
    let mut buf = vec![0u8; rtnl.buffer_len()];
    rtnl.emit(&mut buf);
    assert_eq!(&buf[4..8], &[0xff, 0xff, 0xff, 0xff]);
    let back = RtnlBuffer::new(&buf).parse_with_param(RTM_NEWQDISC).unwrap();
    assert_eq!(back, rtnl);
    let (h, n) = msg.into_parts();
    assert_eq!(h.index, -1);
    assert_eq!(n.len(), 4);
}

#[test]
fn route_message_round_trip() {
    let msg = RouteMessage::from_parts(
        RouteHeader {
            address_family: 2, destination_prefix_length: 24, source_prefix_length: 0, tos: 0,
            table: 254, protocol: 2, scope: 253, kind: 1, flags: 0,
        },
        vec![
            route::Nla::Destination(vec![10, 0, 0, 0]),
            route::Nla::Oif(3),
            route::Nla::EncapType(5),
            route::Nla::CacheInfo(route::CacheInfo { clntref: 1, last_use: 2, expires: 3, error: 4, used: 5, id: 6, ts: 7, ts_age: 8 }),
            route::Nla::MfcStats(route::MfcStats { packets: 1, bytes: 2, wrong_if: 3 }),
        ],
    );
    let rtnl = RtnlMessage::NewRoute(msg);
    let mut buf = vec![0u8; rtnl.buffer_len()];
    rtnl.emit(&mut buf);
    assert_eq!(buf.len(), 12 + 8 + 8 + 8 + 36 + 28);
    assert_eq!(RtnlBuffer::new(&buf).parse_with_param(RTM_NEWROUTE).unwrap(), rtnl);
}

#[test]
fn neighbour_message_round_trip() {
    let msg = NeighbourMessage::from_parts(
        NeighbourHeader { family: 10, ifindex: 2, state: 0x02, flags: 0, ntype: 1 },
        vec![
            neighbour::Nla::Destination(vec![0xfe, 0x80, 0, 0, 0, 0, 0, 0, 0, 0, 0, 0, 0, 0, 0, 1]),
            neighbour::Nla::LinkLocalAddress(vec![1, 2, 3, 4, 5, 6]),
            neighbour::Nla::CacheInfo(neighbour::CacheInfo { confirmed: 1, used: 2, updated: 3, refcnt: 0 }),
            neighbour::Nla::Vlan(7),
            neighbour::Nla::Probes(vec![0, 0, 0, 0]),
        ],
    );
    let mut buf = vec![0u8; msg.buffer_len()];
    msg.emit(&mut buf);
    assert_eq!(&buf[8..10], &[0x02, 0x00]);
    let back = NeighbourMessage::parse(&neighbour::MessageBuffer::new(&buf)).unwrap();
    assert_eq!(back, msg);
    assert_eq!(back.nla_slice().len(), 5);
}

#[test]
fn neighbour_table_message_round_trip() {
    let msg = NeighbourTableMessage::from_parts(
        neighbour_table::Header { family: 2 },
        vec![
            neighbour_table::Nla::Name("arp_cache".to_string()),
            neighbour_table::Nla::Threshold1(128),
            neighbour_table::Nla::GcInterval(30000),
            neighbour_table::Nla::Config(neighbour_table::Config {
                key_len: 4, entry_size: 64, entries: 3, last_flush: 1, last_rand: 2,
                hash_rnd: 3, hash_mask: 4, hash_chain_gc: 5, proxy_qlen: 6,
            }),
        ],
    );
    let mut buf = vec![0u8; msg.buffer_len()];
    msg.emit(&mut buf);
    let back = NeighbourTableMessage::parse(&neighbour_table::MessageBuffer::new(&buf)).unwrap();
    assert_eq!(back, msg);
}

#[test]
fn unix_header_layout() {
    let h = UnixResponseHeader { kind: 1, state: 10, inode: 0x01020304, cookie: [1, 2, 3, 4, 5, 6, 7, 8] };
    let mut buf = [0xffu8; 16];
    h.emit(&mut buf);
    assert_eq!(buf, [1, 1, 10, 0, 4, 3, 2, 1, 1, 2, 3, 4, 5, 6, 7, 8]);
    assert_eq!(UnixResponseHeader::parse(&buf).unwrap(), h);
    let v = Vfs::parse(&[1, 0, 0, 0, 2, 0, 0, 0]).unwrap();
    assert_eq!(v, Vfs { inode: 1, device: 2 });
}

#[test]
fn cloned_message_keeps_its_attributes() {
    let msg = NeighbourMessage::from_parts(
        NeighbourHeader { family: 2, ifindex: 1, state: 0x80, flags: 0, ntype: 1 },
        vec![neighbour::Nla::IfIndex(1), neighbour::Nla::Vni(42)],
    );
    let copy = msg.clone();
    assert_eq!(copy, msg);
    assert_eq!(copy.nla_slice(), &[neighbour::Nla::IfIndex(1), neighbour::Nla::Vni(42)][..]);
    assert_eq!(RtnlMessage::NewNeighbour(copy).message_type(), 28);
}

fn one_record(kind: u16, value: &[u8]) -> Vec<u8> {
    let mut out = Vec::new();
    netlink_wire::nla::emit_nla(&DefaultNla::new(kind, value.to_vec()), &mut out);
    out
}

#[test]
fn route_fixed_size_errors_name_the_kind() {
    for (kind, ctx) in [(route::RTA_IIF, "invalid RTA_IIF value"), (route::RTA_MARK, "invalid RTA_MARK value"),
        (route::RTA_ENCAP_TYPE, "invalid RTA_ENCAP_TYPE value"), (route::RTA_METRICS, "invalid RTA_METRICS value")] {
        let rec = one_record(kind, &[1, 2, 3]);
        let buf = nlas(&rec).into_iter().next().unwrap().unwrap();
        let err = <route::Nla as NlaParse>::parse(&buf).unwrap_err();
        assert_eq!(*err.context.last().unwrap(), ctx);
    }
    let metric = one_record(2, &[0, 1, 0, 0]);
    let rec = one_record(route::RTA_METRICS, &metric);
    let buf = nlas(&rec).into_iter().next().unwrap().unwrap();
    assert_eq!(<route::Nla as NlaParse>::parse(&buf).unwrap(), route::Nla::Metrics(metric));
}

#[test]
fn sock_diag_short_blocks_name_the_kind() {
    for (kind, len, ctx) in [(sock_diag::INET_DIAG_INFO, 232, "invalid INET_DIAG_INFO value"),
        (sock_diag::INET_DIAG_MEMINFO, 16, "invalid INET_DIAG_MEMINFO value"),
        (sock_diag::INET_DIAG_SKMEMINFO, 36, "invalid INET_DIAG_SKMEMINFO value")] {
        let rec = one_record(kind, &vec![0u8; len - 1]);
        let buf = nlas(&rec).into_iter().next().unwrap().unwrap();
        let err = <sock_diag::Nla as NlaParse>::parse(&buf).unwrap_err();
        assert_eq!(err.kind, netlink_wire::error::ErrorKind::Truncated);
        assert_eq!(*err.context.last().unwrap(), ctx);
    }
}

#[test]
fn tc_message_keeps_the_attribute_error() {
    let mut bytes = vec![0u8; 20];
    bytes.extend_from_slice(&one_record(tc::TCA_HW_OFFLOAD, &[1, 2]));
    let err = tc::Message::parse(&tc::MessageBuffer::new(&bytes)).unwrap_err();
    assert_eq!(err.kind, netlink_wire::error::ErrorKind::InvalidValue);
    assert_eq!(err.context, vec!["invalid u8", "invalid TCA_HW_OFFLOAD value", "failed to parse tc message NLAs"]);
    let mut bytes = vec![0u8; 20];
    bytes.extend_from_slice(&one_record(tc::TCA_HW_OFFLOAD, &[1]));
    bytes.extend_from_slice(&[0x09, 0x00]);
    let err = tc::Message::parse(&tc::MessageBuffer::new(&bytes)).unwrap_err();
    assert_eq!(err.kind, netlink_wire::error::ErrorKind::Truncated);
    assert_eq!(*err.context.last().unwrap(), "failed to parse tc message NLAs");
}
