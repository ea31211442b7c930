//! Link messages: the fixed link header, its buffer views, and the message
//! that composes the header with link attributes.
use vstd::prelude::*;
use vstd::slice::slice_subrange;

use crate::error::{with_context, DecodeError, ErrorKind};
use crate::link_nlas::{is_inet_family, Nla, AF_BRIDGE, IFLA_AF_SPEC};
use crate::nla::{
    decode_records, emit_nlas, header_valid, lemma_records_round_trip, nla_records, nlas,
    nlas_buffer_len, nlas_bytes, nlas_fit, rec_kind, rec_value, scan, Nla as NlaTrait, NlaBuffer,
};
use crate::wire::{
    get_u16, get_u32, lemma_int_bytes, push_u16, push_u32, set_bytes, set_u16, set_u32, set_u8,
    splice, u16_at, u16_bytes, u32_at, u32_bytes,
};

verus! {

broadcast use vstd::slice::group_slice_axioms;

pub const LINK_HEADER_LEN: usize = 16;

pub const IFF_UP: u32 = 0x1;
pub const IFF_BROADCAST: u32 = 0x2;
pub const IFF_DEBUG: u32 = 0x4;
pub const IFF_LOOPBACK: u32 = 0x8;
pub const IFF_POINTOPOINT: u32 = 0x10;
pub const IFF_RUNNING: u32 = 0x40;
pub const IFF_NOARP: u32 = 0x80;
pub const IFF_PROMISC: u32 = 0x100;
pub const IFF_MULTICAST: u32 = 0x1000;
pub const IFF_LOWER_UP: u32 = 0x10000;

/// Interface flags (`IFF_*` bits).
#[derive(Debug, Clone, Copy, PartialEq, Eq, Structural)]
pub struct Flags(pub u32);

impl Flags {
    pub fn new() -> (r: Flags)
        ensures
            r.0 == 0,
    {
        Flags(0)
    }

    pub fn is_up(&self) -> (r: bool)
        ensures
            r == (self.0 & IFF_UP != 0),
    {
        self.0 & IFF_UP != 0
    }

    pub fn is_loopback(&self) -> (r: bool)
        ensures
            r == (self.0 & IFF_LOOPBACK != 0),
    {
        self.0 & IFF_LOOPBACK != 0
    }

    pub fn is_running(&self) -> (r: bool)
        ensures
            r == (self.0 & IFF_RUNNING != 0),
    {
        self.0 & IFF_RUNNING != 0
    }

    pub fn is_lower_up(&self) -> (r: bool)
        ensures
            r == (self.0 & IFF_LOWER_UP != 0),
    {
        self.0 & IFF_LOWER_UP != 0
    }

    pub fn set_up(&mut self)
        ensures
            final(self).0 == old(self).0 | IFF_UP,
    {
        self.0 = self.0 | IFF_UP;
    }

    pub fn set_loopback(&mut self)
        ensures
            final(self).0 == old(self).0 | IFF_LOOPBACK,
    {
        self.0 = self.0 | IFF_LOOPBACK;
    }

    pub fn set_running(&mut self)
        ensures
            final(self).0 == old(self).0 | IFF_RUNNING,
    {
        self.0 = self.0 | IFF_RUNNING;
    }

    pub fn set_lower_up(&mut self)
        ensures
            final(self).0 == old(self).0 | IFF_LOWER_UP,
    {
        self.0 = self.0 | IFF_LOWER_UP;
    }
}

impl From<u32> for Flags {
    fn from(v: u32) -> Flags {
        Flags(v)
    }
}

impl vstd::std_specs::convert::FromSpecImpl<u32> for Flags {
    open spec fn obeys_from_spec() -> bool {
        true
    }

    open spec fn from_spec(v: u32) -> Flags {
        Flags(v)
    }
}

impl From<Flags> for u32 {
    fn from(f: Flags) -> u32 {
        f.0
    }
}

impl vstd::std_specs::convert::FromSpecImpl<Flags> for u32 {
    open spec fn obeys_from_spec() -> bool {
        true
    }

    open spec fn from_spec(f: Flags) -> u32 {
        f.0
    }
}

/// Link layer types (`ARPHRD_*`).
#[derive(Debug, Clone, Copy, PartialEq, Eq, Structural)]
pub enum LayerType {
    Netrom,
    Ether,
    Eether,
    Ieee802,
    Infiniband,
    Slip,
    Ppp,
    Tunnel,
    Tunnel6,
    Loopback,
    Sit,
    IpGre,
    Ieee80211,
    Ieee80211Radiotap,
    Ip6Gre,
    Netlink,
    NoHeader,
    Void,
    Other(u16),
}

pub open spec fn layer_type_of(v: u16) -> LayerType {
    if v == 0 {
        LayerType::Netrom
    } else if v == 1 {
        LayerType::Ether
    } else if v == 2 {
        LayerType::Eether
    } else if v == 6 {
        LayerType::Ieee802
    } else if v == 32 {
        LayerType::Infiniband
    } else if v == 256 {
        LayerType::Slip
    } else if v == 512 {
        LayerType::Ppp
    } else if v == 768 {
        LayerType::Tunnel
    } else if v == 769 {
        LayerType::Tunnel6
    } else if v == 772 {
        LayerType::Loopback
    } else if v == 776 {
        LayerType::Sit
    } else if v == 778 {
        LayerType::IpGre
    } else if v == 801 {
        LayerType::Ieee80211
    } else if v == 803 {
        LayerType::Ieee80211Radiotap
    } else if v == 823 {
        LayerType::Ip6Gre
    } else if v == 824 {
        LayerType::Netlink
    } else if v == 0xfffe {
        LayerType::NoHeader
    } else if v == 0xffff {
        LayerType::Void
    } else {
        LayerType::Other(v)
    }
}

impl LayerType {
    pub open spec fn spec_raw(&self) -> u16 {
        match self {
            LayerType::Netrom => 0,
            LayerType::Ether => 1,
            LayerType::Eether => 2,
            LayerType::Ieee802 => 6,
            LayerType::Infiniband => 32,
            LayerType::Slip => 256,
            LayerType::Ppp => 512,
            LayerType::Tunnel => 768,
            LayerType::Tunnel6 => 769,
            LayerType::Loopback => 772,
            LayerType::Sit => 776,
            LayerType::IpGre => 778,
            LayerType::Ieee80211 => 801,
            LayerType::Ieee80211Radiotap => 803,
            LayerType::Ip6Gre => 823,
            LayerType::Netlink => 824,
            LayerType::NoHeader => 0xfffe,
            LayerType::Void => 0xffff,
            LayerType::Other(v) => *v,
        }
    }

    /// A type of `Other` carries a code that no named type has.
    pub open spec fn spec_wf(&self) -> bool {
        match self {
            LayerType::Other(v) => layer_type_of(*v) == LayerType::Other(*v),
            _ => true,
        }
    }

    pub fn from_raw(v: u16) -> (r: LayerType)
        ensures
            r == layer_type_of(v),
    {
        match v {
            0 => LayerType::Netrom,
            1 => LayerType::Ether,
            2 => LayerType::Eether,
            6 => LayerType::Ieee802,
            32 => LayerType::Infiniband,
            256 => LayerType::Slip,
            512 => LayerType::Ppp,
            768 => LayerType::Tunnel,
            769 => LayerType::Tunnel6,
            772 => LayerType::Loopback,
            776 => LayerType::Sit,
            778 => LayerType::IpGre,
            801 => LayerType::Ieee80211,
            803 => LayerType::Ieee80211Radiotap,
            823 => LayerType::Ip6Gre,
            824 => LayerType::Netlink,
            0xfffe => LayerType::NoHeader,
            0xffff => LayerType::Void,
            _ => LayerType::Other(v),
        }
    }

    pub fn to_raw(&self) -> (r: u16)
        ensures
            r == self.spec_raw(),
    {
        match self {
            LayerType::Netrom => 0,
            LayerType::Ether => 1,
            LayerType::Eether => 2,
            LayerType::Ieee802 => 6,
            LayerType::Infiniband => 32,
            LayerType::Slip => 256,
            LayerType::Ppp => 512,
            LayerType::Tunnel => 768,
            LayerType::Tunnel6 => 769,
            LayerType::Loopback => 772,
            LayerType::Sit => 776,
            LayerType::IpGre => 778,
            LayerType::Ieee80211 => 801,
            LayerType::Ieee80211Radiotap => 803,
            LayerType::Ip6Gre => 823,
            LayerType::Netlink => 824,
            LayerType::NoHeader => 0xfffe,
            LayerType::Void => 0xffff,
            LayerType::Other(v) => *v,
        }
    }
}

impl From<u16> for LayerType {
    fn from(v: u16) -> LayerType {
        LayerType::from_raw(v)
    }
}

impl vstd::std_specs::convert::FromSpecImpl<u16> for LayerType {
    open spec fn obeys_from_spec() -> bool {
        true
    }

    open spec fn from_spec(v: u16) -> LayerType {
        layer_type_of(v)
    }
}

impl From<LayerType> for u16 {
    fn from(t: LayerType) -> u16 {
        t.to_raw()
    }
}

impl vstd::std_specs::convert::FromSpecImpl<LayerType> for u16 {
    open spec fn obeys_from_spec() -> bool {
        true
    }

    open spec fn from_spec(t: LayerType) -> u16 {
        t.spec_raw()
    }
}

/// A read-only view of a link message: the 16-byte header, then attributes.
///
/// Layout: interface family (byte 0), reserved (byte 1), link layer type
/// (bytes 2..4), link index (4..8), flags (8..12), change mask (12..16).
#[derive(Debug, Clone, Copy)]
pub struct MessageBuffer<'a> {
    buffer: &'a [u8],
}

impl<'a> View for MessageBuffer<'a> {
    type V = Seq<u8>;

    closed spec fn view(&self) -> Seq<u8> {
        self.buffer@
    }
}

impl<'a> MessageBuffer<'a> {
    /// Wraps `buffer` without checking its length.
    pub fn new(buffer: &'a [u8]) -> (r: MessageBuffer<'a>)
        ensures
            r@ == buffer@,
    {
        MessageBuffer { buffer }
    }

    /// Wraps `buffer` once it is known to hold a whole header.
    pub fn new_checked(buffer: &'a [u8]) -> (r: Result<MessageBuffer<'a>, DecodeError>)
        ensures
            r is Ok <==> buffer@.len() >= LINK_HEADER_LEN,
            r is Ok ==> r->Ok_0@ == buffer@,
            r is Err ==> r->Err_0.kind == ErrorKind::Truncated,
    {
        if buffer.len() < LINK_HEADER_LEN {
            Err(DecodeError::new(ErrorKind::Truncated).context("link message buffer too short"))
        } else {
            Ok(MessageBuffer { buffer })
        }
    }

    pub fn interface_family(&self) -> (r: u8)
        requires
            self@.len() >= LINK_HEADER_LEN,
        ensures
            r == self@[0],
    {
        self.buffer[0]
    }

    pub fn reserved_1(&self) -> (r: u8)
        requires
            self@.len() >= LINK_HEADER_LEN,
        ensures
            r == self@[1],
    {
        self.buffer[1]
    }

    pub fn link_layer_type(&self) -> (r: u16)
        requires
            self@.len() >= LINK_HEADER_LEN,
        ensures
            r == u16_at(self@, 2),
    {
        get_u16(self.buffer, 2)
    }

    pub fn link_index(&self) -> (r: u32)
        requires
            self@.len() >= LINK_HEADER_LEN,
        ensures
            r == u32_at(self@, 4),
    {
        get_u32(self.buffer, 4)
    }

    pub fn flags(&self) -> (r: u32)
        requires
            self@.len() >= LINK_HEADER_LEN,
        ensures
            r == u32_at(self@, 8),
    {
        get_u32(self.buffer, 8)
    }

    pub fn change_mask(&self) -> (r: u32)
        requires
            self@.len() >= LINK_HEADER_LEN,
        ensures
            r == u32_at(self@, 12),
    {
        get_u32(self.buffer, 12)
    }

    /// The bytes after the header.
    pub fn payload(&self) -> (r: &'a [u8])
        requires
            self@.len() >= LINK_HEADER_LEN,
        ensures
            r@ == self@.subrange(LINK_HEADER_LEN as int, self@.len() as int),
    {
        slice_subrange(self.buffer, LINK_HEADER_LEN, self.buffer.len())
    }

    /// The attribute records after the header.
    pub fn nlas(&self) -> (r: Vec<Result<NlaBuffer<'a>, DecodeError>>)
        requires
            self@.len() >= LINK_HEADER_LEN,
        ensures
            crate::nla::items_view(r@) == scan(
                self@.subrange(LINK_HEADER_LEN as int, self@.len() as int),
            ),
    {
        nlas(self.payload())
    }
}

/// A writable view of a link message header.
#[derive(Debug)]
pub struct MessageBufferMut<'a> {
    buffer: &'a mut [u8],
}

impl<'a> View for MessageBufferMut<'a> {
    type V = Seq<u8>;

    closed spec fn view(&self) -> Seq<u8> {
        self.buffer@
    }
}

impl<'a> MessageBufferMut<'a> {
    pub fn new(buffer: &'a mut [u8]) -> (r: MessageBufferMut<'a>)
        ensures
            r@ == old(buffer)@,
    {
        MessageBufferMut { buffer }
    }

    pub fn set_interface_family(&mut self, v: u8)
        requires
            old(self)@.len() >= LINK_HEADER_LEN,
        ensures
            final(self)@ == old(self)@.update(0, v),
    {
        set_u8(self.buffer, 0, v);
    }

    pub fn set_reserved_1(&mut self, v: u8)
        requires
            old(self)@.len() >= LINK_HEADER_LEN,
        ensures
            final(self)@ == old(self)@.update(1, v),
    {
        set_u8(self.buffer, 1, v);
    }

    pub fn set_link_layer_type(&mut self, v: u16)
        requires
            old(self)@.len() >= LINK_HEADER_LEN,
        ensures
            final(self)@ == splice(old(self)@, 2, u16_bytes(v)),
    {
        set_u16(self.buffer, 2, v);
    }

    pub fn set_link_index(&mut self, v: u32)
        requires
            old(self)@.len() >= LINK_HEADER_LEN,
        ensures
            final(self)@ == splice(old(self)@, 4, u32_bytes(v)),
    {
        set_u32(self.buffer, 4, v);
    }

    pub fn set_flags(&mut self, v: u32)
        requires
            old(self)@.len() >= LINK_HEADER_LEN,
        ensures
            final(self)@ == splice(old(self)@, 8, u32_bytes(v)),
    {
        set_u32(self.buffer, 8, v);
    }

    pub fn set_change_mask(&mut self, v: u32)
        requires
            old(self)@.len() >= LINK_HEADER_LEN,
        ensures
            final(self)@ == splice(old(self)@, 12, u32_bytes(v)),
    {
        set_u32(self.buffer, 12, v);
    }
}

/// The header of a link message.
#[derive(Debug, Clone, Copy, PartialEq, Eq, Structural)]
pub struct Header {
    pub interface_family: u8,
    pub index: u32,
    pub link_layer_type: LayerType,
    pub flags: Flags,
    pub change_mask: Flags,
}

/// The header that the first sixteen bytes of `s` hold.
pub open spec fn header_of(s: Seq<u8>) -> Header {
    Header {
        interface_family: s[0],
        index: u32_at(s, 4),
        link_layer_type: layer_type_of(u16_at(s, 2)),
        flags: Flags(u32_at(s, 8)),
        change_mask: Flags(u32_at(s, 12)),
    }
}

impl Header {
    /// A header of family unspecified, Ethernet link layer, index 0 and no
    /// flags.
    pub fn new() -> (r: Header)
        ensures
            r.interface_family == 0,
            r.index == 0,
            r.link_layer_type == LayerType::Ether,
            r.flags == Flags(0),
            r.change_mask == Flags(0),
    {
        Header {
            interface_family: 0,
            link_layer_type: LayerType::Ether,
            flags: Flags::new(),
            change_mask: Flags::new(),
            index: 0,
        }
    }

    /// The sixteen bytes of the header; the reserved byte is zero.
    pub open spec fn spec_bytes(&self) -> Seq<u8> {
        seq![self.interface_family, 0u8] + u16_bytes(self.link_layer_type.spec_raw()) + u32_bytes(
            self.index,
        ) + u32_bytes(self.flags.0) + u32_bytes(self.change_mask.0)
    }

    pub fn buffer_len(&self) -> (r: usize)
        ensures
            r == LINK_HEADER_LEN,
    {
        LINK_HEADER_LEN
    }

    /// Appends the sixteen header bytes.
    pub fn emit_into(&self, out: &mut Vec<u8>)
        ensures
            final(out)@ == old(out)@ + self.spec_bytes(),
    {
        out.push(self.interface_family);
        out.push(0u8);
        push_u16(out, self.link_layer_type.to_raw());
        push_u32(out, self.index);
        push_u32(out, self.flags.0);
        push_u32(out, self.change_mask.0);
        assert(final(out)@ =~= old(out)@ + self.spec_bytes());
    }

    /// Writes the header at the front of `buffer`.
    pub fn emit(&self, buffer: &mut [u8])
        requires
            old(buffer)@.len() >= LINK_HEADER_LEN,
        ensures
            final(buffer)@ == splice(old(buffer)@, 0, self.spec_bytes()),
    {
        let mut bytes: Vec<u8> = Vec::new();
        self.emit_into(&mut bytes);
        proof {
            lemma_int_bytes();
        }
        set_bytes(buffer, 0, bytes.as_slice());
    }

    /// Reads the header of a buffer that holds one.
    pub fn parse(buf: &MessageBuffer) -> (r: Result<Header, DecodeError>)
        requires
            buf@.len() >= LINK_HEADER_LEN,
        ensures
            r is Ok,
            r->Ok_0 == header_of(buf@),
    {
        Ok(
            Header {
                interface_family: buf.interface_family(),
                link_layer_type: LayerType::from_raw(buf.link_layer_type()),
                index: buf.link_index(),
                change_mask: Flags(buf.change_mask()),
                flags: Flags(buf.flags()),
            },
        )
    }

    /// Reading the bytes of a header gives it back, whatever follows them.
    pub proof fn lemma_round_trip(&self, rest: Seq<u8>)
        requires
            self.link_layer_type.spec_wf(),
        ensures
            self.spec_bytes().len() == LINK_HEADER_LEN,
            header_of(self.spec_bytes() + rest) == *self,
    {
        lemma_int_bytes();
        let s = self.spec_bytes() + rest;
        assert(s.subrange(2, 4) =~= u16_bytes(self.link_layer_type.spec_raw()));
        assert(s.subrange(4, 8) =~= u32_bytes(self.index));
        assert(s.subrange(8, 12) =~= u32_bytes(self.flags.0));
        assert(s.subrange(12, 16) =~= u32_bytes(self.change_mask.0));
    }
}

impl Default for Header {
    fn default() -> (r: Header)
        ensures
            r == Header::spec_new(),
    {
        Header::new()
    }
}

impl Header {
    pub open spec fn spec_new() -> Header {
        Header {
            interface_family: 0,
            index: 0,
            link_layer_type: LayerType::Ether,
            flags: Flags(0),
            change_mask: Flags(0),
        }
    }
}

/// Each of the records `rs` decodes in a message of family `family`.
pub open spec fn link_nlas_parse(rs: Seq<(u16, Seq<u8>)>, family: u16) -> bool {
    forall|i: int| 0 <= i < rs.len() ==> Nla::spec_parses_with(#[trigger] rs[i].0, rs[i].1, family)
}

/// `ys` is what decoding the records `rs` gives in a message of family
/// `family`.
pub open spec fn link_nlas_decode(ys: Seq<Nla>, rs: Seq<(u16, Seq<u8>)>, family: u16) -> bool {
    &&& ys.len() == rs.len()
    &&& forall|i: int|
        0 <= i < ys.len() ==> (#[trigger] ys[i]).spec_decodes_with(rs[i].0, rs[i].1, family)
}

/// Link attributes can be decoded from `s` in a message of family `family`.
pub open spec fn link_nlas_parse_bytes(s: Seq<u8>, family: u16) -> bool {
    decode_records(s) is Some && link_nlas_parse(decode_records(s)->Some_0, family)
}


/// Every well-formed record of `s`, up to the first malformed one, decodes
/// as a link attribute in a message of family `family`.
pub open spec fn link_formed_parse(s: Seq<u8>, family: u16) -> bool {
    forall|i: int|
        0 <= i < scan(s).len() && (#[trigger] scan(s)[i]) is Some ==> Nla::spec_parses_with(
            rec_kind(scan(s)[i]->Some_0),
            rec_value(scan(s)[i]->Some_0),
            family,
        )
}

/// Decodes every record of `payload` as a link attribute of a message of
/// family `family`, in order. Fails at the first malformed record or the
/// first record that does not decode; when the failure is a malformed
/// record, it is a truncation.
pub fn parse_link_nlas(payload: &[u8], family: u16) -> (r: Result<Vec<Nla>, DecodeError>)
    ensures
        r is Ok <==> link_nlas_parse_bytes(payload@, family),
        r is Ok ==> link_nlas_decode(r->Ok_0@, decode_records(payload@)->Some_0, family),
        !crate::nla::all_some(scan(payload@)) && link_formed_parse(payload@, family) ==> r is Err
            && r->Err_0.kind == ErrorKind::Truncated,
{
    let items = nlas(payload);
    let ghost sc = scan(payload@);
    proof {
        crate::nla::lemma_scan_valid(payload@);
    }
    let n = items.len();
    let mut out: Vec<Nla> = Vec::new();
    let mut i: usize = 0;
    while i < n
        invariant
            n == items@.len(),
            crate::nla::items_view(items@) == sc,
            sc == scan(payload@),
            forall|j: int|
                0 <= j < sc.len() && (#[trigger] sc[j]) is Some ==> header_valid(sc[j]->Some_0)
                    && u16_at(sc[j]->Some_0, 0) == sc[j]->Some_0.len(),
            i <= n,
            out@.len() == i,
            forall|j: int| 0 <= j < i ==> (#[trigger] sc[j]) is Some,
            forall|j: int|
                0 <= j < i ==> (#[trigger] out@[j]).spec_decodes_with(
                    rec_kind(sc[j]->Some_0),
                    rec_value(sc[j]->Some_0),
                    family,
                ),
            forall|j: int|
                0 <= j < i ==> Nla::spec_parses_with(
                    rec_kind(#[trigger] sc[j]->Some_0),
                    rec_value(sc[j]->Some_0),
                    family,
                ),
        decreases n - i,
    {
        assert(crate::nla::item_view(items@[i as int]) == sc[i as int]);
        match &items[i] {
            Err(_) => {
                assert(!crate::nla::all_some(sc));
                return Err(DecodeError::new(ErrorKind::Truncated).context("invalid link NLA"));
            },
            Ok(b) => {
                assert(sc[i as int] == Some(b@));
                assert(b.spec_value() == rec_value(b@));
                match Nla::parse_with_param(b, family) {
                    Ok(x) => {
                        out.push(x);
                    },
                    Err(e) => {
                        proof {
                            if crate::nla::all_some(sc) {
                                let rs = decode_records(payload@)->Some_0;
                                assert(rs.len() == sc.len());
                                assert(rs[i as int] == (rec_kind(b@), rec_value(b@)));
                                assert(!Nla::spec_parses_with(rs[i as int].0, rs[i as int].1,
                                    family));
                                assert(!link_nlas_parse(rs, family));
                            }
                            assert(!Nla::spec_parses_with(
                                rec_kind(sc[i as int]->Some_0),
                                rec_value(sc[i as int]->Some_0),
                                family,
                            ));
                            assert(!link_formed_parse(payload@, family));
                        }
                        return Err(e);
                    },
                }
            },
        }
        i = i + 1;
    }
    assert(crate::nla::all_some(sc));
    let ghost rs = decode_records(payload@)->Some_0;
    assert forall|j: int| 0 <= j < rs.len() implies Nla::spec_parses_with(
        #[trigger] rs[j].0,
        rs[j].1,
        family,
    ) by {
        assert(rs[j] == (rec_kind(sc[j]->Some_0), rec_value(sc[j]->Some_0)));
    }
    assert forall|j: int| 0 <= j < out@.len() implies (#[trigger] out@[j]).spec_decodes_with(
        rs[j].0,
        rs[j].1,
        family,
    ) by {
        assert(rs[j] == (rec_kind(sc[j]->Some_0), rec_value(sc[j]->Some_0)));
    }
    Ok(out)
}

/// A link message: the header, then the link attributes in order.
#[derive(Debug, Clone, PartialEq, Eq)]
pub struct Message {
    pub header: Header,
    pub nlas: Vec<Nla>,
}

impl Message {
    /// A message with a default header and no attributes.
    pub fn new() -> (r: Message)
        ensures
            r.header == Header::spec_new(),
            r.nlas@.len() == 0,
    {
        Message::from_parts(Header::new(), Vec::new())
    }

    pub fn into_parts(self) -> (r: (Header, Vec<Nla>))
        ensures
            r.0 == self.header,
            r.1 == self.nlas,
    {
        (self.header, self.nlas)
    }

    pub fn from_parts(header: Header, nlas: Vec<Nla>) -> (r: Message)
        ensures
            r.header == header,
            r.nlas == nlas,
    {
        Message { header, nlas }
    }

    /// The family that attribute decoding depends on.
    pub open spec fn spec_family(&self) -> u16 {
        self.header.interface_family as u16
    }

    /// The encoding: the header, then the records of the attributes.
    pub open spec fn spec_bytes(&self) -> Seq<u8> {
        self.header.spec_bytes() + nlas_bytes(self.nlas@)
    }

    /// Every attribute, and everything nested in it, fits in its record, and
    /// the whole message fits in memory.
    pub open spec fn spec_fits(&self) -> bool {
        nlas_fit(self.nlas@) && self.spec_bytes().len() <= usize::MAX
    }

    /// Decoding the encoding gives the message back: the layer type is not
    /// an `Other` that hides a named one, and each attribute is well formed
    /// for the message's family.
    pub open spec fn spec_wf(&self) -> bool {
        &&& self.header.link_layer_type.spec_wf()
        &&& forall|i: int|
            0 <= i < self.nlas@.len() ==> (#[trigger] self.nlas@[i]).spec_wf_with(
                self.spec_family(),
            )
    }

    /// The exact number of bytes of the encoding.
    pub fn buffer_len(&self) -> (r: usize)
        requires
            self.spec_fits(),
        ensures
            r == self.spec_bytes().len(),
    {
        proof {
            lemma_int_bytes();
        }
        self.header.buffer_len() + nlas_buffer_len(self.nlas.as_slice())
    }

    /// The encoding, as a new vector.
    pub fn to_bytes(&self) -> (r: Vec<u8>)
        requires
            self.spec_fits(),
        ensures
            r@ == self.spec_bytes(),
    {
        let mut out: Vec<u8> = Vec::new();
        self.header.emit_into(&mut out);
        emit_nlas(self.nlas.as_slice(), &mut out);
        assert(out@ =~= self.spec_bytes());
        out
    }

    /// Writes the encoding at the front of `buffer`; the bytes after it are
    /// left as they were.
    pub fn emit(&self, buffer: &mut [u8])
        requires
            self.spec_fits(),
            old(buffer)@.len() >= self.spec_bytes().len(),
        ensures
            final(buffer)@ == splice(old(buffer)@, 0, self.spec_bytes()),
    {
        let bytes = self.to_bytes();
        set_bytes(buffer, 0, bytes.as_slice());
    }

    /// A message can be decoded from `s`: it holds a header, and the bytes
    /// after it are attributes that decode for the header's family.
    pub open spec fn spec_parses(s: Seq<u8>) -> bool {
        s.len() >= LINK_HEADER_LEN && link_nlas_parse_bytes(
            s.subrange(LINK_HEADER_LEN as int, s.len() as int),
            s[0] as u16,
        )
    }

    /// `self` is what decoding `s` gives.
    pub open spec fn spec_decodes(&self, s: Seq<u8>) -> bool {
        let payload = s.subrange(LINK_HEADER_LEN as int, s.len() as int);
        &&& self.header == header_of(s)
        &&& link_nlas_decode(self.nlas@, decode_records(payload)->Some_0, s[0] as u16)
    }

    /// Decodes a message: the header first, then the attributes, which are
    /// interpreted according to the header's interface family.
    pub fn parse(buf: &MessageBuffer) -> (r: Result<Message, DecodeError>)
        ensures
            r is Ok <==> Message::spec_parses(buf@),
            r is Ok ==> r->Ok_0.spec_decodes(buf@),
            buf@.len() < LINK_HEADER_LEN ==> r is Err && r->Err_0.kind == ErrorKind::Truncated,
            buf@.len() >= LINK_HEADER_LEN && r is Err ==> r->Err_0.context@.len() > 0
                && r->Err_0.context@.last() == "failed to parse link message NLAs",
            buf@.len() >= LINK_HEADER_LEN && !crate::nla::all_some(
                scan(buf@.subrange(LINK_HEADER_LEN as int, buf@.len() as int)),
            ) && link_formed_parse(
                buf@.subrange(LINK_HEADER_LEN as int, buf@.len() as int),
                buf@[0] as u16,
            ) ==> r is Err && r->Err_0.kind == ErrorKind::Truncated,
    {
        if buf.buffer.len() < LINK_HEADER_LEN {
            return Err(
                DecodeError::new(ErrorKind::Truncated).context(
                    "failed to parse link message header",
                ),
            );
        }
        let header = match with_context(Header::parse(buf), "failed to parse link message header") {
            Ok(h) => h,
            Err(e) => {
                return Err(e);
            },
        };
        let family = header.interface_family as u16;
        match with_context(
            parse_link_nlas(buf.payload(), family),
            "failed to parse link message NLAs",
        ) {
            Ok(nlas) => Ok(Message { header, nlas }),
            Err(e) => Err(e),
        }
    }

    /// Emitting a well-formed message into a buffer of exactly its length
    /// leaves its encoding there, and decoding that encoding succeeds and
    /// gives a message with the same header whose attributes encode exactly
    /// as those of the message that was emitted.
    pub proof fn lemma_round_trip(&self)
        requires
            self.spec_wf(),
            self.spec_fits(),
        ensures
            forall|b: Seq<u8>|
                b.len() == self.spec_bytes().len() ==> #[trigger] splice(b, 0, self.spec_bytes())
                    == self.spec_bytes(),
            Message::spec_parses(self.spec_bytes()),
            self.spec_decodes(self.spec_bytes()),
            forall|m: Message| #[trigger]
                m.spec_decodes(self.spec_bytes()) ==> m.header == self.header && nla_records(
                    m.nlas@,
                ) == nla_records(self.nlas@),
    {
        assert forall|b: Seq<u8>| b.len() == self.spec_bytes().len() implies #[trigger] splice(
            b,
            0,
            self.spec_bytes(),
        ) == self.spec_bytes() by {
            crate::wire::lemma_splice_whole(b, self.spec_bytes());
        }
        let s = self.spec_bytes();
        let xs = self.nlas@;
        let family = self.spec_family();
        self.header.lemma_round_trip(nlas_bytes(xs));
        let payload = s.subrange(LINK_HEADER_LEN as int, s.len() as int);
        assert(payload =~= nlas_bytes(xs));
        assert(s[0] == self.header.interface_family);
        lemma_records_round_trip(nla_records(xs));
        let rs = nla_records(xs);
        assert forall|i: int| 0 <= i < rs.len() implies Nla::spec_parses_with(
            #[trigger] rs[i].0,
            rs[i].1,
            family,
        ) by {
            xs[i].lemma_round_trip_with(family);
        }
        assert forall|i: int| 0 <= i < xs.len() implies (#[trigger] xs[i]).spec_decodes_with(
            rs[i].0,
            rs[i].1,
            family,
        ) by {
            xs[i].lemma_round_trip_with(family);
        }
        assert forall|m: Message| #[trigger]
            m.spec_decodes(self.spec_bytes()) implies m.header == self.header && nla_records(
            m.nlas@,
        ) == nla_records(self.nlas@) by {
            let ys = m.nlas@;
            assert forall|i: int| 0 <= i < xs.len() implies #[trigger] nla_records(xs)[i]
                == nla_records(ys)[i] by {
                xs[i].lemma_decodes_unique_with(&ys[i], rs[i].0, rs[i].1, family);
            }
            assert(nla_records(xs) =~= nla_records(ys));
        }
    }
}

impl Default for Message {
    fn default() -> (r: Message)
        ensures
            r.header == Header::spec_new(),
            r.nlas@.len() == 0,
    {
        Message::new()
    }
}

/// The layout class of the address-family specific attribute under a family:
/// per-family IP attributes (IPv4, IPv6, unspecified), bridge bytes, or bytes
/// of a layout this library does not read.
pub open spec fn af_spec_class(family: u16) -> int {
    if is_inet_family(family) {
        0
    } else if family == AF_BRIDGE {
        1
    } else {
        2
    }
}

/// Decoding depends on the family: the same address-family specific record
/// decodes to per-family IP attributes exactly under an IP family, to bridge
/// bytes exactly under the bridge family, and to unknown bytes under any other
/// family; so under families of different classes the same bytes decode to
/// different variants. Under one family, any two decodings of the same record
/// encode alike: the result depends on the bytes and the family alone.
pub proof fn lemma_family_dispatch(value: Seq<u8>, f1: u16, f2: u16, x: Nla, y: Nla)
    requires
        x.spec_decodes_with(IFLA_AF_SPEC, value, f1),
        y.spec_decodes_with(IFLA_AF_SPEC, value, f2),
    ensures
        x is AfSpecInet <==> af_spec_class(f1) == 0,
        x is AfSpecBridge <==> af_spec_class(f1) == 1,
        x is AfSpecUnknown <==> af_spec_class(f1) == 2,
        y is AfSpecInet <==> af_spec_class(f2) == 0,
        y is AfSpecBridge <==> af_spec_class(f2) == 1,
        y is AfSpecUnknown <==> af_spec_class(f2) == 2,
        af_spec_class(f1) != af_spec_class(f2) ==> !((x is AfSpecInet && y is AfSpecInet) || (
        x is AfSpecBridge && y is AfSpecBridge) || (x is AfSpecUnknown && y is AfSpecUnknown)),
        f1 == f2 ==> x.spec_kind() == y.spec_kind() && x.spec_value() == y.spec_value(),
        af_spec_class(f1) != 0 ==> Nla::spec_parses_with(IFLA_AF_SPEC, value, f1),
        af_spec_class(f2) != 0 ==> Nla::spec_parses_with(IFLA_AF_SPEC, value, f2),
{
    if f1 == f2 {
        x.lemma_decodes_unique_with(&y, IFLA_AF_SPEC, value, f1);
    }
}

/// Decodes the link attributes of `payload` for a family given as the byte
/// of a link header; the same as decoding them for that family widened to
/// 16 bits.
pub fn parse_link_nlas_u8(payload: &[u8], family: u8) -> (r: Result<Vec<Nla>, DecodeError>)
    ensures
        r is Ok <==> link_nlas_parse_bytes(payload@, family as u16),
        r is Ok ==> link_nlas_decode(r->Ok_0@, decode_records(payload@)->Some_0, family as u16),
        !crate::nla::all_some(scan(payload@)) && link_formed_parse(payload@, family as u16)
            ==> r is Err && r->Err_0.kind == ErrorKind::Truncated,
{
    parse_link_nlas(payload, family as u16)
}

/// An attribute of a kind that the link catalog does not recognize decodes,
/// in a message of any family, to the fallback, and re-encoding that
/// fallback reproduces the record it came from, byte for byte.
pub proof fn lemma_unknown_kind_round_trip(d: crate::nla::DefaultNla, family: u16)
    requires
        !crate::link_nlas::link_known_kind(d.kind),
        crate::nla::nla_fits(d.value@.len() as int),
    ensures
        decode_records(crate::nla::record_bytes(d.kind, d.value@)) == Some(seq![(d.kind,
            d.value@)]),
        Nla::spec_parses_with(d.kind, d.value@, family),
        forall|y: Nla| #[trigger]
            y.spec_decodes_with(d.kind, d.value@, family) ==> y is Other
                && crate::nla::record_bytes(
                y.spec_kind(),
                y.spec_value(),
            ) == crate::nla::record_bytes(d.kind, d.value@),
{
    crate::nla::lemma_record_round_trip(d.kind, d.value@);
}

} // verus!
