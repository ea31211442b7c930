//! Neighbour (ARP and NDP cache) messages.
use vstd::prelude::*;
use vstd::slice::slice_subrange;

use crate::collections::{neighbour_nla_items, NlaVec};
use crate::error::{with_context, DecodeError, ErrorKind};
use crate::nla::{
    all_some, nlas_formed_parse,
    decode_records, emit_nlas, lemma_nlas_decode_unique, lemma_nlas_round_trip, nla_records, nlas,
    nlas_buffer_len, nlas_bytes, nlas_decode, nlas_fit, nlas_parse_bytes, nlas_wf, parse_nlas,
    scan, slice_to_vec, zeros, DefaultNla, Nla as NlaTrait, NlaBuffer, NlaParse,
};
use crate::parsers::{parse_u16, parse_u32};
use crate::wire::{
    get_u16, get_u32, lemma_int_at_zero, lemma_int_bytes, push_bytes, push_u16, push_u32,
    push_zeros, set_bytes, splice, u16_at, u16_bytes, u32_at, u32_bytes,
};

verus! {

broadcast use vstd::slice::group_slice_axioms;

pub const NEIGHBOUR_CACHE_INFO_LEN: usize = 16;

/// Neighbour cache timing information (`struct nda_cacheinfo`).
#[derive(Debug, Clone, Copy, PartialEq, Eq, Structural)]
pub struct CacheInfo {
    pub confirmed: u32,
    pub used: u32,
    pub updated: u32,
    pub refcnt: u32,
}

/// The CacheInfo that the first 16 bytes of `s` hold.
pub open spec fn cache_info_of(s: Seq<u8>) -> CacheInfo {
    CacheInfo {
        confirmed: u32_at(s, 0),
        used: u32_at(s, 4),
        updated: u32_at(s, 8),
        refcnt: u32_at(s, 12),
    }
}

impl CacheInfo {
    /// Reading the bytes of the structure gives it back, whatever follows
    /// them.
    #[verifier::spinoff_prover]
    #[verifier::rlimit(50)]
    pub proof fn lemma_round_trip(&self, rest: Seq<u8>)
        ensures
            self.spec_bytes().len() == NEIGHBOUR_CACHE_INFO_LEN,
            cache_info_of(self.spec_bytes() + rest) == *self,
    {
        lemma_int_bytes();
        let s = self.spec_bytes() + rest;
        assert(s.subrange(0, 4) =~= u32_bytes(self.confirmed));
        assert(s.subrange(4, 8) =~= u32_bytes(self.used));
        assert(s.subrange(8, 12) =~= u32_bytes(self.updated));
        assert(s.subrange(12, 16) =~= u32_bytes(self.refcnt));
    }

    /// The 16 bytes of the structure, fields in order at their offsets.
    pub open spec fn spec_bytes(&self) -> Seq<u8> {
        (u32_bytes(self.confirmed) + u32_bytes(self.used) + u32_bytes(self.updated)
            + u32_bytes(self.refcnt))
    }

    pub fn buffer_len(&self) -> (r: usize)
        ensures
            r == NEIGHBOUR_CACHE_INFO_LEN,
    {
        NEIGHBOUR_CACHE_INFO_LEN
    }

    /// Reads the structure from the front of `payload`, which must hold at
    /// least 16 bytes; bytes after them are not read.
    pub fn parse(payload: &[u8]) -> (r: Result<CacheInfo, DecodeError>)
        ensures
            r is Ok <==> payload@.len() >= NEIGHBOUR_CACHE_INFO_LEN,
            r is Ok ==> r->Ok_0 == cache_info_of(payload@),
            r is Err ==> r->Err_0.kind == ErrorKind::Truncated,
    {
        if payload.len() < NEIGHBOUR_CACHE_INFO_LEN {
            return Err(DecodeError::new(ErrorKind::Truncated)
                .context("buffer too short for CacheInfo"));
        }
        Ok(
            CacheInfo {
                confirmed: get_u32(payload, 0),
                used: get_u32(payload, 4),
                updated: get_u32(payload, 8),
                refcnt: get_u32(payload, 12),
            },
        )
    }

    /// Appends the 16 bytes of the structure.
    #[verifier::spinoff_prover]
    #[verifier::rlimit(50)]
    pub fn emit_into(&self, out: &mut Vec<u8>)
        ensures
            final(out)@ == old(out)@ + self.spec_bytes(),
    {
        let ghost start = out@;
        let ghost g0 = out@;
        push_u32(out, self.confirmed);
        push_u32(out, self.used);
        push_u32(out, self.updated);
        push_u32(out, self.refcnt);
        assert(out@ =~= g0 + (u32_bytes(self.confirmed) + u32_bytes(self.used)
            + u32_bytes(self.updated) + u32_bytes(self.refcnt)));
        assert(out@ =~= start + self.spec_bytes());
    }

    /// Writes the structure at the front of `buffer`.
    pub fn emit(&self, buffer: &mut [u8])
        requires
            old(buffer)@.len() >= NEIGHBOUR_CACHE_INFO_LEN,
        ensures
            final(buffer)@ == splice(old(buffer)@, 0, self.spec_bytes()),
    {
        let mut bytes: Vec<u8> = Vec::new();
        self.emit_into(&mut bytes);
        proof {
            lemma_int_bytes();
        }
        set_bytes(buffer, 0, bytes.as_slice());
    }
}

pub const NDA_UNSPEC: u16 = 0;
pub const NDA_DST: u16 = 1;
pub const NDA_LLADDR: u16 = 2;
pub const NDA_CACHEINFO: u16 = 3;
pub const NDA_PROBES: u16 = 4;
pub const NDA_VLAN: u16 = 5;
pub const NDA_PORT: u16 = 6;
pub const NDA_VNI: u16 = 7;
pub const NDA_IFINDEX: u16 = 8;
pub const NDA_MASTER: u16 = 9;
pub const NDA_LINK_NETNSID: u16 = 10;
pub const NDA_SRC_VNI: u16 = 11;

/// Neighbour attributes.
#[derive(Debug, Clone, PartialEq, Eq)]
pub enum Nla {
    Unspec(Vec<u8>),
    Destination(Vec<u8>),
    LinkLocalAddress(Vec<u8>),
    CacheInfo(CacheInfo),
    Probes(Vec<u8>),
    Vlan(u16),
    Port(Vec<u8>),
    Vni(u32),
    IfIndex(u32),
    Master(Vec<u8>),
    LinkNetNsId(Vec<u8>),
    SourceVni(u32),
    Other(DefaultNla),
}

pub open spec fn nla_known_kind(kind: u16) -> bool {
    kind == NDA_UNSPEC
    || kind == NDA_DST
    || kind == NDA_LLADDR
    || kind == NDA_CACHEINFO
    || kind == NDA_PROBES
    || kind == NDA_VLAN
    || kind == NDA_PORT
    || kind == NDA_VNI
    || kind == NDA_IFINDEX
    || kind == NDA_MASTER
    || kind == NDA_LINK_NETNSID
    || kind == NDA_SRC_VNI
}

impl NlaTrait for Nla {
    open spec fn spec_kind(&self) -> u16 {
        match self {
            Nla::Unspec(_) => NDA_UNSPEC,
            Nla::Destination(_) => NDA_DST,
            Nla::LinkLocalAddress(_) => NDA_LLADDR,
            Nla::CacheInfo(_) => NDA_CACHEINFO,
            Nla::Probes(_) => NDA_PROBES,
            Nla::Vlan(_) => NDA_VLAN,
            Nla::Port(_) => NDA_PORT,
            Nla::Vni(_) => NDA_VNI,
            Nla::IfIndex(_) => NDA_IFINDEX,
            Nla::Master(_) => NDA_MASTER,
            Nla::LinkNetNsId(_) => NDA_LINK_NETNSID,
            Nla::SourceVni(_) => NDA_SRC_VNI,
            Nla::Other(d) => d.kind,
        }
    }

    open spec fn spec_value(&self) -> Seq<u8> {
        match self {
            Nla::Unspec(x) => x@,
            Nla::Destination(x) => x@,
            Nla::LinkLocalAddress(x) => x@,
            Nla::CacheInfo(x) => x.spec_bytes(),
            Nla::Probes(x) => x@,
            Nla::Vlan(x) => u16_bytes(*x),
            Nla::Port(x) => x@,
            Nla::Vni(x) => u32_bytes(*x),
            Nla::IfIndex(x) => u32_bytes(*x),
            Nla::Master(x) => x@,
            Nla::LinkNetNsId(x) => x@,
            Nla::SourceVni(x) => u32_bytes(*x),
            Nla::Other(d) => d.value@,
        }
    }

    open spec fn spec_fits(&self) -> bool {
        true
    }

    fn kind(&self) -> (r: u16) {
        match self {
            Nla::Unspec(_) => NDA_UNSPEC,
            Nla::Destination(_) => NDA_DST,
            Nla::LinkLocalAddress(_) => NDA_LLADDR,
            Nla::CacheInfo(_) => NDA_CACHEINFO,
            Nla::Probes(_) => NDA_PROBES,
            Nla::Vlan(_) => NDA_VLAN,
            Nla::Port(_) => NDA_PORT,
            Nla::Vni(_) => NDA_VNI,
            Nla::IfIndex(_) => NDA_IFINDEX,
            Nla::Master(_) => NDA_MASTER,
            Nla::LinkNetNsId(_) => NDA_LINK_NETNSID,
            Nla::SourceVni(_) => NDA_SRC_VNI,
            Nla::Other(d) => d.kind,
        }
    }

    fn value_len(&self) -> (r: usize) {
        proof {
            lemma_int_bytes();
            match self {
                Nla::CacheInfo(x) => x.lemma_round_trip(seq![]),
                _ => {},
            }
        }
        match self {
            Nla::Unspec(x) => x.len(),
            Nla::Destination(x) => x.len(),
            Nla::LinkLocalAddress(x) => x.len(),
            Nla::CacheInfo(x) => NEIGHBOUR_CACHE_INFO_LEN,
            Nla::Probes(x) => x.len(),
            Nla::Vlan(x) => 2,
            Nla::Port(x) => x.len(),
            Nla::Vni(x) => 4,
            Nla::IfIndex(x) => 4,
            Nla::Master(x) => x.len(),
            Nla::LinkNetNsId(x) => x.len(),
            Nla::SourceVni(x) => 4,
            Nla::Other(d) => d.value.len(),
        }
    }

    fn emit_value(&self, out: &mut Vec<u8>) {
        match self {
            Nla::Unspec(x) => push_bytes(out, x.as_slice()),
            Nla::Destination(x) => push_bytes(out, x.as_slice()),
            Nla::LinkLocalAddress(x) => push_bytes(out, x.as_slice()),
            Nla::CacheInfo(x) => x.emit_into(out),
            Nla::Probes(x) => push_bytes(out, x.as_slice()),
            Nla::Vlan(x) => push_u16(out, *x),
            Nla::Port(x) => push_bytes(out, x.as_slice()),
            Nla::Vni(x) => push_u32(out, *x),
            Nla::IfIndex(x) => push_u32(out, *x),
            Nla::Master(x) => push_bytes(out, x.as_slice()),
            Nla::LinkNetNsId(x) => push_bytes(out, x.as_slice()),
            Nla::SourceVni(x) => push_u32(out, *x),
            Nla::Other(d) => push_bytes(out, d.value.as_slice()),
        }
    }
}

/// The context message of a failure to decode a record of this kind.
pub open spec fn neighbour_context(kind: u16) -> &'static str {
    if kind == NDA_CACHEINFO {
        "invalid NDA_CACHEINFO value"
    } else if kind == NDA_VLAN {
        "invalid NDA_VLAN value"
    } else if kind == NDA_VNI {
        "invalid NDA_VNI value"
    } else if kind == NDA_IFINDEX {
        "invalid NDA_IFINDEX value"
    } else if kind == NDA_SRC_VNI {
        "invalid NDA_SRC_VNI value"
    } else {
        "invalid NLA"
    }
}

impl NlaParse for Nla {
    open spec fn spec_parses(kind: u16, value: Seq<u8>) -> bool {
        if kind == NDA_CACHEINFO {
            value.len() >= NEIGHBOUR_CACHE_INFO_LEN
        } else if kind == NDA_VLAN {
            value.len() == 2
        } else if kind == NDA_VNI {
            value.len() == 4
        } else if kind == NDA_IFINDEX {
            value.len() == 4
        } else if kind == NDA_SRC_VNI {
            value.len() == 4
        } else {
            true
        }
    }

    open spec fn spec_decodes(&self, kind: u16, value: Seq<u8>) -> bool {
        match self {
            Nla::Unspec(x) => kind == NDA_UNSPEC && x@ == value,
            Nla::Destination(x) => kind == NDA_DST && x@ == value,
            Nla::LinkLocalAddress(x) => kind == NDA_LLADDR && x@ == value,
            Nla::CacheInfo(x) => kind == NDA_CACHEINFO
                && value.len() >= NEIGHBOUR_CACHE_INFO_LEN && *x == cache_info_of(value),
            Nla::Probes(x) => kind == NDA_PROBES && x@ == value,
            Nla::Vlan(x) => kind == NDA_VLAN && value.len() == 2 && *x == u16_at(value, 0),
            Nla::Port(x) => kind == NDA_PORT && x@ == value,
            Nla::Vni(x) => kind == NDA_VNI && value.len() == 4 && *x == u32_at(value, 0),
            Nla::IfIndex(x) => kind == NDA_IFINDEX && value.len() == 4 && *x == u32_at(value, 0),
            Nla::Master(x) => kind == NDA_MASTER && x@ == value,
            Nla::LinkNetNsId(x) => kind == NDA_LINK_NETNSID && x@ == value,
            Nla::SourceVni(x) => kind == NDA_SRC_VNI && value.len() == 4 && *x == u32_at(value, 0),
            Nla::Other(d) => !nla_known_kind(kind) && d.kind == kind && d.value@ == value,
        }
    }

    open spec fn spec_wf(&self) -> bool {
        match self {
            Nla::Other(d) => !nla_known_kind(d.kind),
            _ => true,
        }
    }

    open spec fn spec_context(kind: u16) -> &'static str {
        neighbour_context(kind)
    }

    fn parse(buf: &NlaBuffer) -> (r: Result<Self, DecodeError>) {
        let payload = buf.value();
        let kind = buf.kind();
        if kind == NDA_UNSPEC {
            Ok(Nla::Unspec(slice_to_vec(payload)))
        } else if kind == NDA_DST {
            Ok(Nla::Destination(slice_to_vec(payload)))
        } else if kind == NDA_LLADDR {
            Ok(Nla::LinkLocalAddress(slice_to_vec(payload)))
        } else if kind == NDA_CACHEINFO {
            match with_context(CacheInfo::parse(payload), "invalid NDA_CACHEINFO value") {
                Ok(x) => Ok(Nla::CacheInfo(x)),
                Err(e) => Err(e),
            }
        } else if kind == NDA_PROBES {
            Ok(Nla::Probes(slice_to_vec(payload)))
        } else if kind == NDA_VLAN {
            match with_context(parse_u16(payload), "invalid NDA_VLAN value") {
                Ok(x) => Ok(Nla::Vlan(x)),
                Err(e) => Err(e),
            }
        } else if kind == NDA_PORT {
            Ok(Nla::Port(slice_to_vec(payload)))
        } else if kind == NDA_VNI {
            match with_context(parse_u32(payload), "invalid NDA_VNI value") {
                Ok(x) => Ok(Nla::Vni(x)),
                Err(e) => Err(e),
            }
        } else if kind == NDA_IFINDEX {
            match with_context(parse_u32(payload), "invalid NDA_IFINDEX value") {
                Ok(x) => Ok(Nla::IfIndex(x)),
                Err(e) => Err(e),
            }
        } else if kind == NDA_MASTER {
            Ok(Nla::Master(slice_to_vec(payload)))
        } else if kind == NDA_LINK_NETNSID {
            Ok(Nla::LinkNetNsId(slice_to_vec(payload)))
        } else if kind == NDA_SRC_VNI {
            match with_context(parse_u32(payload), "invalid NDA_SRC_VNI value") {
                Ok(x) => Ok(Nla::SourceVni(x)),
                Err(e) => Err(e),
            }
        } else {
            Ok(Nla::Other(DefaultNla::new(kind, slice_to_vec(payload))))
        }
    }

    proof fn lemma_round_trip(&self) {
        lemma_int_at_zero();
        lemma_int_bytes();
        match self {
            Nla::CacheInfo(x) => {
                x.lemma_round_trip(seq![]);
                assert(x.spec_bytes() + seq![] =~= x.spec_bytes());
            },
            _ => {},
        }
    }

    proof fn lemma_decodes_unique(&self, other: &Self, kind: u16, value: Seq<u8>) {
        lemma_int_bytes();
    }
}

pub const HEADER_LEN: usize = 12;

/// A read-only view of a neighbour message.
///
/// Layout: family (byte 0), padding (1..4), interface index (4..8), state
/// (8..10), flags (10), type (11), then attributes.
#[derive(Debug, Clone, Copy)]
pub struct MessageBuffer<'a> {
    buffer: &'a [u8],
}

impl<'a> View for MessageBuffer<'a> {
    type V = Seq<u8>;

    closed spec fn view(&self) -> Seq<u8> {
        self.buffer@
    }
}

impl<'a> MessageBuffer<'a> {
    pub fn new(buffer: &'a [u8]) -> (r: MessageBuffer<'a>)
        ensures
            r@ == buffer@,
    {
        MessageBuffer { buffer }
    }

    pub fn new_checked(buffer: &'a [u8]) -> (r: Result<MessageBuffer<'a>, DecodeError>)
        ensures
            r is Ok <==> buffer@.len() >= HEADER_LEN,
            r is Ok ==> r->Ok_0@ == buffer@,
            r is Err ==> r->Err_0.kind == ErrorKind::Truncated,
    {
        if buffer.len() < HEADER_LEN {
            Err(DecodeError::new(ErrorKind::Truncated)
                .context("neighbour message buffer too short"))
        } else {
            Ok(MessageBuffer { buffer })
        }
    }

    pub fn family(&self) -> (r: u8)
        requires
            self@.len() >= HEADER_LEN,
        ensures
            r == self@[0],
    {
        self.buffer[0]
    }

    pub fn ifindex(&self) -> (r: u32)
        requires
            self@.len() >= HEADER_LEN,
        ensures
            r == u32_at(self@, 4),
    {
        get_u32(self.buffer, 4)
    }

    pub fn state(&self) -> (r: u16)
        requires
            self@.len() >= HEADER_LEN,
        ensures
            r == u16_at(self@, 8),
    {
        get_u16(self.buffer, 8)
    }

    pub fn flags(&self) -> (r: u8)
        requires
            self@.len() >= HEADER_LEN,
        ensures
            r == self@[10],
    {
        self.buffer[10]
    }

    pub fn ntype(&self) -> (r: u8)
        requires
            self@.len() >= HEADER_LEN,
        ensures
            r == self@[11],
    {
        self.buffer[11]
    }

    /// The bytes after the header.
    pub fn payload(&self) -> (r: &'a [u8])
        requires
            self@.len() >= HEADER_LEN,
        ensures
            r@ == self@.subrange(HEADER_LEN as int, self@.len() as int),
    {
        slice_subrange(self.buffer, HEADER_LEN, self.buffer.len())
    }

    /// The attribute records after the header.
    pub fn nlas(&self) -> (r: Vec<Result<NlaBuffer<'a>, DecodeError>>)
        requires
            self@.len() >= HEADER_LEN,
        ensures
            crate::nla::items_view(r@) == scan(self@.subrange(HEADER_LEN as int,
                self@.len() as int)),
    {
        nlas(self.payload())
    }
}

/// The header of a neighbour message.
#[derive(Debug, Clone, Copy, PartialEq, Eq, Structural)]
pub struct NeighbourHeader {
    /// Address family.
    pub family: u8,
    /// Interface index.
    pub ifindex: u32,
    /// Neighbour state (`NUD_*`).
    pub state: u16,
    /// Neighbour flags (`NTF_*`).
    pub flags: u8,
    /// Neighbour type.
    pub ntype: u8,
}

/// The header that the first 12 bytes of `s` hold.
pub open spec fn neighbour_header_of(s: Seq<u8>) -> NeighbourHeader {
    NeighbourHeader {
        family: s[0],
        ifindex: u32_at(s, 4),
        state: u16_at(s, 8),
        flags: s[10],
        ntype: s[11],
    }
}

impl NeighbourHeader {
    /// The 12 header bytes; padding is zero.
    pub open spec fn spec_bytes(&self) -> Seq<u8> {
        seq![self.family]
            + zeros(3)
            + u32_bytes(self.ifindex)
            + u16_bytes(self.state)
            + seq![self.flags]
            + seq![self.ntype]
    }

    pub fn buffer_len(&self) -> (r: usize)
        ensures
            r == HEADER_LEN,
    {
        HEADER_LEN
    }

    pub fn emit_into(&self, out: &mut Vec<u8>)
        ensures
            final(out)@ == old(out)@ + self.spec_bytes(),
    {
        out.push(self.family);
        push_zeros(out, 3);
        push_u32(out, self.ifindex);
        push_u16(out, self.state);
        out.push(self.flags);
        out.push(self.ntype);
        assert(final(out)@ =~= old(out)@ + self.spec_bytes());
    }

    pub fn emit(&self, buffer: &mut [u8])
        requires
            old(buffer)@.len() >= HEADER_LEN,
        ensures
            final(buffer)@ == splice(old(buffer)@, 0, self.spec_bytes()),
    {
        let mut bytes: Vec<u8> = Vec::new();
        self.emit_into(&mut bytes);
        proof {
            lemma_int_bytes();
        }
        set_bytes(buffer, 0, bytes.as_slice());
    }

    pub fn parse(buf: &MessageBuffer) -> (r: Result<NeighbourHeader, DecodeError>)
        requires
            buf@.len() >= HEADER_LEN,
        ensures
            r is Ok,
            r->Ok_0 == neighbour_header_of(buf@),
    {
        Ok(
            NeighbourHeader {
                family: buf.family(),
                ifindex: buf.ifindex(),
                state: buf.state(),
                flags: buf.flags(),
                ntype: buf.ntype(),
            },
        )
    }

    /// Reading the bytes of a header gives it back, whatever follows them.
    pub proof fn lemma_round_trip(&self, rest: Seq<u8>)
        ensures
            self.spec_bytes().len() == HEADER_LEN,
            neighbour_header_of(self.spec_bytes() + rest) == *self,
    {
        lemma_int_bytes();
        let s = self.spec_bytes() + rest;
        assert(s.subrange(4, 8) =~= u32_bytes(self.ifindex));
        assert(s.subrange(8, 10) =~= u16_bytes(self.state));
    }
}

/// A neighbour message: the header, then its attributes.
#[derive(Debug, Clone, PartialEq, Eq)]
pub struct NeighbourMessage {
    pub header: NeighbourHeader,
    pub nlas: NlaVec<Nla>,
}

impl NeighbourMessage {
    /// A message of this header and these attributes, in order.
    pub fn from_parts(header: NeighbourHeader, nlas: Vec<Nla>) -> (r: NeighbourMessage)
        ensures
            r.header == header,
            neighbour_nla_items(r.nlas) == nlas@,
    {
        NeighbourMessage { header, nlas: NlaVec::<Nla>::from_vec(nlas) }
    }

    /// The attributes, in order.
    pub fn nla_slice(&self) -> (r: &[Nla])
        ensures
            r@ == neighbour_nla_items(self.nlas),
    {
        self.nlas.as_slice()
    }

    pub open spec fn spec_bytes(&self) -> Seq<u8> {
        self.header.spec_bytes() + nlas_bytes(neighbour_nla_items(self.nlas))
    }

    pub open spec fn spec_fits(&self) -> bool {
        nlas_fit(neighbour_nla_items(self.nlas)) && self.spec_bytes().len() <= usize::MAX
    }

    pub open spec fn spec_wf(&self) -> bool {
        nlas_wf(neighbour_nla_items(self.nlas))
    }

    pub fn buffer_len(&self) -> (r: usize)
        requires
            self.spec_fits(),
        ensures
            r == self.spec_bytes().len(),
    {
        proof {
            lemma_int_bytes();
        }
        self.header.buffer_len() + nlas_buffer_len(self.nlas.as_slice())
    }

    pub fn to_bytes(&self) -> (r: Vec<u8>)
        requires
            self.spec_fits(),
        ensures
            r@ == self.spec_bytes(),
    {
        let mut out: Vec<u8> = Vec::new();
        self.header.emit_into(&mut out);
        emit_nlas(self.nlas.as_slice(), &mut out);
        assert(out@ =~= self.spec_bytes());
        out
    }

    /// Writes the header, then the attributes right after it.
    pub fn emit(&self, buffer: &mut [u8])
        requires
            self.spec_fits(),
            old(buffer)@.len() >= self.spec_bytes().len(),
        ensures
            final(buffer)@ == splice(old(buffer)@, 0, self.spec_bytes()),
    {
        let bytes = self.to_bytes();
        set_bytes(buffer, 0, bytes.as_slice());
    }

    pub open spec fn spec_parses(s: Seq<u8>) -> bool {
        s.len() >= HEADER_LEN && nlas_parse_bytes::<Nla>(s.subrange(HEADER_LEN as int,
            s.len() as int))
    }

    pub open spec fn spec_decodes(&self, s: Seq<u8>) -> bool {
        let payload = s.subrange(HEADER_LEN as int, s.len() as int);
        &&& self.header == neighbour_header_of(s)
        &&& nlas_decode(neighbour_nla_items(self.nlas), decode_records(payload)->Some_0)
    }

    /// Decodes a message: the header, then the attributes.
    pub fn parse(buf: &MessageBuffer) -> (r: Result<NeighbourMessage, DecodeError>)
        ensures
            r is Ok <==> NeighbourMessage::spec_parses(buf@),
            r is Ok ==> r->Ok_0.spec_decodes(buf@),
            buf@.len() < HEADER_LEN ==> r is Err && r->Err_0.kind == ErrorKind::Truncated,
            buf@.len() >= HEADER_LEN && r is Err ==> r->Err_0.context@.len() > 0
                && r->Err_0.context@.last() == "failed to parse neighbour message NLAs",
            buf@.len() >= HEADER_LEN && !all_some(scan(buf@.subrange(HEADER_LEN as int,
                buf@.len() as int)))
                && nlas_formed_parse::<Nla>(buf@.subrange(HEADER_LEN as int,
                    buf@.len() as int)) ==> r is Err
                && r->Err_0.kind == ErrorKind::Truncated,
    {
        if buf.buffer.len() < HEADER_LEN {
            return Err(
                DecodeError::new(ErrorKind::Truncated)
                    .context("failed to parse neighbour message header"),
            );
        }
        let header = match with_context(NeighbourHeader::parse(buf),
            "failed to parse neighbour message header") {
            Ok(h) => h,
            Err(e) => {
                return Err(e);
            },
        };
        match with_context(parse_nlas::<Nla>(buf.payload()),
            "failed to parse neighbour message NLAs") {
            Ok(nlas) => Ok(NeighbourMessage { header, nlas: NlaVec::<Nla>::from_vec(nlas) }),
            Err(e) => Err(e),
        }
    }

    /// Emitting a well-formed message into a buffer of exactly its length
    /// leaves its encoding there, and decoding that encoding succeeds and
    /// gives a message with the same header whose attributes encode exactly
    /// as those of the message that was emitted.
    pub proof fn lemma_round_trip(&self)
        requires
            self.spec_wf(),
            self.spec_fits(),
        ensures
            forall|b: Seq<u8>|
                b.len() == self.spec_bytes().len() ==> #[trigger] splice(b, 0, self.spec_bytes())
                    == self.spec_bytes(),
            NeighbourMessage::spec_parses(self.spec_bytes()),
            self.spec_decodes(self.spec_bytes()),
            forall|m: NeighbourMessage| #[trigger]
                m.spec_decodes(self.spec_bytes()) ==> m.header == self.header && nla_records(
                    neighbour_nla_items(m.nlas),
                ) == nla_records(neighbour_nla_items(self.nlas)),
    {
        assert forall|b: Seq<u8>| b.len() == self.spec_bytes().len() implies #[trigger] splice(
            b,
            0,
            self.spec_bytes(),
        ) == self.spec_bytes() by {
            crate::wire::lemma_splice_whole(b, self.spec_bytes());
        }
        let s = self.spec_bytes();
        self.header.lemma_round_trip(nlas_bytes(neighbour_nla_items(self.nlas)));
        let payload = s.subrange(HEADER_LEN as int, s.len() as int);
        assert(payload =~= nlas_bytes(neighbour_nla_items(self.nlas)));
        lemma_nlas_round_trip(neighbour_nla_items(self.nlas));
        assert forall|m: NeighbourMessage| #[trigger]
            m.spec_decodes(self.spec_bytes()) implies m.header == self.header && nla_records(
            neighbour_nla_items(m.nlas),
        ) == nla_records(neighbour_nla_items(self.nlas)) by {
            lemma_nlas_decode_unique(neighbour_nla_items(self.nlas), neighbour_nla_items(m.nlas),
                nla_records(neighbour_nla_items(self.nlas)));
        }
    }
}

} // verus!
