//! The link attribute catalog. Its address-family specific attribute is
//! decoded according to the interface family of the message it is in.
use vstd::prelude::*;

use crate::error::{with_context, DecodeError};
use crate::inet::{Inet, Inet6};
use crate::nla::{
    decode_records, emit_nlas, header_valid, lemma_nlas_decode_unique, lemma_nlas_round_trip,
    nlas_buffer_len, nlas_bytes, nlas_decode, nlas_fit, nlas_parse_bytes, nlas_wf, parse_nlas,
    slice_to_vec, DefaultNla, Nla as NlaTrait, NlaBuffer, NlaParse,
};
use crate::parsers::{
    lemma_string_round_trip, parse_string, parse_u32, parse_u8, push_string, string_bytes,
    string_of, string_value_len,
};
use crate::wire::{lemma_int_at_zero, lemma_int_bytes, push_bytes, push_u32, u32_at, u32_bytes};

verus! {

pub const IFLA_UNSPEC: u16 = 0;
pub const IFLA_ADDRESS: u16 = 1;
pub const IFLA_BROADCAST: u16 = 2;
pub const IFLA_IFNAME: u16 = 3;
pub const IFLA_MTU: u16 = 4;
pub const IFLA_LINK: u16 = 5;
pub const IFLA_QDISC: u16 = 6;
pub const IFLA_MASTER: u16 = 10;
pub const IFLA_TXQLEN: u16 = 13;
pub const IFLA_OPERSTATE: u16 = 16;
pub const IFLA_LINKMODE: u16 = 17;
pub const IFLA_AF_SPEC: u16 = 26;
pub const IFLA_GROUP: u16 = 27;
pub const IFLA_PROMISCUITY: u16 = 30;
pub const IFLA_NUM_TX_QUEUES: u16 = 31;
pub const IFLA_NUM_RX_QUEUES: u16 = 32;
pub const IFLA_CARRIER: u16 = 33;
pub const IFLA_GSO_MAX_SEGS: u16 = 40;
pub const IFLA_GSO_MAX_SIZE: u16 = 41;

pub const AF_UNSPEC: u16 = 0;
pub const AF_INET: u16 = 2;
pub const AF_BRIDGE: u16 = 7;
pub const AF_INET6: u16 = 10;

/// The operational state of a link (RFC 2863).
#[derive(Debug, Clone, Copy, PartialEq, Eq, Structural)]
pub enum State {
    Unknown,
    NotPresent,
    Down,
    LowerLayerDown,
    Testing,
    Dormant,
    Up,
    Other(u8),
}

pub open spec fn state_of(b: u8) -> State {
    if b == 0 {
        State::Unknown
    } else if b == 1 {
        State::NotPresent
    } else if b == 2 {
        State::Down
    } else if b == 3 {
        State::LowerLayerDown
    } else if b == 4 {
        State::Testing
    } else if b == 5 {
        State::Dormant
    } else if b == 6 {
        State::Up
    } else {
        State::Other(b)
    }
}

impl State {
    pub open spec fn spec_raw(&self) -> u8 {
        match self {
            State::Unknown => 0,
            State::NotPresent => 1,
            State::Down => 2,
            State::LowerLayerDown => 3,
            State::Testing => 4,
            State::Dormant => 5,
            State::Up => 6,
            State::Other(b) => *b,
        }
    }

    /// A state of `Other` carries a code that no named state has.
    pub open spec fn spec_wf(&self) -> bool {
        match self {
            State::Other(b) => *b > 6,
            _ => true,
        }
    }

    pub fn from_raw(b: u8) -> (r: State)
        ensures
            r == state_of(b),
            r.spec_wf(),
    {
        match b {
            0 => State::Unknown,
            1 => State::NotPresent,
            2 => State::Down,
            3 => State::LowerLayerDown,
            4 => State::Testing,
            5 => State::Dormant,
            6 => State::Up,
            _ => State::Other(b),
        }
    }

    pub fn to_raw(&self) -> (r: u8)
        ensures
            r == self.spec_raw(),
    {
        match self {
            State::Unknown => 0,
            State::NotPresent => 1,
            State::Down => 2,
            State::LowerLayerDown => 3,
            State::Testing => 4,
            State::Dormant => 5,
            State::Up => 6,
            State::Other(b) => *b,
        }
    }
}

/// One family's attributes inside the address-family specific attribute of
/// an IPv4, IPv6 or unspecified-family link message.
#[derive(Debug, Clone, PartialEq, Eq)]
pub enum AfSpecInet {
    Inet(Vec<Inet>),
    Inet6(Vec<Inet6>),
    Other(DefaultNla),
}

impl NlaTrait for AfSpecInet {
    open spec fn spec_kind(&self) -> u16 {
        match self {
            AfSpecInet::Inet(_) => AF_INET,
            AfSpecInet::Inet6(_) => AF_INET6,
            AfSpecInet::Other(d) => d.kind,
        }
    }

    open spec fn spec_value(&self) -> Seq<u8> {
        match self {
            AfSpecInet::Inet(v) => nlas_bytes(v@),
            AfSpecInet::Inet6(v) => nlas_bytes(v@),
            AfSpecInet::Other(d) => d.value@,
        }
    }

    open spec fn spec_fits(&self) -> bool {
        match self {
            AfSpecInet::Inet(v) => nlas_fit(v@),
            AfSpecInet::Inet6(v) => nlas_fit(v@),
            AfSpecInet::Other(_) => true,
        }
    }

    fn kind(&self) -> (r: u16) {
        match self {
            AfSpecInet::Inet(_) => AF_INET,
            AfSpecInet::Inet6(_) => AF_INET6,
            AfSpecInet::Other(d) => d.kind,
        }
    }

    fn value_len(&self) -> (r: usize) {
        match self {
            AfSpecInet::Inet(v) => nlas_buffer_len(v.as_slice()),
            AfSpecInet::Inet6(v) => nlas_buffer_len(v.as_slice()),
            AfSpecInet::Other(d) => d.value.len(),
        }
    }

    fn emit_value(&self, out: &mut Vec<u8>) {
        match self {
            AfSpecInet::Inet(v) => emit_nlas(v.as_slice(), out),
            AfSpecInet::Inet6(v) => emit_nlas(v.as_slice(), out),
            AfSpecInet::Other(d) => push_bytes(out, d.value.as_slice()),
        }
    }
}

/// The context message of a failure to decode a record of this kind.
pub open spec fn af_spec_inet_context(kind: u16) -> &'static str {
    if kind == AF_INET {
        "invalid AF_INET value"
    } else if kind == AF_INET6 {
        "invalid AF_INET6 value"
    } else {
        "invalid NLA"
    }
}

impl NlaParse for AfSpecInet {
    open spec fn spec_parses(kind: u16, value: Seq<u8>) -> bool {
        if kind == AF_INET {
            nlas_parse_bytes::<Inet>(value)
        } else if kind == AF_INET6 {
            nlas_parse_bytes::<Inet6>(value)
        } else {
            true
        }
    }

    open spec fn spec_decodes(&self, kind: u16, value: Seq<u8>) -> bool {
        match self {
            AfSpecInet::Inet(v) => kind == AF_INET && nlas_parse_bytes::<Inet>(value)
                && nlas_decode(
                v@,
                decode_records(value)->Some_0,
            ),
            AfSpecInet::Inet6(v) => kind == AF_INET6 && nlas_parse_bytes::<Inet6>(value)
                && nlas_decode(v@, decode_records(value)->Some_0),
            AfSpecInet::Other(d) => kind != AF_INET && kind != AF_INET6 && d.kind == kind
                && d.value@ == value,
        }
    }

    open spec fn spec_wf(&self) -> bool {
        match self {
            AfSpecInet::Inet(v) => nlas_wf(v@),
            AfSpecInet::Inet6(v) => nlas_wf(v@),
            AfSpecInet::Other(d) => d.kind != AF_INET && d.kind != AF_INET6,
        }
    }

    open spec fn spec_context(kind: u16) -> &'static str {
        af_spec_inet_context(kind)
    }

    fn parse(buf: &NlaBuffer) -> (r: Result<Self, DecodeError>) {
        let payload = buf.value();
        let kind = buf.kind();
        if kind == AF_INET {
            match with_context(parse_nlas::<Inet>(payload), "invalid AF_INET value") {
                Ok(v) => Ok(AfSpecInet::Inet(v)),
                Err(e) => Err(e),
            }
        } else if kind == AF_INET6 {
            match with_context(parse_nlas::<Inet6>(payload), "invalid AF_INET6 value") {
                Ok(v) => Ok(AfSpecInet::Inet6(v)),
                Err(e) => Err(e),
            }
        } else {
            Ok(AfSpecInet::Other(DefaultNla::new(kind, slice_to_vec(payload))))
        }
    }

    proof fn lemma_round_trip(&self) {
        match self {
            AfSpecInet::Inet(v) => lemma_nlas_round_trip(v@),
            AfSpecInet::Inet6(v) => lemma_nlas_round_trip(v@),
            AfSpecInet::Other(_) => {},
        }
    }

    proof fn lemma_decodes_unique(&self, other: &Self, kind: u16, value: Seq<u8>) {
        match (self, other) {
            (AfSpecInet::Inet(a), AfSpecInet::Inet(b)) => {
                lemma_nlas_decode_unique(a@, b@, decode_records(value)->Some_0);
            },
            (AfSpecInet::Inet6(a), AfSpecInet::Inet6(b)) => {
                lemma_nlas_decode_unique(a@, b@, decode_records(value)->Some_0);
            },
            _ => {},
        }
    }
}

/// Link attributes.
#[derive(Debug, Clone, PartialEq, Eq)]
pub enum Nla {
    Unspec(Vec<u8>),
    Address(Vec<u8>),
    Broadcast(Vec<u8>),
    IfName(String),
    Mtu(u32),
    Link(u32),
    Qdisc(String),
    Master(u32),
    TxQueueLen(u32),
    OperState(State),
    Mode(u8),
    AfSpecInet(Vec<AfSpecInet>),
    AfSpecBridge(Vec<u8>),
    AfSpecUnknown(Vec<u8>),
    Group(u32),
    Promiscuity(u32),
    NumTxQueues(u32),
    NumRxQueues(u32),
    Carrier(u8),
    GsoMaxSegs(u32),
    GsoMaxSize(u32),
    Other(DefaultNla),
}

pub open spec fn link_known_kind(kind: u16) -> bool {
    ||| kind <= IFLA_QDISC
    ||| kind == IFLA_MASTER
    ||| kind == IFLA_TXQLEN
    ||| kind == IFLA_OPERSTATE
    ||| kind == IFLA_LINKMODE
    ||| kind == IFLA_AF_SPEC
    ||| kind == IFLA_GROUP
    ||| kind == IFLA_PROMISCUITY
    ||| kind == IFLA_NUM_TX_QUEUES
    ||| kind == IFLA_NUM_RX_QUEUES
    ||| kind == IFLA_CARRIER
    ||| kind == IFLA_GSO_MAX_SEGS
    ||| kind == IFLA_GSO_MAX_SIZE
}

/// The families whose address-family specific attribute holds per-family
/// IP attributes.
pub open spec fn is_inet_family(family: u16) -> bool {
    family == AF_INET || family == AF_INET6 || family == AF_UNSPEC
}

/// `value` holds the 32-bit integer `v`.
pub open spec fn u32_value(value: Seq<u8>, v: u32) -> bool {
    value.len() == 4 && v == u32_at(value, 0)
}

/// `value` holds the single byte `v`.
pub open spec fn u8_value(value: Seq<u8>, v: u8) -> bool {
    value.len() == 1 && v == value[0]
}

/// The context message of a failure to decode a link attribute of this kind.
pub open spec fn link_context(kind: u16) -> &'static str {
    if kind == IFLA_IFNAME {
        "invalid IFLA_IFNAME value"
    } else if kind == IFLA_QDISC {
        "invalid IFLA_QDISC value"
    } else if kind == IFLA_MTU {
        "invalid IFLA_MTU value"
    } else if kind == IFLA_LINK {
        "invalid IFLA_LINK value"
    } else if kind == IFLA_MASTER {
        "invalid IFLA_MASTER value"
    } else if kind == IFLA_TXQLEN {
        "invalid IFLA_TXQLEN value"
    } else if kind == IFLA_GROUP {
        "invalid IFLA_GROUP value"
    } else if kind == IFLA_PROMISCUITY {
        "invalid IFLA_PROMISCUITY value"
    } else if kind == IFLA_NUM_TX_QUEUES {
        "invalid IFLA_NUM_TX_QUEUES value"
    } else if kind == IFLA_NUM_RX_QUEUES {
        "invalid IFLA_NUM_RX_QUEUES value"
    } else if kind == IFLA_GSO_MAX_SEGS {
        "invalid IFLA_GSO_MAX_SEGS value"
    } else if kind == IFLA_GSO_MAX_SIZE {
        "invalid IFLA_GSO_MAX_SIZE value"
    } else if kind == IFLA_OPERSTATE {
        "invalid IFLA_OPERSTATE value"
    } else if kind == IFLA_LINKMODE {
        "invalid IFLA_LINKMODE value"
    } else if kind == IFLA_CARRIER {
        "invalid IFLA_CARRIER value"
    } else if kind == IFLA_AF_SPEC {
        "invalid IFLA_AF_SPEC value"
    } else {
        "invalid NLA"
    }
}

impl Nla {
    /// Whether a record of this kind and value decodes in a message of
    /// interface family `family`.
    pub open spec fn spec_parses_with(kind: u16, value: Seq<u8>, family: u16) -> bool {
        if kind == IFLA_IFNAME || kind == IFLA_QDISC {
            string_of(value) is Some
        } else if kind == IFLA_MTU || kind == IFLA_LINK || kind == IFLA_MASTER || kind
            == IFLA_TXQLEN || kind == IFLA_GROUP || kind == IFLA_PROMISCUITY || kind
            == IFLA_NUM_TX_QUEUES || kind == IFLA_NUM_RX_QUEUES || kind == IFLA_GSO_MAX_SEGS
            || kind == IFLA_GSO_MAX_SIZE {
            value.len() == 4
        } else if kind == IFLA_OPERSTATE || kind == IFLA_LINKMODE || kind == IFLA_CARRIER {
            value.len() == 1
        } else if kind == IFLA_AF_SPEC && is_inet_family(family) {
            nlas_parse_bytes::<AfSpecInet>(value)
        } else {
            true
        }
    }

    /// `self` is what a record of this kind and value decodes to in a
    /// message of interface family `family`.
    pub open spec fn spec_decodes_with(&self, kind: u16, value: Seq<u8>, family: u16) -> bool {
        match self {
            Nla::Unspec(b) => kind == IFLA_UNSPEC && b@ == value,
            Nla::Address(b) => kind == IFLA_ADDRESS && b@ == value,
            Nla::Broadcast(b) => kind == IFLA_BROADCAST && b@ == value,
            Nla::IfName(s) => kind == IFLA_IFNAME && string_of(value) == Some(s@),
            Nla::Mtu(v) => kind == IFLA_MTU && u32_value(value, *v),
            Nla::Link(v) => kind == IFLA_LINK && u32_value(value, *v),
            Nla::Qdisc(s) => kind == IFLA_QDISC && string_of(value) == Some(s@),
            Nla::Master(v) => kind == IFLA_MASTER && u32_value(value, *v),
            Nla::TxQueueLen(v) => kind == IFLA_TXQLEN && u32_value(value, *v),
            Nla::OperState(st) => kind == IFLA_OPERSTATE && value.len() == 1 && *st == state_of(
                value[0],
            ),
            Nla::Mode(v) => kind == IFLA_LINKMODE && u8_value(value, *v),
            Nla::AfSpecInet(v) => kind == IFLA_AF_SPEC && is_inet_family(family)
                && nlas_parse_bytes::<AfSpecInet>(value) && nlas_decode(
                v@,
                decode_records(value)->Some_0,
            ),
            Nla::AfSpecBridge(b) => kind == IFLA_AF_SPEC && family == AF_BRIDGE && b@ == value,
            Nla::AfSpecUnknown(b) => kind == IFLA_AF_SPEC && !is_inet_family(family) && family
                != AF_BRIDGE && b@ == value,
            Nla::Group(v) => kind == IFLA_GROUP && u32_value(value, *v),
            Nla::Promiscuity(v) => kind == IFLA_PROMISCUITY && u32_value(value, *v),
            Nla::NumTxQueues(v) => kind == IFLA_NUM_TX_QUEUES && u32_value(value, *v),
            Nla::NumRxQueues(v) => kind == IFLA_NUM_RX_QUEUES && u32_value(value, *v),
            Nla::Carrier(v) => kind == IFLA_CARRIER && u8_value(value, *v),
            Nla::GsoMaxSegs(v) => kind == IFLA_GSO_MAX_SEGS && u32_value(value, *v),
            Nla::GsoMaxSize(v) => kind == IFLA_GSO_MAX_SIZE && u32_value(value, *v),
            Nla::Other(d) => !link_known_kind(kind) && d.kind == kind && d.value@ == value,
        }
    }

    /// Decoding the record of `self` in a message of family `family` gives
    /// `self` back.
    pub open spec fn spec_wf_with(&self, family: u16) -> bool {
        match self {
            Nla::OperState(st) => st.spec_wf(),
            Nla::AfSpecInet(v) => is_inet_family(family) && nlas_wf(v@),
            Nla::AfSpecBridge(_) => family == AF_BRIDGE,
            Nla::AfSpecUnknown(_) => !is_inet_family(family) && family != AF_BRIDGE,
            Nla::Other(d) => !link_known_kind(d.kind),
            _ => true,
        }
    }

    /// Decodes one record of a message of interface family `family`.
    pub fn parse_with_param(buf: &NlaBuffer, family: u16) -> (r: Result<Nla, DecodeError>)
        requires
            header_valid(buf@),
        ensures
            r is Ok <==> Nla::spec_parses_with(buf.spec_kind(), buf.spec_value(), family),
            r is Ok ==> r->Ok_0.spec_decodes_with(buf.spec_kind(), buf.spec_value(), family),
            r is Ok ==> r->Ok_0.spec_wf_with(family),
            r is Err ==> r->Err_0.context@.len() > 0 && r->Err_0.context@.last() == link_context(
                buf.spec_kind(),
            ),
    {
        let payload = buf.value();
        let kind = buf.kind();
        if kind == IFLA_UNSPEC {
            Ok(Nla::Unspec(slice_to_vec(payload)))
        } else if kind == IFLA_ADDRESS {
            Ok(Nla::Address(slice_to_vec(payload)))
        } else if kind == IFLA_BROADCAST {
            Ok(Nla::Broadcast(slice_to_vec(payload)))
        } else if kind == IFLA_IFNAME {
            match with_context(parse_string(payload), "invalid IFLA_IFNAME value") {
                Ok(s) => Ok(Nla::IfName(s)),
                Err(e) => Err(e),
            }
        } else if kind == IFLA_QDISC {
            match with_context(parse_string(payload), "invalid IFLA_QDISC value") {
                Ok(s) => Ok(Nla::Qdisc(s)),
                Err(e) => Err(e),
            }
        } else if kind == IFLA_MTU {
            match with_context(parse_u32(payload), "invalid IFLA_MTU value") {
                Ok(v) => Ok(Nla::Mtu(v)),
                Err(e) => Err(e),
            }
        } else if kind == IFLA_LINK {
            match with_context(parse_u32(payload), "invalid IFLA_LINK value") {
                Ok(v) => Ok(Nla::Link(v)),
                Err(e) => Err(e),
            }
        } else if kind == IFLA_MASTER {
            match with_context(parse_u32(payload), "invalid IFLA_MASTER value") {
                Ok(v) => Ok(Nla::Master(v)),
                Err(e) => Err(e),
            }
        } else if kind == IFLA_TXQLEN {
            match with_context(parse_u32(payload), "invalid IFLA_TXQLEN value") {
                Ok(v) => Ok(Nla::TxQueueLen(v)),
                Err(e) => Err(e),
            }
        } else if kind == IFLA_GROUP {
            match with_context(parse_u32(payload), "invalid IFLA_GROUP value") {
                Ok(v) => Ok(Nla::Group(v)),
                Err(e) => Err(e),
            }
        } else if kind == IFLA_PROMISCUITY {
            match with_context(parse_u32(payload), "invalid IFLA_PROMISCUITY value") {
                Ok(v) => Ok(Nla::Promiscuity(v)),
                Err(e) => Err(e),
            }
        } else if kind == IFLA_NUM_TX_QUEUES {
            match with_context(parse_u32(payload), "invalid IFLA_NUM_TX_QUEUES value") {
                Ok(v) => Ok(Nla::NumTxQueues(v)),
                Err(e) => Err(e),
            }
        } else if kind == IFLA_NUM_RX_QUEUES {
            match with_context(parse_u32(payload), "invalid IFLA_NUM_RX_QUEUES value") {
                Ok(v) => Ok(Nla::NumRxQueues(v)),
                Err(e) => Err(e),
            }
        } else if kind == IFLA_GSO_MAX_SEGS {
            match with_context(parse_u32(payload), "invalid IFLA_GSO_MAX_SEGS value") {
                Ok(v) => Ok(Nla::GsoMaxSegs(v)),
                Err(e) => Err(e),
            }
        } else if kind == IFLA_GSO_MAX_SIZE {
            match with_context(parse_u32(payload), "invalid IFLA_GSO_MAX_SIZE value") {
                Ok(v) => Ok(Nla::GsoMaxSize(v)),
                Err(e) => Err(e),
            }
        } else if kind == IFLA_OPERSTATE {
            match with_context(parse_u8(payload), "invalid IFLA_OPERSTATE value") {
                Ok(v) => Ok(Nla::OperState(State::from_raw(v))),
                Err(e) => Err(e),
            }
        } else if kind == IFLA_LINKMODE {
            match with_context(parse_u8(payload), "invalid IFLA_LINKMODE value") {
                Ok(v) => Ok(Nla::Mode(v)),
                Err(e) => Err(e),
            }
        } else if kind == IFLA_CARRIER {
            match with_context(parse_u8(payload), "invalid IFLA_CARRIER value") {
                Ok(v) => Ok(Nla::Carrier(v)),
                Err(e) => Err(e),
            }
        } else if kind == IFLA_AF_SPEC {
            if family == AF_INET || family == AF_INET6 || family == AF_UNSPEC {
                match with_context(parse_nlas::<AfSpecInet>(payload),
                    "invalid IFLA_AF_SPEC value") {
                    Ok(v) => Ok(Nla::AfSpecInet(v)),
                    Err(e) => Err(e),
                }
            } else if family == AF_BRIDGE {
                Ok(Nla::AfSpecBridge(slice_to_vec(payload)))
            } else {
                Ok(Nla::AfSpecUnknown(slice_to_vec(payload)))
            }
        } else {
            Ok(Nla::Other(DefaultNla::new(kind, slice_to_vec(payload))))
        }
    }

    /// A well-formed attribute is the decoding of its own record.
    pub proof fn lemma_round_trip_with(&self, family: u16)
        requires
            self.spec_wf_with(family),
            self.spec_fits(),
        ensures
            Nla::spec_parses_with(self.spec_kind(), self.spec_value(), family),
            self.spec_decodes_with(self.spec_kind(), self.spec_value(), family),
    {
        lemma_int_at_zero();
        lemma_int_bytes();
        match self {
            Nla::IfName(s) => lemma_string_round_trip(s@),
            Nla::Qdisc(s) => lemma_string_round_trip(s@),
            Nla::AfSpecInet(v) => lemma_nlas_round_trip(v@),
            _ => {},
        }
    }

    /// Two decodings of one record encode alike.
    pub proof fn lemma_decodes_unique_with(
        &self,
        other: &Nla,
        kind: u16,
        value: Seq<u8>,
        family: u16,
    )
        requires
            self.spec_decodes_with(kind, value, family),
            other.spec_decodes_with(kind, value, family),
        ensures
            self.spec_kind() == other.spec_kind(),
            self.spec_value() == other.spec_value(),
    {
        lemma_int_bytes();
        match (self, other) {
            (Nla::AfSpecInet(a), Nla::AfSpecInet(b)) => {
                lemma_nlas_decode_unique(a@, b@, decode_records(value)->Some_0);
            },
            (Nla::OperState(a), Nla::OperState(b)) => {},
            _ => {},
        }
    }
}

impl NlaTrait for Nla {
    open spec fn spec_kind(&self) -> u16 {
        match self {
            Nla::Unspec(_) => IFLA_UNSPEC,
            Nla::Address(_) => IFLA_ADDRESS,
            Nla::Broadcast(_) => IFLA_BROADCAST,
            Nla::IfName(_) => IFLA_IFNAME,
            Nla::Mtu(_) => IFLA_MTU,
            Nla::Link(_) => IFLA_LINK,
            Nla::Qdisc(_) => IFLA_QDISC,
            Nla::Master(_) => IFLA_MASTER,
            Nla::TxQueueLen(_) => IFLA_TXQLEN,
            Nla::OperState(_) => IFLA_OPERSTATE,
            Nla::Mode(_) => IFLA_LINKMODE,
            Nla::AfSpecInet(_) => IFLA_AF_SPEC,
            Nla::AfSpecBridge(_) => IFLA_AF_SPEC,
            Nla::AfSpecUnknown(_) => IFLA_AF_SPEC,
            Nla::Group(_) => IFLA_GROUP,
            Nla::Promiscuity(_) => IFLA_PROMISCUITY,
            Nla::NumTxQueues(_) => IFLA_NUM_TX_QUEUES,
            Nla::NumRxQueues(_) => IFLA_NUM_RX_QUEUES,
            Nla::Carrier(_) => IFLA_CARRIER,
            Nla::GsoMaxSegs(_) => IFLA_GSO_MAX_SEGS,
            Nla::GsoMaxSize(_) => IFLA_GSO_MAX_SIZE,
            Nla::Other(d) => d.kind,
        }
    }

    open spec fn spec_value(&self) -> Seq<u8> {
        match self {
            Nla::Unspec(b) => b@,
            Nla::Address(b) => b@,
            Nla::Broadcast(b) => b@,
            Nla::IfName(s) => string_bytes(s@),
            Nla::Mtu(v) => u32_bytes(*v),
            Nla::Link(v) => u32_bytes(*v),
            Nla::Qdisc(s) => string_bytes(s@),
            Nla::Master(v) => u32_bytes(*v),
            Nla::TxQueueLen(v) => u32_bytes(*v),
            Nla::OperState(st) => seq![st.spec_raw()],
            Nla::Mode(v) => seq![*v],
            Nla::AfSpecInet(v) => nlas_bytes(v@),
            Nla::AfSpecBridge(b) => b@,
            Nla::AfSpecUnknown(b) => b@,
            Nla::Group(v) => u32_bytes(*v),
            Nla::Promiscuity(v) => u32_bytes(*v),
            Nla::NumTxQueues(v) => u32_bytes(*v),
            Nla::NumRxQueues(v) => u32_bytes(*v),
            Nla::Carrier(v) => seq![*v],
            Nla::GsoMaxSegs(v) => u32_bytes(*v),
            Nla::GsoMaxSize(v) => u32_bytes(*v),
            Nla::Other(d) => d.value@,
        }
    }

    open spec fn spec_fits(&self) -> bool {
        match self {
            Nla::AfSpecInet(v) => nlas_fit(v@),
            _ => true,
        }
    }

    fn kind(&self) -> (r: u16) {
        match self {
            Nla::Unspec(_) => IFLA_UNSPEC,
            Nla::Address(_) => IFLA_ADDRESS,
            Nla::Broadcast(_) => IFLA_BROADCAST,
            Nla::IfName(_) => IFLA_IFNAME,
            Nla::Mtu(_) => IFLA_MTU,
            Nla::Link(_) => IFLA_LINK,
            Nla::Qdisc(_) => IFLA_QDISC,
            Nla::Master(_) => IFLA_MASTER,
            Nla::TxQueueLen(_) => IFLA_TXQLEN,
            Nla::OperState(_) => IFLA_OPERSTATE,
            Nla::Mode(_) => IFLA_LINKMODE,
            Nla::AfSpecInet(_) => IFLA_AF_SPEC,
            Nla::AfSpecBridge(_) => IFLA_AF_SPEC,
            Nla::AfSpecUnknown(_) => IFLA_AF_SPEC,
            Nla::Group(_) => IFLA_GROUP,
            Nla::Promiscuity(_) => IFLA_PROMISCUITY,
            Nla::NumTxQueues(_) => IFLA_NUM_TX_QUEUES,
            Nla::NumRxQueues(_) => IFLA_NUM_RX_QUEUES,
            Nla::Carrier(_) => IFLA_CARRIER,
            Nla::GsoMaxSegs(_) => IFLA_GSO_MAX_SEGS,
            Nla::GsoMaxSize(_) => IFLA_GSO_MAX_SIZE,
            Nla::Other(d) => d.kind,
        }
    }

    fn value_len(&self) -> (r: usize) {
        proof {
            lemma_int_bytes();
        }
        match self {
            Nla::Unspec(b) => b.len(),
            Nla::Address(b) => b.len(),
            Nla::Broadcast(b) => b.len(),
            Nla::IfName(s) => string_value_len(s),
            Nla::Qdisc(s) => string_value_len(s),
            Nla::Mtu(_) | Nla::Link(_) | Nla::Master(_) | Nla::TxQueueLen(_) | Nla::Group(_)
            | Nla::Promiscuity(_) | Nla::NumTxQueues(_) | Nla::NumRxQueues(_)
            | Nla::GsoMaxSegs(_) | Nla::GsoMaxSize(_) => 4,
            Nla::OperState(_) | Nla::Mode(_) | Nla::Carrier(_) => 1,
            Nla::AfSpecInet(v) => nlas_buffer_len(v.as_slice()),
            Nla::AfSpecBridge(b) => b.len(),
            Nla::AfSpecUnknown(b) => b.len(),
            Nla::Other(d) => d.value.len(),
        }
    }

    fn emit_value(&self, out: &mut Vec<u8>) {
        match self {
            Nla::Unspec(b) => push_bytes(out, b.as_slice()),
            Nla::Address(b) => push_bytes(out, b.as_slice()),
            Nla::Broadcast(b) => push_bytes(out, b.as_slice()),
            Nla::IfName(s) => push_string(out, s),
            Nla::Qdisc(s) => push_string(out, s),
            Nla::Mtu(v) => push_u32(out, *v),
            Nla::Link(v) => push_u32(out, *v),
            Nla::Master(v) => push_u32(out, *v),
            Nla::TxQueueLen(v) => push_u32(out, *v),
            Nla::OperState(st) => out.push(st.to_raw()),
            Nla::Mode(v) => out.push(*v),
            Nla::AfSpecInet(v) => emit_nlas(v.as_slice(), out),
            Nla::AfSpecBridge(b) => push_bytes(out, b.as_slice()),
            Nla::AfSpecUnknown(b) => push_bytes(out, b.as_slice()),
            Nla::Group(v) => push_u32(out, *v),
            Nla::Promiscuity(v) => push_u32(out, *v),
            Nla::NumTxQueues(v) => push_u32(out, *v),
            Nla::NumRxQueues(v) => push_u32(out, *v),
            Nla::Carrier(v) => out.push(*v),
            Nla::GsoMaxSegs(v) => push_u32(out, *v),
            Nla::GsoMaxSize(v) => push_u32(out, *v),
            Nla::Other(d) => push_bytes(out, d.value.as_slice()),
        }
    }
}

} // verus!
