//! Route netlink messages, told apart by the netlink message type.
use vstd::prelude::*;

use crate::error::{DecodeError, ErrorKind};
use crate::wire::splice;
use crate::{link, neighbour, neighbour_table, nsid, route, tc};

verus! {

pub const RTM_NEWLINK: u16 = 16;
pub const RTM_DELLINK: u16 = 17;
pub const RTM_GETLINK: u16 = 18;
pub const RTM_SETLINK: u16 = 19;
pub const RTM_NEWROUTE: u16 = 24;
pub const RTM_DELROUTE: u16 = 25;
pub const RTM_GETROUTE: u16 = 26;
pub const RTM_NEWNEIGH: u16 = 28;
pub const RTM_DELNEIGH: u16 = 29;
pub const RTM_GETNEIGH: u16 = 30;
pub const RTM_NEWQDISC: u16 = 36;
pub const RTM_DELQDISC: u16 = 37;
pub const RTM_GETQDISC: u16 = 38;
pub const RTM_NEWTCLASS: u16 = 40;
pub const RTM_DELTCLASS: u16 = 41;
pub const RTM_GETTCLASS: u16 = 42;
pub const RTM_NEWTFILTER: u16 = 44;
pub const RTM_DELTFILTER: u16 = 45;
pub const RTM_GETTFILTER: u16 = 46;
pub const RTM_NEWNEIGHTBL: u16 = 64;
pub const RTM_GETNEIGHTBL: u16 = 66;
pub const RTM_SETNEIGHTBL: u16 = 67;
pub const RTM_NEWNSID: u16 = 88;
pub const RTM_DELNSID: u16 = 89;
pub const RTM_GETNSID: u16 = 90;

/// A route netlink message.
#[derive(Debug, Clone, PartialEq, Eq)]
pub enum RtnlMessage {
    NewLink(link::Message),
    DelLink(link::Message),
    GetLink(link::Message),
    SetLink(link::Message),
    NewRoute(route::RouteMessage),
    DelRoute(route::RouteMessage),
    GetRoute(route::RouteMessage),
    NewNeighbour(neighbour::NeighbourMessage),
    DelNeighbour(neighbour::NeighbourMessage),
    GetNeighbour(neighbour::NeighbourMessage),
    NewQueueDiscipline(tc::Message),
    DelQueueDiscipline(tc::Message),
    GetQueueDiscipline(tc::Message),
    NewTrafficClass(tc::Message),
    DelTrafficClass(tc::Message),
    GetTrafficClass(tc::Message),
    NewTrafficFilter(tc::Message),
    DelTrafficFilter(tc::Message),
    GetTrafficFilter(tc::Message),
    NewNeighbourTable(neighbour_table::NeighbourTableMessage),
    GetNeighbourTable(neighbour_table::NeighbourTableMessage),
    SetNeighbourTable(neighbour_table::NeighbourTableMessage),
    NewNsId(nsid::Message),
    DelNsId(nsid::Message),
    GetNsId(nsid::Message),
}

pub open spec fn is_link_type(t: u16) -> bool {
    t == RTM_NEWLINK || t == RTM_DELLINK || t == RTM_GETLINK || t == RTM_SETLINK
}

pub open spec fn is_route_type(t: u16) -> bool {
    t == RTM_NEWROUTE || t == RTM_DELROUTE || t == RTM_GETROUTE
}

pub open spec fn is_neighbour_type(t: u16) -> bool {
    t == RTM_NEWNEIGH || t == RTM_DELNEIGH || t == RTM_GETNEIGH
}

pub open spec fn is_qdisc_type(t: u16) -> bool {
    t == RTM_NEWQDISC || t == RTM_DELQDISC || t == RTM_GETQDISC
}

pub open spec fn is_class_type(t: u16) -> bool {
    t == RTM_NEWTCLASS || t == RTM_DELTCLASS || t == RTM_GETTCLASS
}

pub open spec fn is_filter_type(t: u16) -> bool {
    t == RTM_NEWTFILTER || t == RTM_DELTFILTER || t == RTM_GETTFILTER
}

pub open spec fn is_neighbour_table_type(t: u16) -> bool {
    t == RTM_NEWNEIGHTBL || t == RTM_GETNEIGHTBL || t == RTM_SETNEIGHTBL
}

pub open spec fn is_nsid_type(t: u16) -> bool {
    t == RTM_NEWNSID || t == RTM_DELNSID || t == RTM_GETNSID
}

impl RtnlMessage {
    /// The netlink message type of the message.
    pub open spec fn spec_message_type(&self) -> u16 {
        match self {
            RtnlMessage::NewLink(_) => RTM_NEWLINK,
            RtnlMessage::DelLink(_) => RTM_DELLINK,
            RtnlMessage::GetLink(_) => RTM_GETLINK,
            RtnlMessage::SetLink(_) => RTM_SETLINK,
            RtnlMessage::NewRoute(_) => RTM_NEWROUTE,
            RtnlMessage::DelRoute(_) => RTM_DELROUTE,
            RtnlMessage::GetRoute(_) => RTM_GETROUTE,
            RtnlMessage::NewNeighbour(_) => RTM_NEWNEIGH,
            RtnlMessage::DelNeighbour(_) => RTM_DELNEIGH,
            RtnlMessage::GetNeighbour(_) => RTM_GETNEIGH,
            RtnlMessage::NewQueueDiscipline(_) => RTM_NEWQDISC,
            RtnlMessage::DelQueueDiscipline(_) => RTM_DELQDISC,
            RtnlMessage::GetQueueDiscipline(_) => RTM_GETQDISC,
            RtnlMessage::NewTrafficClass(_) => RTM_NEWTCLASS,
            RtnlMessage::DelTrafficClass(_) => RTM_DELTCLASS,
            RtnlMessage::GetTrafficClass(_) => RTM_GETTCLASS,
            RtnlMessage::NewTrafficFilter(_) => RTM_NEWTFILTER,
            RtnlMessage::DelTrafficFilter(_) => RTM_DELTFILTER,
            RtnlMessage::GetTrafficFilter(_) => RTM_GETTFILTER,
            RtnlMessage::NewNeighbourTable(_) => RTM_NEWNEIGHTBL,
            RtnlMessage::GetNeighbourTable(_) => RTM_GETNEIGHTBL,
            RtnlMessage::SetNeighbourTable(_) => RTM_SETNEIGHTBL,
            RtnlMessage::NewNsId(_) => RTM_NEWNSID,
            RtnlMessage::DelNsId(_) => RTM_DELNSID,
            RtnlMessage::GetNsId(_) => RTM_GETNSID,
        }
    }

    pub fn message_type(&self) -> (r: u16)
        ensures
            r == self.spec_message_type(),
    {
        match self {
            RtnlMessage::NewLink(_) => RTM_NEWLINK,
            RtnlMessage::DelLink(_) => RTM_DELLINK,
            RtnlMessage::GetLink(_) => RTM_GETLINK,
            RtnlMessage::SetLink(_) => RTM_SETLINK,
            RtnlMessage::NewRoute(_) => RTM_NEWROUTE,
            RtnlMessage::DelRoute(_) => RTM_DELROUTE,
            RtnlMessage::GetRoute(_) => RTM_GETROUTE,
            RtnlMessage::NewNeighbour(_) => RTM_NEWNEIGH,
            RtnlMessage::DelNeighbour(_) => RTM_DELNEIGH,
            RtnlMessage::GetNeighbour(_) => RTM_GETNEIGH,
            RtnlMessage::NewQueueDiscipline(_) => RTM_NEWQDISC,
            RtnlMessage::DelQueueDiscipline(_) => RTM_DELQDISC,
            RtnlMessage::GetQueueDiscipline(_) => RTM_GETQDISC,
            RtnlMessage::NewTrafficClass(_) => RTM_NEWTCLASS,
            RtnlMessage::DelTrafficClass(_) => RTM_DELTCLASS,
            RtnlMessage::GetTrafficClass(_) => RTM_GETTCLASS,
            RtnlMessage::NewTrafficFilter(_) => RTM_NEWTFILTER,
            RtnlMessage::DelTrafficFilter(_) => RTM_DELTFILTER,
            RtnlMessage::GetTrafficFilter(_) => RTM_GETTFILTER,
            RtnlMessage::NewNeighbourTable(_) => RTM_NEWNEIGHTBL,
            RtnlMessage::GetNeighbourTable(_) => RTM_GETNEIGHTBL,
            RtnlMessage::SetNeighbourTable(_) => RTM_SETNEIGHTBL,
            RtnlMessage::NewNsId(_) => RTM_NEWNSID,
            RtnlMessage::DelNsId(_) => RTM_DELNSID,
            RtnlMessage::GetNsId(_) => RTM_GETNSID,
        }
    }

    /// `self` is what decoding the payload `s` of a message of type `t` gives.
    pub open spec fn spec_decodes(&self, s: Seq<u8>, t: u16) -> bool {
        &&& self.spec_message_type() == t
        &&& match self {
            RtnlMessage::NewLink(m) | RtnlMessage::DelLink(m) | RtnlMessage::GetLink(m)
                | RtnlMessage::SetLink(m) => m.spec_decodes(s),
            RtnlMessage::NewRoute(m) | RtnlMessage::DelRoute(m)
                | RtnlMessage::GetRoute(m) => m.spec_decodes(s),
            RtnlMessage::NewNeighbour(m) | RtnlMessage::DelNeighbour(m)
                | RtnlMessage::GetNeighbour(m) => m.spec_decodes(s),
            RtnlMessage::NewQueueDiscipline(m) | RtnlMessage::DelQueueDiscipline(m)
                | RtnlMessage::GetQueueDiscipline(m) => m.spec_decodes(s),
            RtnlMessage::NewTrafficClass(m) | RtnlMessage::DelTrafficClass(m)
                | RtnlMessage::GetTrafficClass(m) => m.spec_decodes(s),
            RtnlMessage::NewTrafficFilter(m) | RtnlMessage::DelTrafficFilter(m)
                | RtnlMessage::GetTrafficFilter(m) => m.spec_decodes(s),
            RtnlMessage::NewNeighbourTable(m) | RtnlMessage::GetNeighbourTable(m)
                | RtnlMessage::SetNeighbourTable(m) => m.spec_decodes(s),
            RtnlMessage::NewNsId(m) | RtnlMessage::DelNsId(m)
                | RtnlMessage::GetNsId(m) => m.spec_decodes(s),
        }
    }

    /// The encoding of the payload.
    pub open spec fn spec_bytes(&self) -> Seq<u8> {
        match self {
            RtnlMessage::NewLink(m) | RtnlMessage::DelLink(m) | RtnlMessage::GetLink(m)
                | RtnlMessage::SetLink(m) => m.spec_bytes(),
            RtnlMessage::NewRoute(m) | RtnlMessage::DelRoute(m)
                | RtnlMessage::GetRoute(m) => m.spec_bytes(),
            RtnlMessage::NewNeighbour(m) | RtnlMessage::DelNeighbour(m)
                | RtnlMessage::GetNeighbour(m) => m.spec_bytes(),
            RtnlMessage::NewQueueDiscipline(m) | RtnlMessage::DelQueueDiscipline(m)
                | RtnlMessage::GetQueueDiscipline(m) => m.spec_bytes(),
            RtnlMessage::NewTrafficClass(m) | RtnlMessage::DelTrafficClass(m)
                | RtnlMessage::GetTrafficClass(m) => m.spec_bytes(),
            RtnlMessage::NewTrafficFilter(m) | RtnlMessage::DelTrafficFilter(m)
                | RtnlMessage::GetTrafficFilter(m) => m.spec_bytes(),
            RtnlMessage::NewNeighbourTable(m) | RtnlMessage::GetNeighbourTable(m)
                | RtnlMessage::SetNeighbourTable(m) => m.spec_bytes(),
            RtnlMessage::NewNsId(m) | RtnlMessage::DelNsId(m)
                | RtnlMessage::GetNsId(m) => m.spec_bytes(),
        }
    }

    pub open spec fn spec_fits(&self) -> bool {
        match self {
            RtnlMessage::NewLink(m) | RtnlMessage::DelLink(m) | RtnlMessage::GetLink(m)
                | RtnlMessage::SetLink(m) => m.spec_fits(),
            RtnlMessage::NewRoute(m) | RtnlMessage::DelRoute(m)
                | RtnlMessage::GetRoute(m) => m.spec_fits(),
            RtnlMessage::NewNeighbour(m) | RtnlMessage::DelNeighbour(m)
                | RtnlMessage::GetNeighbour(m) => m.spec_fits(),
            RtnlMessage::NewQueueDiscipline(m) | RtnlMessage::DelQueueDiscipline(m)
                | RtnlMessage::GetQueueDiscipline(m) => m.spec_fits(),
            RtnlMessage::NewTrafficClass(m) | RtnlMessage::DelTrafficClass(m)
                | RtnlMessage::GetTrafficClass(m) => m.spec_fits(),
            RtnlMessage::NewTrafficFilter(m) | RtnlMessage::DelTrafficFilter(m)
                | RtnlMessage::GetTrafficFilter(m) => m.spec_fits(),
            RtnlMessage::NewNeighbourTable(m) | RtnlMessage::GetNeighbourTable(m)
                | RtnlMessage::SetNeighbourTable(m) => m.spec_fits(),
            RtnlMessage::NewNsId(m) | RtnlMessage::DelNsId(m)
                | RtnlMessage::GetNsId(m) => m.spec_fits(),
        }
    }

    /// The exact number of bytes of the payload.
    pub fn buffer_len(&self) -> (r: usize)
        requires
            self.spec_fits(),
        ensures
            r == self.spec_bytes().len(),
    {
        match self {
            RtnlMessage::NewLink(m) | RtnlMessage::DelLink(m) | RtnlMessage::GetLink(m)
                | RtnlMessage::SetLink(m) => m.buffer_len(),
            RtnlMessage::NewRoute(m) | RtnlMessage::DelRoute(m)
                | RtnlMessage::GetRoute(m) => m.buffer_len(),
            RtnlMessage::NewNeighbour(m) | RtnlMessage::DelNeighbour(m)
                | RtnlMessage::GetNeighbour(m) => m.buffer_len(),
            RtnlMessage::NewQueueDiscipline(m) | RtnlMessage::DelQueueDiscipline(m)
                | RtnlMessage::GetQueueDiscipline(m) => m.buffer_len(),
            RtnlMessage::NewTrafficClass(m) | RtnlMessage::DelTrafficClass(m)
                | RtnlMessage::GetTrafficClass(m) => m.buffer_len(),
            RtnlMessage::NewTrafficFilter(m) | RtnlMessage::DelTrafficFilter(m)
                | RtnlMessage::GetTrafficFilter(m) => m.buffer_len(),
            RtnlMessage::NewNeighbourTable(m) | RtnlMessage::GetNeighbourTable(m)
                | RtnlMessage::SetNeighbourTable(m) => m.buffer_len(),
            RtnlMessage::NewNsId(m) | RtnlMessage::DelNsId(m)
                | RtnlMessage::GetNsId(m) => m.buffer_len(),
        }
    }

    /// Writes the payload at the front of `buffer`.
    pub fn emit(&self, buffer: &mut [u8])
        requires
            self.spec_fits(),
            old(buffer)@.len() >= self.spec_bytes().len(),
        ensures
            final(buffer)@ == splice(old(buffer)@, 0, self.spec_bytes()),
    {
        match self {
            RtnlMessage::NewLink(m) | RtnlMessage::DelLink(m) | RtnlMessage::GetLink(m)
                | RtnlMessage::SetLink(m) => m.emit(buffer),
            RtnlMessage::NewRoute(m) | RtnlMessage::DelRoute(m)
                | RtnlMessage::GetRoute(m) => m.emit(buffer),
            RtnlMessage::NewNeighbour(m) | RtnlMessage::DelNeighbour(m)
                | RtnlMessage::GetNeighbour(m) => m.emit(buffer),
            RtnlMessage::NewQueueDiscipline(m) | RtnlMessage::DelQueueDiscipline(m)
                | RtnlMessage::GetQueueDiscipline(m) => m.emit(buffer),
            RtnlMessage::NewTrafficClass(m) | RtnlMessage::DelTrafficClass(m)
                | RtnlMessage::GetTrafficClass(m) => m.emit(buffer),
            RtnlMessage::NewTrafficFilter(m) | RtnlMessage::DelTrafficFilter(m)
                | RtnlMessage::GetTrafficFilter(m) => m.emit(buffer),
            RtnlMessage::NewNeighbourTable(m) | RtnlMessage::GetNeighbourTable(m)
                | RtnlMessage::SetNeighbourTable(m) => m.emit(buffer),
            RtnlMessage::NewNsId(m) | RtnlMessage::DelNsId(m)
                | RtnlMessage::GetNsId(m) => m.emit(buffer),
        }
    }
}

/// The payload of a route netlink message: the bytes after the netlink
/// header.
#[derive(Debug, Clone, Copy)]
pub struct RtnlBuffer<'a> {
    buffer: &'a [u8],
}

impl<'a> View for RtnlBuffer<'a> {
    type V = Seq<u8>;

    closed spec fn view(&self) -> Seq<u8> {
        self.buffer@
    }
}

/// The payload `s` of a message of type `t` decodes.
pub open spec fn rtnl_parses(s: Seq<u8>, t: u16) -> bool {
    (is_link_type(t) && link::Message::spec_parses(s))
    || (is_route_type(t) && route::RouteMessage::spec_parses(s))
    || (is_neighbour_type(t) && neighbour::NeighbourMessage::spec_parses(s))
    || (is_qdisc_type(t) && tc::Message::spec_parses(s))
    || (is_class_type(t) && tc::Message::spec_parses(s))
    || (is_filter_type(t) && tc::Message::spec_parses(s))
    || (is_neighbour_table_type(t) && neighbour_table::NeighbourTableMessage::spec_parses(s))
    || (is_nsid_type(t) && nsid::Message::spec_parses(s))
}

/// `t` is a message type of a known family.
pub open spec fn rtnl_known_type(t: u16) -> bool {
    is_link_type(t) || is_route_type(t) || is_neighbour_type(t) || is_qdisc_type(t)
        || is_class_type(t) || is_filter_type(t) || is_neighbour_table_type(t) || is_nsid_type(t)
}

impl<'a> RtnlBuffer<'a> {
    pub fn new(buffer: &'a [u8]) -> (r: RtnlBuffer<'a>)
        ensures
            r@ == buffer@,
    {
        RtnlBuffer { buffer }
    }

    /// Decodes the payload of a message of netlink message type
    /// `message_type`. An unknown type is an invalid value.
    pub fn parse_with_param(&self, message_type: u16) -> (r: Result<RtnlMessage, DecodeError>)
        ensures
            r is Ok <==> rtnl_parses(self@, message_type),
            r is Ok ==> r->Ok_0.spec_decodes(self@, message_type),
            !rtnl_known_type(message_type) ==> r is Err && r->Err_0.kind == ErrorKind::InvalidValue,
    {
        let t = message_type;
        if t == RTM_NEWLINK || t == RTM_DELLINK || t == RTM_GETLINK || t == RTM_SETLINK {
            let m = match link::Message::parse(&link::MessageBuffer::new(self.buffer)) {
                Ok(m) => m,
                Err(e) => {
                    return Err(e.context("invalid link message"));
                },
            };
            Ok(
                if t == RTM_NEWLINK {
                    RtnlMessage::NewLink(m)
                } else if t == RTM_DELLINK {
                    RtnlMessage::DelLink(m)
                } else if t == RTM_GETLINK {
                    RtnlMessage::GetLink(m)
                } else {
                    RtnlMessage::SetLink(m)
                },
            )
        } else if t == RTM_NEWROUTE || t == RTM_DELROUTE || t == RTM_GETROUTE {
            let m = match route::RouteMessage::parse(&route::MessageBuffer::new(self.buffer)) {
                Ok(m) => m,
                Err(e) => {
                    return Err(e.context("invalid route message"));
                },
            };
            Ok(
                if t == RTM_NEWROUTE {
                    RtnlMessage::NewRoute(m)
                } else if t == RTM_DELROUTE {
                    RtnlMessage::DelRoute(m)
                } else {
                    RtnlMessage::GetRoute(m)
                },
            )
        } else if t == RTM_NEWNEIGH || t == RTM_DELNEIGH || t == RTM_GETNEIGH {
            let buf = neighbour::MessageBuffer::new(self.buffer);
            let m = match neighbour::NeighbourMessage::parse(&buf) {
                Ok(m) => m,
                Err(e) => {
                    return Err(e.context("invalid neighbour message"));
                },
            };
            Ok(
                if t == RTM_NEWNEIGH {
                    RtnlMessage::NewNeighbour(m)
                } else if t == RTM_DELNEIGH {
                    RtnlMessage::DelNeighbour(m)
                } else {
                    RtnlMessage::GetNeighbour(m)
                },
            )
        } else if t == RTM_NEWQDISC || t == RTM_DELQDISC || t == RTM_GETQDISC {
            let m = match tc::Message::parse(&tc::MessageBuffer::new(self.buffer)) {
                Ok(m) => m,
                Err(e) => {
                    return Err(e.context("invalid qdisc message"));
                },
            };
            Ok(
                if t == RTM_NEWQDISC {
                    RtnlMessage::NewQueueDiscipline(m)
                } else if t == RTM_DELQDISC {
                    RtnlMessage::DelQueueDiscipline(m)
                } else {
                    RtnlMessage::GetQueueDiscipline(m)
                },
            )
        } else if t == RTM_NEWTCLASS || t == RTM_DELTCLASS || t == RTM_GETTCLASS {
            let m = match tc::Message::parse(&tc::MessageBuffer::new(self.buffer)) {
                Ok(m) => m,
                Err(e) => {
                    return Err(e.context("invalid class message"));
                },
            };
            Ok(
                if t == RTM_NEWTCLASS {
                    RtnlMessage::NewTrafficClass(m)
                } else if t == RTM_DELTCLASS {
                    RtnlMessage::DelTrafficClass(m)
                } else {
                    RtnlMessage::GetTrafficClass(m)
                },
            )
        } else if t == RTM_NEWTFILTER || t == RTM_DELTFILTER || t == RTM_GETTFILTER {
            let m = match tc::Message::parse(&tc::MessageBuffer::new(self.buffer)) {
                Ok(m) => m,
                Err(e) => {
                    return Err(e.context("invalid filter message"));
                },
            };
            Ok(
                if t == RTM_NEWTFILTER {
                    RtnlMessage::NewTrafficFilter(m)
                } else if t == RTM_DELTFILTER {
                    RtnlMessage::DelTrafficFilter(m)
                } else {
                    RtnlMessage::GetTrafficFilter(m)
                },
            )
        } else if t == RTM_NEWNEIGHTBL || t == RTM_GETNEIGHTBL || t == RTM_SETNEIGHTBL {
            let buf = neighbour_table::MessageBuffer::new(self.buffer);
            let m = match neighbour_table::NeighbourTableMessage::parse(&buf) {
                Ok(m) => m,
                Err(e) => {
                    return Err(e.context("invalid neighbour table message"));
                },
            };
            Ok(
                if t == RTM_NEWNEIGHTBL {
                    RtnlMessage::NewNeighbourTable(m)
                } else if t == RTM_GETNEIGHTBL {
                    RtnlMessage::GetNeighbourTable(m)
                } else {
                    RtnlMessage::SetNeighbourTable(m)
                },
            )
        } else if t == RTM_NEWNSID || t == RTM_DELNSID || t == RTM_GETNSID {
            let m = match nsid::Message::parse(&nsid::MessageBuffer::new(self.buffer)) {
                Ok(m) => m,
                Err(e) => {
                    return Err(e.context("invalid nsid message"));
                },
            };
            Ok(
                if t == RTM_NEWNSID {
                    RtnlMessage::NewNsId(m)
                } else if t == RTM_DELNSID {
                    RtnlMessage::DelNsId(m)
                } else {
                    RtnlMessage::GetNsId(m)
                },
            )
        } else {
            Err(DecodeError::new(ErrorKind::InvalidValue).context("unknown message type"))
        }
    }
}

} // verus!
