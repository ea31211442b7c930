//! Network namespace identifier messages.
use vstd::prelude::*;
use vstd::slice::slice_subrange;

use crate::error::{with_context, DecodeError, ErrorKind};
use crate::nla::{
    all_some, nlas_formed_parse,
    decode_records, emit_nlas, lemma_nlas_decode_unique, lemma_nlas_round_trip, nla_records,
    nlas, nlas_buffer_len, nlas_bytes, nlas_decode, nlas_fit, nlas_parse_bytes, nlas_wf,
    parse_nlas, scan, slice_to_vec, DefaultNla, Nla as NlaTrait, NlaBuffer, NlaParse,
};
use crate::parsers::{parse_i32, parse_u32};
use crate::wire::{
    i32_at, i32_bytes, lemma_int_at_zero, lemma_int_bytes, push_bytes, push_i32, push_u32,
    set_bytes, splice, u32_at, u32_bytes,
};

verus! {

broadcast use vstd::slice::group_slice_axioms;

/// The header: the family byte, padded to four bytes.
pub const NSID_HEADER_LEN: usize = 4;

pub const NETNSA_NONE: u16 = 0;
pub const NETNSA_NSID: u16 = 1;
pub const NETNSA_PID: u16 = 2;
pub const NETNSA_FD: u16 = 3;

/// The identifier of a namespace that has none assigned.
pub const NETNSA_NSID_NOT_ASSIGNED: i32 = -1;

/// Namespace identifier attributes.
#[derive(Debug, Clone, PartialEq, Eq)]
pub enum Nla {
    Unspec(Vec<u8>),
    Id(i32),
    Pid(u32),
    Fd(u32),
    Other(DefaultNla),
}

impl NlaTrait for Nla {
    open spec fn spec_kind(&self) -> u16 {
        match self {
            Nla::Unspec(_) => NETNSA_NONE,
            Nla::Id(_) => NETNSA_NSID,
            Nla::Pid(_) => NETNSA_PID,
            Nla::Fd(_) => NETNSA_FD,
            Nla::Other(d) => d.kind,
        }
    }

    open spec fn spec_value(&self) -> Seq<u8> {
        match self {
            Nla::Unspec(b) => b@,
            Nla::Id(v) => i32_bytes(*v),
            Nla::Pid(v) => u32_bytes(*v),
            Nla::Fd(v) => u32_bytes(*v),
            Nla::Other(d) => d.value@,
        }
    }

    open spec fn spec_fits(&self) -> bool {
        true
    }

    fn kind(&self) -> (r: u16) {
        match self {
            Nla::Unspec(_) => NETNSA_NONE,
            Nla::Id(_) => NETNSA_NSID,
            Nla::Pid(_) => NETNSA_PID,
            Nla::Fd(_) => NETNSA_FD,
            Nla::Other(d) => d.kind,
        }
    }

    fn value_len(&self) -> (r: usize) {
        proof {
            lemma_int_bytes();
        }
        match self {
            Nla::Unspec(b) => b.len(),
            Nla::Id(_) | Nla::Pid(_) | Nla::Fd(_) => 4,
            Nla::Other(d) => d.value.len(),
        }
    }

    fn emit_value(&self, out: &mut Vec<u8>) {
        match self {
            Nla::Unspec(b) => push_bytes(out, b.as_slice()),
            Nla::Id(v) => push_i32(out, *v),
            Nla::Pid(v) => push_u32(out, *v),
            Nla::Fd(v) => push_u32(out, *v),
            Nla::Other(d) => push_bytes(out, d.value.as_slice()),
        }
    }
}

/// The context message of a failure to decode a record of this kind.
pub open spec fn nsid_context(kind: u16) -> &'static str {
    if kind == NETNSA_NSID {
        "invalid NETNSA_NSID value"
    } else if kind == NETNSA_PID {
        "invalid NETNSA_PID value"
    } else if kind == NETNSA_FD {
        "invalid NETNSA_FD value"
    } else {
        "invalid NLA"
    }
}

impl NlaParse for Nla {
    open spec fn spec_parses(kind: u16, value: Seq<u8>) -> bool {
        if kind == NETNSA_NSID || kind == NETNSA_PID || kind == NETNSA_FD {
            value.len() == 4
        } else {
            true
        }
    }

    open spec fn spec_decodes(&self, kind: u16, value: Seq<u8>) -> bool {
        match self {
            Nla::Unspec(b) => kind == NETNSA_NONE && b@ == value,
            Nla::Id(v) => kind == NETNSA_NSID && value.len() == 4 && *v == i32_at(value, 0),
            Nla::Pid(v) => kind == NETNSA_PID && value.len() == 4 && *v == u32_at(value, 0),
            Nla::Fd(v) => kind == NETNSA_FD && value.len() == 4 && *v == u32_at(value, 0),
            Nla::Other(d) => kind > NETNSA_FD && d.kind == kind && d.value@ == value,
        }
    }

    open spec fn spec_wf(&self) -> bool {
        match self {
            Nla::Other(d) => d.kind > NETNSA_FD,
            _ => true,
        }
    }

    open spec fn spec_context(kind: u16) -> &'static str {
        nsid_context(kind)
    }

    fn parse(buf: &NlaBuffer) -> (r: Result<Self, DecodeError>) {
        let payload = buf.value();
        let kind = buf.kind();
        if kind == NETNSA_NONE {
            Ok(Nla::Unspec(slice_to_vec(payload)))
        } else if kind == NETNSA_NSID {
            match with_context(parse_i32(payload), "invalid NETNSA_NSID value") {
                Ok(v) => Ok(Nla::Id(v)),
                Err(e) => Err(e),
            }
        } else if kind == NETNSA_PID {
            match with_context(parse_u32(payload), "invalid NETNSA_PID value") {
                Ok(v) => Ok(Nla::Pid(v)),
                Err(e) => Err(e),
            }
        } else if kind == NETNSA_FD {
            match with_context(parse_u32(payload), "invalid NETNSA_FD value") {
                Ok(v) => Ok(Nla::Fd(v)),
                Err(e) => Err(e),
            }
        } else {
            Ok(Nla::Other(DefaultNla::new(kind, slice_to_vec(payload))))
        }
    }

    proof fn lemma_round_trip(&self) {
        lemma_int_at_zero();
        lemma_int_bytes();
    }

    proof fn lemma_decodes_unique(&self, other: &Self, kind: u16, value: Seq<u8>) {
        lemma_int_bytes();
        match (self, other) {
            (Nla::Id(a), Nla::Id(b)) => {},
            _ => {},
        }
    }
}

/// A read-only view of a namespace identifier message.
#[derive(Debug, Clone, Copy)]
pub struct MessageBuffer<'a> {
    buffer: &'a [u8],
}

impl<'a> View for MessageBuffer<'a> {
    type V = Seq<u8>;

    closed spec fn view(&self) -> Seq<u8> {
        self.buffer@
    }
}

impl<'a> MessageBuffer<'a> {
    pub fn new(buffer: &'a [u8]) -> (r: MessageBuffer<'a>)
        ensures
            r@ == buffer@,
    {
        MessageBuffer { buffer }
    }

    pub fn new_checked(buffer: &'a [u8]) -> (r: Result<MessageBuffer<'a>, DecodeError>)
        ensures
            r is Ok <==> buffer@.len() >= NSID_HEADER_LEN,
            r is Ok ==> r->Ok_0@ == buffer@,
            r is Err ==> r->Err_0.kind == ErrorKind::Truncated,
    {
        if buffer.len() < NSID_HEADER_LEN {
            Err(DecodeError::new(ErrorKind::Truncated).context("nsid message buffer too short"))
        } else {
            Ok(MessageBuffer { buffer })
        }
    }

    pub fn rtgen_family(&self) -> (r: u8)
        requires
            self@.len() >= NSID_HEADER_LEN,
        ensures
            r == self@[0],
    {
        self.buffer[0]
    }

    pub fn payload(&self) -> (r: &'a [u8])
        requires
            self@.len() >= NSID_HEADER_LEN,
        ensures
            r@ == self@.subrange(NSID_HEADER_LEN as int, self@.len() as int),
    {
        slice_subrange(self.buffer, NSID_HEADER_LEN, self.buffer.len())
    }

    pub fn nlas(&self) -> (r: Vec<Result<NlaBuffer<'a>, DecodeError>>)
        requires
            self@.len() >= NSID_HEADER_LEN,
        ensures
            crate::nla::items_view(r@) == scan(
                self@.subrange(NSID_HEADER_LEN as int, self@.len() as int),
            ),
    {
        nlas(self.payload())
    }
}

/// The header of a namespace identifier message.
#[derive(Debug, Clone, Copy, PartialEq, Eq, Structural)]
pub struct Header {
    pub rtgen_family: u8,
}

impl Header {
    pub fn new() -> (r: Header)
        ensures
            r.rtgen_family == 0,
    {
        Header { rtgen_family: 0 }
    }

    /// The family byte and three bytes of zero padding.
    pub open spec fn spec_bytes(&self) -> Seq<u8> {
        seq![self.rtgen_family, 0u8, 0u8, 0u8]
    }

    pub fn buffer_len(&self) -> (r: usize)
        ensures
            r == NSID_HEADER_LEN,
    {
        NSID_HEADER_LEN
    }

    pub fn emit_into(&self, out: &mut Vec<u8>)
        ensures
            final(out)@ == old(out)@ + self.spec_bytes(),
    {
        out.push(self.rtgen_family);
        out.push(0u8);
        out.push(0u8);
        out.push(0u8);
        assert(final(out)@ =~= old(out)@ + self.spec_bytes());
    }

    pub fn emit(&self, buffer: &mut [u8])
        requires
            old(buffer)@.len() >= NSID_HEADER_LEN,
        ensures
            final(buffer)@ == splice(old(buffer)@, 0, self.spec_bytes()),
    {
        let mut bytes: Vec<u8> = Vec::new();
        self.emit_into(&mut bytes);
        set_bytes(buffer, 0, bytes.as_slice());
    }

    pub fn parse(buf: &MessageBuffer) -> (r: Result<Header, DecodeError>)
        requires
            buf@.len() >= NSID_HEADER_LEN,
        ensures
            r is Ok,
            r->Ok_0.rtgen_family == buf@[0],
    {
        Ok(Header { rtgen_family: buf.rtgen_family() })
    }
}

impl Default for Header {
    fn default() -> (r: Header)
        ensures
            r.rtgen_family == 0,
    {
        Header::new()
    }
}

/// A namespace identifier message: the header, then its attributes.
#[derive(Debug, Clone, PartialEq, Eq)]
pub struct Message {
    pub header: Header,
    pub nlas: Vec<Nla>,
}

impl Message {
    pub open spec fn spec_bytes(&self) -> Seq<u8> {
        self.header.spec_bytes() + nlas_bytes(self.nlas@)
    }

    pub open spec fn spec_fits(&self) -> bool {
        nlas_fit(self.nlas@) && self.spec_bytes().len() <= usize::MAX
    }

    pub open spec fn spec_wf(&self) -> bool {
        nlas_wf(self.nlas@)
    }

    pub fn buffer_len(&self) -> (r: usize)
        requires
            self.spec_fits(),
        ensures
            r == self.spec_bytes().len(),
    {
        self.header.buffer_len() + nlas_buffer_len(self.nlas.as_slice())
    }

    pub fn to_bytes(&self) -> (r: Vec<u8>)
        requires
            self.spec_fits(),
        ensures
            r@ == self.spec_bytes(),
    {
        let mut out: Vec<u8> = Vec::new();
        self.header.emit_into(&mut out);
        emit_nlas(self.nlas.as_slice(), &mut out);
        assert(out@ =~= self.spec_bytes());
        out
    }

    pub fn emit(&self, buffer: &mut [u8])
        requires
            self.spec_fits(),
            old(buffer)@.len() >= self.spec_bytes().len(),
        ensures
            final(buffer)@ == splice(old(buffer)@, 0, self.spec_bytes()),
    {
        let bytes = self.to_bytes();
        set_bytes(buffer, 0, bytes.as_slice());
    }

    pub open spec fn spec_parses(s: Seq<u8>) -> bool {
        s.len() >= NSID_HEADER_LEN && nlas_parse_bytes::<Nla>(
            s.subrange(NSID_HEADER_LEN as int, s.len() as int),
        )
    }

    pub open spec fn spec_decodes(&self, s: Seq<u8>) -> bool {
        let payload = s.subrange(NSID_HEADER_LEN as int, s.len() as int);
        &&& self.header.rtgen_family == s[0]
        &&& nlas_decode(self.nlas@, decode_records(payload)->Some_0)
    }

    /// Decodes a message: the header, then the attributes.
    pub fn parse(buf: &MessageBuffer) -> (r: Result<Message, DecodeError>)
        ensures
            r is Ok <==> Message::spec_parses(buf@),
            r is Ok ==> r->Ok_0.spec_decodes(buf@),
            buf@.len() < NSID_HEADER_LEN ==> r is Err && r->Err_0.kind == ErrorKind::Truncated,
            buf@.len() >= NSID_HEADER_LEN && r is Err ==> r->Err_0.context@.len() > 0
                && r->Err_0.context@.last() == "failed to parse nsid message NLAs",
            buf@.len() >= NSID_HEADER_LEN && !all_some(scan(buf@.subrange(NSID_HEADER_LEN as int,
                buf@.len() as int)))
                && nlas_formed_parse::<Nla>(buf@.subrange(NSID_HEADER_LEN as int,
                    buf@.len() as int)) ==> r is Err
                && r->Err_0.kind == ErrorKind::Truncated,
    {
        if buf.buffer.len() < NSID_HEADER_LEN {
            return Err(
                DecodeError::new(ErrorKind::Truncated).context(
                    "failed to parse nsid message header",
                ),
            );
        }
        let header = match with_context(Header::parse(buf), "failed to parse nsid message header") {
            Ok(h) => h,
            Err(e) => {
                return Err(e);
            },
        };
        match with_context(parse_nlas::<Nla>(buf.payload()), "failed to parse nsid message NLAs") {
            Ok(nlas) => Ok(Message { header, nlas }),
            Err(e) => Err(e),
        }
    }

    /// Emitting a well-formed message into a buffer of exactly its length
    /// leaves its encoding there, and decoding that encoding succeeds and
    /// gives a message with the same header whose attributes encode exactly
    /// as those of the message that was emitted.
    pub proof fn lemma_round_trip(&self)
        requires
            self.spec_wf(),
            self.spec_fits(),
        ensures
            forall|b: Seq<u8>|
                b.len() == self.spec_bytes().len() ==> #[trigger] splice(b, 0, self.spec_bytes())
                    == self.spec_bytes(),
            Message::spec_parses(self.spec_bytes()),
            self.spec_decodes(self.spec_bytes()),
            forall|m: Message| #[trigger]
                m.spec_decodes(self.spec_bytes()) ==> m.header == self.header && nla_records(
                    m.nlas@,
                ) == nla_records(self.nlas@),
    {
        assert forall|b: Seq<u8>| b.len() == self.spec_bytes().len() implies #[trigger] splice(
            b,
            0,
            self.spec_bytes(),
        ) == self.spec_bytes() by {
            crate::wire::lemma_splice_whole(b, self.spec_bytes());
        }
        let s = self.spec_bytes();
        let payload = s.subrange(NSID_HEADER_LEN as int, s.len() as int);
        assert(payload =~= nlas_bytes(self.nlas@));
        lemma_nlas_round_trip(self.nlas@);
        assert forall|m: Message| #[trigger]
            m.spec_decodes(self.spec_bytes()) implies m.header == self.header && nla_records(
            m.nlas@,
        ) == nla_records(self.nlas@) by {
            lemma_nlas_decode_unique(self.nlas@, m.nlas@, nla_records(self.nlas@));
        }
    }
}

impl Default for Message {
    fn default() -> (r: Message)
        ensures
            r.header.rtgen_family == 0,
            r.nlas@.len() == 0,
    {
        Message { header: Header::new(), nlas: Vec::new() }
    }
}

} // verus!
