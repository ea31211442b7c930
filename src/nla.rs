//! The type-length-value attribute codec.
//!
//! A record is a 2-byte length (header and value, without padding), a 2-byte
//! kind, the value bytes, and zero padding up to the next multiple of four.
use vstd::prelude::*;
use vstd::slice::*;

use crate::error::{DecodeError, ErrorKind};
use crate::wire::{get_u16, lemma_int_bytes, u16_at, u16_bytes};

verus! {

broadcast use vstd::slice::group_slice_axioms;

/// Size of a record header: the length and kind fields.
pub const NLA_HEADER_SIZE: usize = 4;

/// Padding that brings `n` to the next multiple of four.
pub open spec fn pad4(n: int) -> int {
    (4 - n % 4) % 4
}

/// `n` rounded up to the next multiple of four.
pub open spec fn align4(n: int) -> int {
    n + pad4(n)
}

pub open spec fn zeros(n: int) -> Seq<u8> {
    Seq::new(n as nat, |i: int| 0u8)
}

/// A value of this length fits in a record, whose length field has 16 bits.
pub open spec fn nla_fits(value_len: int) -> bool {
    value_len + 4 <= 0xffff
}

/// The bytes of one record, padding included.
pub open spec fn record_bytes(kind: u16, value: Seq<u8>) -> Seq<u8> {
    let len = 4 + value.len() as int;
    u16_bytes(len as u16) + u16_bytes(kind) + value + zeros(pad4(len))
}

/// The bytes of a sequence of records, one after the other.
pub open spec fn encode_records(rs: Seq<(u16, Seq<u8>)>) -> Seq<u8>
    decreases rs.len(),
{
    if rs.len() == 0 {
        seq![]
    } else {
        record_bytes(rs[0].0, rs[0].1) + encode_records(rs.skip(1))
    }
}

/// Every value of `rs` fits in a record.
pub open spec fn records_fit(rs: Seq<(u16, Seq<u8>)>) -> bool {
    forall|i: int| 0 <= i < rs.len() ==> nla_fits(#[trigger] rs[i].1.len() as int)
}

/// The front of `s` holds a whole record: a header whose length covers at
/// least the header, and a padded record that fits in `s`.
pub open spec fn front_valid(s: Seq<u8>) -> bool {
    &&& s.len() >= 4
    &&& 4 <= u16_at(s, 0)
    &&& align4(u16_at(s, 0) as int) <= s.len()
}

/// What iterating over the records of `s` yields: the bytes of each record
/// (header and value, without padding) until the bytes run out, or a failure
/// at the first malformed record, after which nothing more is yielded.
pub open spec fn scan(s: Seq<u8>) -> Seq<Option<Seq<u8>>>
    decreases s.len(),
{
    if s.len() == 0 {
        seq![]
    } else if !front_valid(s) {
        seq![None]
    } else {
        let len = u16_at(s, 0) as int;
        seq![Some(s.subrange(0, len))] + scan(s.subrange(align4(len), s.len() as int))
    }
}

pub open spec fn rec_kind(r: Seq<u8>) -> u16 {
    u16_at(r, 2)
}

pub open spec fn rec_value(r: Seq<u8>) -> Seq<u8> {
    r.subrange(4, r.len() as int)
}

pub open spec fn all_some(items: Seq<Option<Seq<u8>>>) -> bool {
    forall|i: int| 0 <= i < items.len() ==> (#[trigger] items[i]) is Some
}

/// The (kind, value) pairs of the records of `s`, or `None` when a record
/// is malformed.
pub open spec fn decode_records(s: Seq<u8>) -> Option<Seq<(u16, Seq<u8>)>> {
    let items = scan(s);
    if all_some(items) {
        Some(
            items.map_values(
                |o: Option<Seq<u8>>| (rec_kind(o->Some_0), rec_value(o->Some_0)),
            ),
        )
    } else {
        None
    }
}

proof fn lemma_align4(n: int)
    requires
        n >= 0,
    ensures
        align4(n) >= n,
        align4(n) < n + 4,
        align4(n) % 4 == 0,
{
}

proof fn lemma_scan_front(kind: u16, value: Seq<u8>, rest: Seq<u8>)
    requires
        nla_fits(value.len() as int),
    ensures
        ({
            let s = record_bytes(kind, value) + rest;
            &&& record_bytes(kind, value).len() == align4(4 + value.len() as int)
            &&& front_valid(s)
            &&& u16_at(s, 0) == 4 + value.len() as int
            &&& s.subrange(0, 4 + value.len() as int) == u16_bytes((4 + value.len() as int) as u16)
                + u16_bytes(kind) + value
            &&& s.subrange(align4(4 + value.len() as int), s.len() as int) == rest
            &&& rec_kind(s.subrange(0, 4 + value.len() as int)) == kind
            &&& rec_value(s.subrange(0, 4 + value.len() as int)) == value
        }),
{
    lemma_int_bytes();
    let len = 4 + value.len() as int;
    let r = record_bytes(kind, value);
    let s = r + rest;
    let h = u16_bytes(len as u16);
    let k = u16_bytes(kind);
    lemma_align4(len);
    assert(s.subrange(0, 2) =~= h);
    assert(u16_at(s, 0) == len);
    assert(s.subrange(0, len) =~= h + k + value);
    assert(s.subrange(align4(len), s.len() as int) =~= rest);
    let t = s.subrange(0, len);
    assert(t.subrange(2, 4) =~= k);
    assert(t.subrange(4, t.len() as int) =~= value);
}

/// Decoding a sequence of encoded records gives the records back.
pub proof fn lemma_records_round_trip(rs: Seq<(u16, Seq<u8>)>)
    requires
        records_fit(rs),
    ensures
        decode_records(encode_records(rs)) == Some(rs),
    decreases rs.len(),
{
    if rs.len() == 0 {
        assert(scan(encode_records(rs)) =~= seq![]);
        assert(decode_records(encode_records(rs))->Some_0 =~= rs);
    } else {
        let tail = rs.skip(1);
        assert forall|i: int| 0 <= i < tail.len() implies nla_fits(
            #[trigger] tail[i].1.len() as int,
        ) by {
            assert(tail[i] == rs[i + 1]);
        }
        lemma_records_round_trip(tail);
        let k = rs[0].0;
        let v = rs[0].1;
        assert(nla_fits(rs[0].1.len() as int));
        let rest = encode_records(tail);
        lemma_scan_front(k, v, rest);
        let s = encode_records(rs);
        assert(s == record_bytes(k, v) + rest);
        let len = 4 + v.len() as int;
        let first = s.subrange(0, len);
        assert(scan(s) == seq![Some(first)] + scan(rest));
        let items = scan(s);
        assert(all_some(items)) by {
            assert forall|i: int| 0 <= i < items.len() implies (#[trigger] items[i]) is Some by {
                if i > 0 {
                    assert(items[i] == scan(rest)[i - 1]);
                }
            }
        }
        let got = decode_records(s)->Some_0;
        assert forall|i: int| 0 <= i < rs.len() implies #[trigger] got[i] == rs[i] by {
            if i > 0 {
                assert(items[i] == scan(rest)[i - 1]);
                assert(decode_records(rest)->Some_0[i - 1] == tail[i - 1]);
            }
        }
        assert(got =~= rs);
    }
}

/// One attribute: encoding then decoding gives its kind and value back, and
/// its record occupies its length rounded up to a multiple of four.
pub proof fn lemma_record_round_trip(kind: u16, value: Seq<u8>)
    requires
        nla_fits(value.len() as int),
    ensures
        decode_records(record_bytes(kind, value)) == Some(seq![(kind, value)]),
        record_bytes(kind, value).len() == align4(4 + value.len() as int),
{
    let rs = seq![(kind, value)];
    assert(rs.skip(1) =~= Seq::<(u16, Seq<u8>)>::empty());
    assert(encode_records(rs.skip(1)) == Seq::<u8>::empty());
    assert(encode_records(rs) =~= record_bytes(kind, value));
    lemma_records_round_trip(rs);
    lemma_scan_front(kind, value, seq![]);
}

/// A buffer whose first record declares more bytes than remain (or that is
/// too short for a header) decodes to a failure and nothing else.
pub proof fn lemma_truncated(s: Seq<u8>)
    requires
        s.len() > 0,
        s.len() < 4 || u16_at(s, 0) > s.len(),
    ensures
        scan(s) == seq![Option::<Seq<u8>>::None],
        decode_records(s) is None,
{
    assert(!front_valid(s));
    assert(!all_some(scan(s))) by {
        assert(scan(s)[0] is None);
    }
}

/// A read-only view of one attribute record at the front of a byte slice.
#[derive(Debug, Clone, Copy)]
pub struct NlaBuffer<'a> {
    buffer: &'a [u8],
}

impl<'a> View for NlaBuffer<'a> {
    type V = Seq<u8>;

    closed spec fn view(&self) -> Seq<u8> {
        self.buffer@
    }
}

/// The header of `s` is consistent with its size: the declared length
/// covers the header and fits in `s`.
pub open spec fn header_valid(s: Seq<u8>) -> bool {
    &&& s.len() >= 4
    &&& 4 <= u16_at(s, 0) <= s.len()
}

/// The cause that `check_buffer_length` reports for an invalid header.
pub open spec fn header_error(s: Seq<u8>) -> ErrorKind {
    if s.len() < 4 || u16_at(s, 0) > s.len() {
        ErrorKind::Truncated
    } else {
        ErrorKind::InvalidLength
    }
}

impl<'a> NlaBuffer<'a> {
    /// Wraps `buffer` without checking it.
    pub fn new(buffer: &'a [u8]) -> (r: NlaBuffer<'a>)
        ensures
            r@ == buffer@,
    {
        NlaBuffer { buffer }
    }

    /// Wraps `buffer` once its header has been checked.
    pub fn new_checked(buffer: &'a [u8]) -> (r: Result<NlaBuffer<'a>, DecodeError>)
        ensures
            r is Ok <==> header_valid(buffer@),
            r is Ok ==> r->Ok_0@ == buffer@,
            r is Err ==> r->Err_0.kind == header_error(buffer@),
    {
        let b = NlaBuffer { buffer };
        match b.check_buffer_length() {
            Ok(()) => Ok(b),
            Err(e) => Err(e.context("invalid NLA buffer")),
        }
    }

    /// Checks that the header is present, and that the declared length covers
    /// the header and fits in the buffer.
    pub fn check_buffer_length(&self) -> (r: Result<(), DecodeError>)
        ensures
            r is Ok <==> header_valid(self@),
            r is Err ==> r->Err_0.kind == header_error(self@),
    {
        let len = self.buffer.len();
        if len < NLA_HEADER_SIZE {
            Err(DecodeError::new(ErrorKind::Truncated))
        } else if len < self.length() as usize {
            Err(DecodeError::new(ErrorKind::Truncated))
        } else if (self.length() as usize) < NLA_HEADER_SIZE {
            Err(DecodeError::new(ErrorKind::InvalidLength))
        } else {
            Ok(())
        }
    }

    pub open spec fn spec_length(&self) -> u16 {
        u16_at(self@, 0)
    }

    pub open spec fn spec_kind(&self) -> u16 {
        u16_at(self@, 2)
    }

    pub open spec fn spec_value(&self) -> Seq<u8> {
        self@.subrange(4, self.spec_length() as int)
    }

    /// The length field: header and value, without padding.
    pub fn length(&self) -> (r: u16)
        requires
            self@.len() >= 2,
        ensures
            r == self.spec_length(),
    {
        get_u16(self.buffer, 0)
    }

    /// The kind field.
    pub fn kind(&self) -> (r: u16)
        requires
            self@.len() >= 4,
        ensures
            r == self.spec_kind(),
    {
        get_u16(self.buffer, 2)
    }

    /// The number of value bytes.
    pub fn value_length(&self) -> (r: usize)
        requires
            header_valid(self@),
        ensures
            r == self.spec_length() - 4,
    {
        self.length() as usize - NLA_HEADER_SIZE
    }

    /// The value bytes.
    pub fn value(&self) -> (r: &'a [u8])
        requires
            header_valid(self@),
        ensures
            r@ == self.spec_value(),
    {
        let len = self.length() as usize;
        slice_subrange(self.buffer, NLA_HEADER_SIZE, len)
    }
}

/// `n` rounded up to the next multiple of four.
pub fn nla_align(n: usize) -> (r: usize)
    requires
        n <= usize::MAX - 3,
    ensures
        r == align4(n as int),
{
    n + (4 - n % 4) % 4
}

pub open spec fn item_view<'a>(r: Result<NlaBuffer<'a>, DecodeError>) -> Option<Seq<u8>> {
    match r {
        Ok(b) => Some(b@),
        Err(_) => None,
    }
}

pub open spec fn items_view<'a>(v: Seq<Result<NlaBuffer<'a>,
    DecodeError>>) -> Seq<Option<Seq<u8>>> {
    v.map_values(|r: Result<NlaBuffer<'a>, DecodeError>| item_view(r))
}

/// The records of `buffer`, in order: a view of each well-formed record
/// (header and value, without padding), and at the first malformed one a
/// truncation error, after which iteration stops.
pub fn nlas<'a>(buffer: &'a [u8]) -> (r: Vec<Result<NlaBuffer<'a>, DecodeError>>)
    ensures
        items_view(r@) == scan(buffer@),
        forall|i: int| 0 <= i < r@.len() && (#[trigger] r@[i]) is Err ==> r@[i]->Err_0.kind
            == ErrorKind::Truncated,
{
    let n = buffer.len();
    let mut out: Vec<Result<NlaBuffer<'a>, DecodeError>> = Vec::new();
    let mut pos: usize = 0;
    assert(buffer@.subrange(0, n as int) =~= buffer@);
    assert(items_view(out@) =~= Seq::<Option<Seq<u8>>>::empty());
    while pos < n
        invariant
            n == buffer@.len(),
            pos <= n,
            scan(buffer@) == items_view(out@) + scan(buffer@.subrange(pos as int, n as int)),
            forall|i: int| 0 <= i < out@.len()
                && (#[trigger] out@[i]) is Err ==> out@[i]->Err_0.kind
                == ErrorKind::Truncated,
        decreases n - pos,
    {
        let rest = slice_subrange(buffer, pos, n);
        let ghost s = rest@;
        if n - pos < NLA_HEADER_SIZE || (get_u16(rest, 0) as usize) < NLA_HEADER_SIZE || nla_align(
            get_u16(rest, 0) as usize,
        ) > n - pos {
            assert(!front_valid(s));
            out.push(Err(DecodeError::new(ErrorKind::Truncated)));
            assert(items_view(out@) =~= items_view(out@.drop_last()).push(None));
            assert(scan(s) == seq![Option::<Seq<u8>>::None]);
            assert(scan(buffer@) =~= items_view(out@));
            return out;
        }
        let len = get_u16(rest, 0) as usize;
        let step = nla_align(len);
        assert(front_valid(s));
        let rec = slice_subrange(rest, 0, len);
        out.push(Ok(NlaBuffer { buffer: rec }));
        assert(items_view(out@) =~= items_view(out@.drop_last()).push(Some(rec@)));
        assert(s.subrange(step as int, s.len() as int) =~= buffer@.subrange(
            (pos + step) as int,
            n as int,
        ));
        assert(scan(s) == seq![Some(rec@)] + scan(s.subrange(step as int, s.len() as int)));
        assert(scan(buffer@) =~= items_view(out@) + scan(
            buffer@.subrange((pos + step) as int, n as int),
        ));
        pos = pos + step;
    }
    assert(buffer@.subrange(pos as int, n as int) =~= Seq::<u8>::empty());
    assert(scan(buffer@) =~= items_view(out@));
    out
}

} // verus!

verus! {

/// An attribute: a value that encodes as one record.
pub trait Nla: Sized {
    spec fn spec_kind(&self) -> u16;

    spec fn spec_value(&self) -> Seq<u8>;

    /// The value, and every attribute nested in it, fits in its record.
    spec fn spec_fits(&self) -> bool;

    /// The kind of the record.
    fn kind(&self) -> (r: u16)
        ensures
            r == self.spec_kind(),
    ;

    /// The length of the value, without header or padding.
    fn value_len(&self) -> (r: usize)
        requires
            self.spec_fits(),
            self.spec_value().len() <= usize::MAX,
        ensures
            r == self.spec_value().len(),
    ;

    /// Appends the value bytes.
    fn emit_value(&self, out: &mut Vec<u8>)
        requires
            self.spec_fits(),
        ensures
            final(out)@ == old(out)@ + self.spec_value(),
    ;
}

/// An attribute that can be decoded from a record.
///
/// `spec_parses` and `spec_decodes` state what decoding a record gives:
/// whether a record of a kind and value decodes, and which value it decodes
/// to. A well-formed value is one that decoding its own record gives back.
pub trait NlaParse: Nla {
    spec fn spec_parses(kind: u16, value: Seq<u8>) -> bool;

    spec fn spec_decodes(&self, kind: u16, value: Seq<u8>) -> bool;

    spec fn spec_wf(&self) -> bool;

    /// The context message that ends the trail of an error from decoding a
    /// record of this kind.
    spec fn spec_context(kind: u16) -> &'static str;

    /// Decodes one record.
    fn parse(buf: &NlaBuffer) -> (r: Result<Self, DecodeError>)
        requires
            header_valid(buf@),
        ensures
            r is Ok <==> Self::spec_parses(buf.spec_kind(), buf.spec_value()),
            r is Ok ==> r->Ok_0.spec_decodes(buf.spec_kind(), buf.spec_value()),
            r is Ok ==> r->Ok_0.spec_wf(),
            r is Err ==> r->Err_0.context@.len() > 0 && r->Err_0.context@.last()
                == Self::spec_context(buf.spec_kind()),
    ;

    /// A well-formed value is the decoding of its own record.
    proof fn lemma_round_trip(&self)
        requires
            self.spec_wf(),
            self.spec_fits(),
        ensures
            Self::spec_parses(self.spec_kind(), self.spec_value()),
            self.spec_decodes(self.spec_kind(), self.spec_value()),
    ;

    /// Two decodings of one record encode alike.
    proof fn lemma_decodes_unique(&self, other: &Self, kind: u16, value: Seq<u8>)
        requires
            self.spec_decodes(kind, value),
            other.spec_decodes(kind, value),
        ensures
            self.spec_kind() == other.spec_kind(),
            self.spec_value() == other.spec_value(),
    ;
}

/// An attribute of a kind that no catalog recognizes, kept verbatim.
#[derive(Debug, Clone, PartialEq, Eq)]
pub struct DefaultNla {
    pub kind: u16,
    pub value: Vec<u8>,
}

impl DefaultNla {
    pub fn new(kind: u16, value: Vec<u8>) -> (r: DefaultNla)
        ensures
            r.kind == kind,
            r.value@ == value@,
    {
        DefaultNla { kind, value }
    }
}

pub fn slice_to_vec(s: &[u8]) -> (r: Vec<u8>)
    ensures
        r@ == s@,
{
    let mut v: Vec<u8> = Vec::new();
    crate::wire::push_bytes(&mut v, s);
    v
}

impl Nla for DefaultNla {
    open spec fn spec_kind(&self) -> u16 {
        self.kind
    }

    open spec fn spec_value(&self) -> Seq<u8> {
        self.value@
    }

    open spec fn spec_fits(&self) -> bool {
        true
    }

    fn kind(&self) -> (r: u16) {
        self.kind
    }

    fn value_len(&self) -> (r: usize) {
        self.value.len()
    }

    fn emit_value(&self, out: &mut Vec<u8>) {
        crate::wire::push_bytes(out, self.value.as_slice());
    }

}

impl NlaParse for DefaultNla {
    open spec fn spec_parses(kind: u16, value: Seq<u8>) -> bool {
        true
    }

    open spec fn spec_decodes(&self, kind: u16, value: Seq<u8>) -> bool {
        self.kind == kind && self.value@ == value
    }

    open spec fn spec_wf(&self) -> bool {
        true
    }

    open spec fn spec_context(kind: u16) -> &'static str {
        "invalid NLA"
    }

    fn parse(buf: &NlaBuffer) -> (r: Result<Self, DecodeError>) {
        Ok(DefaultNla { kind: buf.kind(), value: slice_to_vec(buf.value()) })
    }

    proof fn lemma_round_trip(&self) {
    }

    proof fn lemma_decodes_unique(&self, other: &Self, kind: u16, value: Seq<u8>) {
    }
}

/// The (kind, value) pair of an attribute's record.
pub open spec fn nla_record<T: Nla>(x: T) -> (u16, Seq<u8>) {
    (x.spec_kind(), x.spec_value())
}

pub open spec fn nla_records<T: Nla>(xs: Seq<T>) -> Seq<(u16, Seq<u8>)> {
    xs.map_values(|x: T| nla_record(x))
}

/// The bytes of a sequence of attributes.
pub open spec fn nlas_bytes<T: Nla>(xs: Seq<T>) -> Seq<u8> {
    encode_records(nla_records(xs))
}

/// Every attribute, and everything nested in it, fits in its record.
pub open spec fn nlas_fit<T: Nla>(xs: Seq<T>) -> bool {
    &&& forall|i: int| 0 <= i < xs.len() ==> (#[trigger] xs[i]).spec_fits()
    &&& records_fit(nla_records(xs))
}

/// Every attribute is well formed.
pub open spec fn nlas_wf<T: NlaParse>(xs: Seq<T>) -> bool {
    forall|i: int| 0 <= i < xs.len() ==> (#[trigger] xs[i]).spec_wf()
}

/// `ys` is what decoding the records `rs` gives.
pub open spec fn nlas_decode<T: NlaParse>(ys: Seq<T>, rs: Seq<(u16, Seq<u8>)>) -> bool {
    &&& ys.len() == rs.len()
    &&& forall|i: int| 0 <= i < ys.len() ==> (#[trigger] ys[i]).spec_decodes(rs[i].0, rs[i].1)
    &&& forall|i: int| 0 <= i < ys.len() ==> (#[trigger] ys[i]).spec_wf()
}

/// Each of the records `rs` decodes.
pub open spec fn nlas_parse<T: NlaParse>(rs: Seq<(u16, Seq<u8>)>) -> bool {
    forall|i: int| 0 <= i < rs.len() ==> T::spec_parses(#[trigger] rs[i].0, rs[i].1)
}

/// Attributes can be decoded from `s`: its records are well formed and each
/// of them decodes.
pub open spec fn nlas_parse_bytes<T: NlaParse>(s: Seq<u8>) -> bool {
    decode_records(s) is Some && nlas_parse::<T>(decode_records(s)->Some_0)
}

pub proof fn lemma_encode_split(rs: Seq<(u16, Seq<u8>)>, i: int)
    requires
        0 <= i <= rs.len(),
    ensures
        encode_records(rs) == encode_records(rs.take(i)) + encode_records(rs.skip(i)),
    decreases i,
{
    if i == 0 {
        assert(rs.take(0) =~= Seq::<(u16, Seq<u8>)>::empty());
        assert(rs.skip(0) =~= rs);
        assert(encode_records(rs) =~= encode_records(rs.take(i)) + encode_records(rs.skip(i)));
    } else {
        lemma_encode_split(rs.skip(1), i - 1);
        assert(rs.skip(1).take(i - 1) =~= rs.take(i).skip(1));
        assert(rs.skip(1).skip(i - 1) =~= rs.skip(i));
        assert(rs.take(i)[0] == rs[0]);
        assert(encode_records(rs) =~= encode_records(rs.take(i)) + encode_records(rs.skip(i)));
    }
}

proof fn lemma_encode_push(rs: Seq<(u16, Seq<u8>)>, i: int)
    requires
        0 <= i < rs.len(),
    ensures
        encode_records(rs.take(i + 1)) == encode_records(rs.take(i)) + record_bytes(
            rs[i].0,
            rs[i].1,
        ),
{
    let t = rs.take(i + 1);
    lemma_encode_split(t, i);
    assert(t.take(i) =~= rs.take(i));
    let last = t.skip(i);
    assert(last.skip(1) =~= Seq::<(u16, Seq<u8>)>::empty());
    assert(last[0] == rs[i]);
    assert(encode_records(last.skip(1)) == Seq::<u8>::empty());
    assert(encode_records(last) =~= record_bytes(rs[i].0, rs[i].1));
}

/// Appends one attribute's record: header, value and zero padding.
pub fn emit_nla<T: Nla>(x: &T, out: &mut Vec<u8>)
    requires
        x.spec_fits(),
        nla_fits(x.spec_value().len() as int),
    ensures
        final(out)@ == old(out)@ + record_bytes(x.spec_kind(), x.spec_value()),
{
    let len = x.value_len() + NLA_HEADER_SIZE;
    crate::wire::push_u16(out, len as u16);
    crate::wire::push_u16(out, x.kind());
    x.emit_value(out);
    crate::wire::push_zeros(out, (4 - len % 4) % 4);
    assert(final(out)@ =~= old(out)@ + record_bytes(x.spec_kind(), x.spec_value()));
}

/// Appends the records of a sequence of attributes, in order.
pub fn emit_nlas<T: Nla>(xs: &[T], out: &mut Vec<u8>)
    requires
        nlas_fit(xs@),
    ensures
        final(out)@ == old(out)@ + nlas_bytes(xs@),
{
    let ghost rs = nla_records(xs@);
    let n = xs.len();
    let mut i: usize = 0;
    assert(rs.take(0) =~= Seq::<(u16, Seq<u8>)>::empty());
    assert(old(out)@ + encode_records(rs.take(0)) =~= old(out)@);
    while i < n
        invariant
            n == xs@.len(),
            rs == nla_records(xs@),
            nlas_fit(xs@),
            i <= n,
            out@ == old(out)@ + encode_records(rs.take(i as int)),
        decreases n - i,
    {
        assert(nla_fits(rs[i as int].1.len() as int));
        emit_nla(&xs[i], out);
        proof {
            lemma_encode_push(rs, i as int);
        }
        assert(out@ =~= old(out)@ + encode_records(rs.take(i + 1)));
        i = i + 1;
    }
    assert(rs.take(n as int) =~= rs);
}

/// The number of bytes that the records of `xs` occupy, padding included.
pub fn nlas_buffer_len<T: Nla>(xs: &[T]) -> (r: usize)
    requires
        nlas_fit(xs@),
        nlas_bytes(xs@).len() <= usize::MAX,
    ensures
        r == nlas_bytes(xs@).len(),
{
    let ghost rs = nla_records(xs@);
    let n = xs.len();
    let mut i: usize = 0;
    let mut total: usize = 0;
    assert(rs.take(0) =~= Seq::<(u16, Seq<u8>)>::empty());
    while i < n
        invariant
            n == xs@.len(),
            rs == nla_records(xs@),
            nlas_fit(xs@),
            encode_records(rs).len() <= usize::MAX,
            i <= n,
            total == encode_records(rs.take(i as int)).len(),
        decreases n - i,
    {
        assert(nla_fits(rs[i as int].1.len() as int));
        proof {
            lemma_encode_push(rs, i as int);
            lemma_encode_split(rs, i + 1);
            lemma_align4(4 + rs[i as int].1.len() as int);
            lemma_scan_front(rs[i as int].0, rs[i as int].1, seq![]);
        }
        let len = xs[i].value_len() + NLA_HEADER_SIZE;
        total = total + nla_align(len);
        i = i + 1;
    }
    assert(rs.take(n as int) =~= rs);
    total
}

pub proof fn lemma_scan_valid(s: Seq<u8>)
    ensures
        forall|i: int|
            0 <= i < scan(s).len() && (#[trigger] scan(s)[i]) is Some ==> header_valid(
                scan(s)[i]->Some_0,
            ) && u16_at(scan(s)[i]->Some_0, 0) == scan(s)[i]->Some_0.len(),
    decreases s.len(),
{
    if s.len() > 0 && front_valid(s) {
        let len = u16_at(s, 0) as int;
        let rest = s.subrange(align4(len), s.len() as int);
        lemma_scan_valid(rest);
        let r = s.subrange(0, len);
        assert(r.subrange(0, 2) =~= s.subrange(0, 2));
        assert forall|i: int|
            0 <= i < scan(s).len() && (#[trigger] scan(s)[i]) is Some implies header_valid(
            scan(s)[i]->Some_0,
        ) && u16_at(scan(s)[i]->Some_0, 0) == scan(s)[i]->Some_0.len() by {
            if i > 0 {
                assert(scan(s)[i] == scan(rest)[i - 1]);
            }
        }
    }
}

/// Every well-formed record of `s`, up to the first malformed one, decodes
/// as an attribute of `T`.
pub open spec fn nlas_formed_parse<T: NlaParse>(s: Seq<u8>) -> bool {
    forall|i: int|
        0 <= i < scan(s).len() && (#[trigger] scan(s)[i]) is Some ==> T::spec_parses(
            rec_kind(scan(s)[i]->Some_0),
            rec_value(scan(s)[i]->Some_0),
        )
}

/// Decodes every record of `payload` as an attribute of `T`, in order. Fails
/// at the first malformed record or the first record that does not decode;
/// when the failure is a malformed record, it is a truncation.
pub fn parse_nlas<T: NlaParse>(payload: &[u8]) -> (r: Result<Vec<T>, DecodeError>)
    ensures
        r is Ok <==> nlas_parse_bytes::<T>(payload@),
        r is Ok ==> nlas_decode(r->Ok_0@, decode_records(payload@)->Some_0),
        !all_some(scan(payload@)) && nlas_formed_parse::<T>(payload@) ==> r is Err
            && r->Err_0.kind == ErrorKind::Truncated,
{
    let items = nlas(payload);
    let ghost sc = scan(payload@);
    proof {
        lemma_scan_valid(payload@);
    }
    let n = items.len();
    let mut out: Vec<T> = Vec::new();
    let mut i: usize = 0;
    while i < n
        invariant
            n == items@.len(),
            items_view(items@) == sc,
            sc == scan(payload@),
            forall|j: int|
                0 <= j < sc.len() && (#[trigger] sc[j]) is Some ==> header_valid(sc[j]->Some_0)
                    && u16_at(sc[j]->Some_0, 0) == sc[j]->Some_0.len(),
            i <= n,
            out@.len() == i,
            forall|j: int| 0 <= j < i ==> (#[trigger] sc[j]) is Some,
            forall|j: int|
                0 <= j < i ==> (#[trigger] out@[j]).spec_decodes(
                    rec_kind(sc[j]->Some_0),
                    rec_value(sc[j]->Some_0),
                ),
            forall|j: int| 0 <= j < i ==> (#[trigger] out@[j]).spec_wf(),
            forall|j: int|
                0 <= j < i ==> T::spec_parses(
                    rec_kind(#[trigger] sc[j]->Some_0),
                    rec_value(sc[j]->Some_0),
                ),
        decreases n - i,
    {
        assert(item_view(items@[i as int]) == sc[i as int]);
        match &items[i] {
            Err(_) => {
                assert(!all_some(sc));
                return Err(DecodeError::new(ErrorKind::Truncated).context("invalid NLA"));
            },
            Ok(b) => {
                assert(sc[i as int] == Some(b@));
                assert(b.spec_value() == rec_value(b@));
                match T::parse(b) {
                    Ok(x) => {
                        out.push(x);
                    },
                    Err(e) => {
                        proof {
                            if all_some(sc) {
                                let rs = decode_records(payload@)->Some_0;
                                assert(rs.len() == sc.len());
                                assert(rs[i as int] == (rec_kind(b@), rec_value(b@)));
                                assert(!T::spec_parses(rs[i as int].0, rs[i as int].1));
                                assert(!nlas_parse::<T>(rs));
                            }
                            assert(!T::spec_parses(rec_kind(sc[i as int]->Some_0),
                                rec_value(sc[i as int]->Some_0)));
                            assert(!nlas_formed_parse::<T>(payload@));
                        }
                        return Err(e);
                    },
                }
            },
        }
        i = i + 1;
    }
    assert(all_some(sc));
    let ghost rs = decode_records(payload@)->Some_0;
    assert forall|j: int| 0 <= j < rs.len() implies T::spec_parses(#[trigger] rs[j].0, rs[j].1) by {
        assert(rs[j] == (rec_kind(sc[j]->Some_0), rec_value(sc[j]->Some_0)));
    }
    assert forall|j: int| 0 <= j < out@.len() implies (#[trigger] out@[j]).spec_decodes(
        rs[j].0,
        rs[j].1,
    ) by {
        assert(rs[j] == (rec_kind(sc[j]->Some_0), rec_value(sc[j]->Some_0)));
    }
    Ok(out)
}

/// Decoding the records of well-formed attributes gives values that encode
/// exactly as the attributes they came from: same kinds, same value bytes, same order.
pub proof fn lemma_nlas_round_trip<T: NlaParse>(xs: Seq<T>)
    requires
        nlas_wf(xs),
        nlas_fit(xs),
    ensures
        decode_records(nlas_bytes(xs)) == Some(nla_records(xs)),
        nlas_parse::<T>(nla_records(xs)),
        nlas_decode(xs, nla_records(xs)),
{
    lemma_records_round_trip(nla_records(xs));
    let rs = nla_records(xs);
    assert forall|i: int| 0 <= i < rs.len() implies T::spec_parses(#[trigger] rs[i].0, rs[i].1) by {
        xs[i].lemma_round_trip();
    }
    assert forall|i: int| 0 <= i < xs.len() implies (#[trigger] xs[i]).spec_decodes(
        rs[i].0,
        rs[i].1,
    ) by {
        xs[i].lemma_round_trip();
    }
}

/// Two decodings of the same records encode to the same records.
pub proof fn lemma_nlas_decode_unique<T: NlaParse>(xs: Seq<T>, ys: Seq<T>, rs: Seq<(u16, Seq<u8>)>)
    requires
        nlas_decode(xs, rs),
        nlas_decode(ys, rs),
    ensures
        nla_records(xs) == nla_records(ys),
{
    assert forall|i: int| 0 <= i < xs.len() implies #[trigger] nla_records(xs)[i] == nla_records(
        ys,
    )[i] by {
        xs[i].lemma_decodes_unique(&ys[i], rs[i].0, rs[i].1);
    }
    assert(nla_records(xs) =~= nla_records(ys));
}

} // verus!

verus! {

/// Well-formed records followed by bytes that do not start with a whole
/// record (fewer than four bytes, or a declared length that runs past the
/// end): iteration yields the records in order, then one failure, and the
/// bytes as a whole do not decode.
pub proof fn lemma_records_then_truncated(rs: Seq<(u16, Seq<u8>)>, t: Seq<u8>)
    requires
        records_fit(rs),
        t.len() > 0,
        !front_valid(t),
    ensures
        scan(encode_records(rs) + t).len() == rs.len() + 1,
        forall|i: int|
            0 <= i < rs.len() ==> (#[trigger] scan(encode_records(rs) + t)[i]) is Some && rec_kind(
                scan(encode_records(rs) + t)[i]->Some_0,
            ) == rs[i].0 && rec_value(scan(encode_records(rs) + t)[i]->Some_0) == rs[i].1,
        scan(encode_records(rs) + t)[rs.len() as int] is None,
        decode_records(encode_records(rs) + t) is None,
    decreases rs.len(),
{
    let s = encode_records(rs) + t;
    if rs.len() == 0 {
        assert(s =~= t);
    } else {
        let tail = rs.skip(1);
        assert forall|i: int| 0 <= i < tail.len() implies nla_fits(
            #[trigger] tail[i].1.len() as int,
        ) by {
            assert(tail[i] == rs[i + 1]);
        }
        lemma_records_then_truncated(tail, t);
        let k = rs[0].0;
        let v = rs[0].1;
        assert(nla_fits(rs[0].1.len() as int));
        let rest = encode_records(tail) + t;
        assert(s =~= record_bytes(k, v) + rest);
        lemma_scan_front(k, v, rest);
        let first = s.subrange(0, 4 + v.len() as int);
        assert(scan(s) == seq![Some(first)] + scan(rest));
        assert forall|i: int| 0 <= i < rs.len() implies (#[trigger] scan(s)[i]) is Some && rec_kind(
            scan(s)[i]->Some_0,
        ) == rs[i].0 && rec_value(scan(s)[i]->Some_0) == rs[i].1 by {
            if i > 0 {
                assert(scan(s)[i] == scan(rest)[i - 1]);
                assert(tail[i - 1] == rs[i]);
            }
        }
        assert(scan(s)[rs.len() as int] == scan(rest)[tail.len() as int]);
    }
    assert(!all_some(scan(s)));
}

/// Well-formed attributes followed by a truncated record: every whole record
/// decodes and one is malformed, so `parse_nlas` fails with a truncation.
pub proof fn lemma_nlas_then_truncated<T: NlaParse>(xs: Seq<T>, t: Seq<u8>)
    requires
        nlas_wf(xs),
        nlas_fit(xs),
        t.len() > 0,
        !front_valid(t),
    ensures
        !all_some(scan(nlas_bytes(xs) + t)),
        nlas_formed_parse::<T>(nlas_bytes(xs) + t),
{
    let rs = nla_records(xs);
    lemma_records_then_truncated(rs, t);
    let s = nlas_bytes(xs) + t;
    assert forall|i: int|
        0 <= i < scan(s).len() && (#[trigger] scan(s)[i]) is Some implies T::spec_parses(
        rec_kind(scan(s)[i]->Some_0),
        rec_value(scan(s)[i]->Some_0),
    ) by {
        xs[i].lemma_round_trip();
        assert(rs[i] == nla_record(xs[i]));
    }
}

} // verus!
