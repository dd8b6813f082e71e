//! The generic Type-Length-Value attribute: its header, the view over one
//! record, the capability every attribute value offers, and the fallback
//! attribute that keeps an unknown kind as raw bytes.
use vstd::prelude::*;
use crate::bytes::{
    copy_range, le16, le16_bytes, lemma_le16_round_trip, push_le16, push_zeros, read_le16, zeros,
};
use crate::error::DecodeError;

verus! {

/// Size of the length and kind fields that open every record.
pub const NLA_HEADER_LEN: usize = 4;

/// The declared length of the record at the start of `b`, header included.
pub open spec fn nla_len(b: Seq<u8>) -> u16 {
    le16(b, 0)
}

/// The kind code of the record at the start of `b`.
pub open spec fn nla_kind(b: Seq<u8>) -> u16 {
    le16(b, 2)
}

/// `b` starts with a whole record: a header, and a declared length that covers
/// the header and does not run past `b`.
pub open spec fn nla_valid(b: Seq<u8>) -> bool {
    b.len() >= 4 && 4 <= nla_len(b) && nla_len(b) <= b.len()
}

/// The value bytes of the record at the start of `b`, padding excluded.
pub open spec fn nla_payload(b: Seq<u8>) -> Seq<u8> {
    b.subrange(4, nla_len(b) as int)
}

/// Bytes of padding after a record of `n` bytes, up to the next multiple of four.
pub open spec fn pad_len(n: nat) -> nat {
    ((4 - (n % 4) as int) % 4) as nat
}

/// The wire form of a record: length, kind, value, zero padding.
pub open spec fn nla_bytes(kind: u16, value: Seq<u8>) -> Seq<u8> {
    le16_bytes((value.len() + 4) as u16) + le16_bytes(kind) + value + zeros(pad_len(value.len() + 4))
}

/// What one record of an attribute sequence holds: its kind and its value.
pub type NlaModel = (u16, Seq<u8>);

/// The records of an attribute sequence, in order, or `None` where one of them
/// is cut short. A record whose padding runs past the end closes the sequence.
pub open spec fn parse_nlas_spec(b: Seq<u8>) -> Option<Seq<NlaModel>>
    decreases b.len(),
{
    if b.len() == 0 {
        Some(Seq::empty())
    } else if !nla_valid(b) {
        None
    } else {
        let step = nla_len(b) + pad_len(nla_len(b) as nat);
        let head = (nla_kind(b), nla_payload(b));
        if step >= b.len() {
            Some(seq![head])
        } else {
            match parse_nlas_spec(b.subrange(step, b.len() as int)) {
                Some(t) => Some(seq![head] + t),
                None => None,
            }
        }
    }
}

/// What every attribute value offers: its kind code and the bytes of its value.
pub trait Nla {
    spec fn spec_kind(&self) -> u16;

    spec fn spec_value(&self) -> Seq<u8>;

    /// Length of the value, padding excluded.
    fn value_len(&self) -> (r: usize)
        ensures
            r == self.spec_value().len(),
    ;

    fn kind(&self) -> (r: u16)
        ensures
            r == self.spec_kind(),
    ;

    /// Appends exactly the value bytes.
    fn emit_value(&self, buf: &mut Vec<u8>)
        ensures
            final(buf)@ == old(buf)@ + self.spec_value(),
    ;
}

/// Appends the whole record of `nla`: header, value and padding.
pub fn emit_nla<T: Nla>(nla: &T, buf: &mut Vec<u8>)
    requires
        nla.spec_value().len() + 4 <= u16::MAX,
    ensures
        final(buf)@ == old(buf)@ + nla_bytes(nla.spec_kind(), nla.spec_value()),
{
    let len = nla.value_len() + NLA_HEADER_LEN;
    push_le16(buf, len as u16);
    push_le16(buf, nla.kind());
    nla.emit_value(buf);
    let pad = (4 - len % 4) % 4;
    push_zeros(buf, pad);
    assert(final(buf)@ =~= old(buf)@ + nla_bytes(nla.spec_kind(), nla.spec_value()));
}

/// A record read back from its wire form, followed by anything, has the kind
/// and value it was written with.
pub proof fn lemma_nla_bytes_parse(kind: u16, value: Seq<u8>, rest: Seq<u8>)
    requires
        value.len() + 4 <= u16::MAX,
    ensures
        nla_valid(nla_bytes(kind, value) + rest),
        nla_kind(nla_bytes(kind, value) + rest) == kind,
        nla_payload(nla_bytes(kind, value) + rest) == value,
        nla_len(nla_bytes(kind, value) + rest) == value.len() + 4,
{
    let l = (value.len() + 4) as u16;
    let tail = value + zeros(pad_len(value.len() + 4)) + rest;
    let b = nla_bytes(kind, value) + rest;
    assert(b =~= Seq::<u8>::empty() + le16_bytes(l) + (le16_bytes(kind) + tail));
    lemma_le16_round_trip(Seq::empty(), l, le16_bytes(kind) + tail);
    assert(b =~= le16_bytes(l) + le16_bytes(kind) + tail);
    lemma_le16_round_trip(le16_bytes(l), kind, tail);
    assert(nla_payload(b) =~= value);
}

/// Reads the header of the record that starts at `pos`: its length and kind.
pub fn nla_header(buf: &[u8], pos: usize) -> (r: Result<(u16, u16), DecodeError>)
    requires
        pos <= buf@.len(),
    ensures
        ({
            let b = buf@.subrange(pos as int, buf@.len() as int);
            match r {
                Ok((len, kind)) => nla_valid(b) && len == nla_len(b) && kind == nla_kind(b),
                Err(e) => !nla_valid(b) && e == DecodeError::Truncated,
            }
        }),
{
    let ghost b = buf@.subrange(pos as int, buf@.len() as int);
    if buf.len() - pos < NLA_HEADER_LEN {
        return Err(DecodeError::Truncated);
    }
    let len = read_le16(buf, pos);
    let kind = read_le16(buf, pos + 2);
    assert(len == nla_len(b));
    assert(kind == nla_kind(b));
    if len < 4 || len as usize > buf.len() - pos {
        return Err(DecodeError::Truncated);
    }
    Ok((len, kind))
}

/// An attribute of a kind that its family does not know: the kind and the raw
/// value, kept as they came.
#[derive(Debug, Clone, PartialEq, Eq)]
pub struct DefaultNla {
    pub kind: u16,
    pub value: Vec<u8>,
}

pub open spec fn nla_model(a: DefaultNla) -> NlaModel {
    (a.kind, a.value@)
}

pub open spec fn nla_models(v: Seq<DefaultNla>) -> Seq<NlaModel> {
    v.map_values(|a: DefaultNla| nla_model(a))
}

impl Nla for DefaultNla {
    open spec fn spec_kind(&self) -> u16 {
        self.kind
    }

    open spec fn spec_value(&self) -> Seq<u8> {
        self.value@
    }

    fn value_len(&self) -> (r: usize) {
        self.value.len()
    }

    fn kind(&self) -> (r: u16) {
        self.kind
    }

    fn emit_value(&self, buf: &mut Vec<u8>) {
        crate::bytes::push_slice(buf, self.value.as_slice());
    }
}

impl DefaultNla {
    /// Decodes the record at the start of `buf`, whatever its kind.
    pub fn parse(buf: &[u8]) -> (r: Result<DefaultNla, DecodeError>)
        ensures
            r is Ok <==> nla_valid(buf@),
            r matches Ok(a) ==> a.kind == nla_kind(buf@) && a.value@ == nla_payload(buf@),
            r matches Err(e) ==> e == DecodeError::Truncated,
    {
        assert(buf@.subrange(0, buf@.len() as int) =~= buf@);
        parse_nla_at(buf, 0)
    }
}

/// Decodes the record that starts at `pos`, whatever its kind.
pub fn parse_nla_at(buf: &[u8], pos: usize) -> (r: Result<DefaultNla, DecodeError>)
    requires
        pos <= buf@.len(),
    ensures
        ({
            let b = buf@.subrange(pos as int, buf@.len() as int);
            &&& r is Ok <==> nla_valid(b)
            &&& r matches Ok(a) ==> a.kind == nla_kind(b) && a.value@ == nla_payload(b)
            &&& r matches Err(e) ==> e == DecodeError::Truncated
        }),
{
    let ghost b = buf@.subrange(pos as int, buf@.len() as int);
    let _n = buf.len();
    match nla_header(buf, pos) {
        Ok((len, kind)) => {
            let value = copy_range(buf, pos + 4, pos + len as usize);
            assert(value@ =~= nla_payload(b));
            Ok(DefaultNla { kind, value })
        },
        Err(e) => Err(e),
    }
}

/// Decodes every record from `pos` to the end of `buf`, in order. Any record
/// that is cut short fails the whole sequence.
pub fn parse_nlas(buf: &[u8], pos: usize) -> (r: Result<Vec<DefaultNla>, DecodeError>)
    requires
        pos <= buf@.len(),
    ensures
        ({
            let s = parse_nlas_spec(buf@.subrange(pos as int, buf@.len() as int));
            &&& r is Ok <==> s is Some
            &&& r matches Ok(v) ==> s == Some(nla_models(v@))
            &&& r matches Err(e) ==> e == DecodeError::Truncated
        }),
{
    let ghost whole = parse_nlas_spec(buf@.subrange(pos as int, buf@.len() as int));
    let mut out: Vec<DefaultNla> = Vec::new();
    let mut p: usize = pos;
    while p < buf.len()
        invariant
            pos <= p <= buf@.len(),
            whole == parse_nlas_spec(buf@.subrange(pos as int, buf@.len() as int)),
            whole == (match parse_nlas_spec(buf@.subrange(p as int, buf@.len() as int)) {
                Some(t) => Some(nla_models(out@) + t),
                None => None::<Seq<NlaModel>>,
            }),
        decreases buf@.len() - p,
    {
        let ghost b = buf@.subrange(p as int, buf@.len() as int);
        let ghost m0 = nla_models(out@);
        let a = parse_nla_at(buf, p);
        assert(b.len() > 0);
        match a {
            Err(e) => {
                assert(parse_nlas_spec(b) is None);
                return Err(e);
            },
            Ok(a) => {
                let len = a.value.len() + 4;
                let step = len + (4 - len % 4) % 4;
                assert(len == nla_len(b));
                assert(step == nla_len(b) + pad_len(nla_len(b) as nat));
                let ghost head = (a.kind, a.value@);
                out.push(a);
                assert(nla_models(out@) =~= m0 + seq![head]);
                if step >= buf.len() - p {
                    assert(parse_nlas_spec(b) == Some(seq![head]));
                    assert(whole == Some(nla_models(out@)));
                    
                    return Ok(out);
                }
                let ghost rest = b.subrange(step as int, b.len() as int);
                assert(rest =~= buf@.subrange((p + step) as int, buf@.len() as int));
                assert(forall|t: Seq<NlaModel>| m0 + (seq![head] + t) =~= nla_models(out@) + t);
                p = p + step;
            },
        }
    }
    assert(buf@.subrange(p as int, buf@.len() as int).len() == 0);
    assert(nla_models(out@) + Seq::<NlaModel>::empty() =~= nla_models(out@));
    Ok(out)
}

} // verus!
