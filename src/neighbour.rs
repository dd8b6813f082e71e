//! The attributes of neighbour (ARP / NDP table) messages.
use vstd::prelude::*;
use crate::bytes::{
    le16_bytes, le32_bytes, lemma_le16_bytes_of, lemma_le16_round_trip, lemma_le32_bytes_of,
    lemma_le32_round_trip, push_le16, push_le32, push_slice, read_le16, read_le32,
};
use crate::error::DecodeError;
use crate::nla::{
    lemma_nla_bytes_parse, nla_bytes, nla_header, nla_kind, nla_payload, nla_valid, parse_nla_at,
    DefaultNla, Nla,
};

verus! {

pub const NDA_UNSPEC: u16 = 0;
pub const NDA_DST: u16 = 1;
pub const NDA_LLADDR: u16 = 2;
pub const NDA_CACHEINFO: u16 = 3;
pub const NDA_PROBES: u16 = 4;
pub const NDA_VLAN: u16 = 5;
pub const NDA_PORT: u16 = 6;
pub const NDA_VNI: u16 = 7;
pub const NDA_IFINDEX: u16 = 8;
pub const NDA_MASTER: u16 = 9;
pub const NDA_LINK_NETNSID: u16 = 10;
pub const NDA_SRC_VNI: u16 = 11;

/// Size of the cache-info record on the wire.
pub const NEIGHBOUR_CACHE_INFO_LEN: usize = 16;

/// The kernel's `nda_cacheinfo`: ages in clock ticks and a reference count.
#[derive(Debug, Clone, Copy, PartialEq, Eq, Structural)]
pub struct NeighbourCacheInfo {
    pub confirmed: u32,
    pub used: u32,
    pub updated: u32,
    pub refcnt: u32,
}

impl NeighbourCacheInfo {
    pub open spec fn spec_bytes(&self) -> Seq<u8> {
        le32_bytes(self.confirmed) + le32_bytes(self.used) + le32_bytes(self.updated) + le32_bytes(
            self.refcnt,
        )
    }

    /// Appends the sixteen bytes of the record.
    pub fn emit(&self, buf: &mut Vec<u8>)
        ensures
            final(buf)@ == old(buf)@ + self.spec_bytes(),
    {
        push_le32(buf, self.confirmed);
        push_le32(buf, self.used);
        push_le32(buf, self.updated);
        push_le32(buf, self.refcnt);
        assert(final(buf)@ =~= old(buf)@ + self.spec_bytes());
    }
}

/// The kinds this family knows.
pub open spec fn is_known_kind(kind: u16) -> bool {
    kind <= NDA_SRC_VNI
}

/// The value length a known kind demands, where it demands one.
pub open spec fn required_len(kind: u16) -> Option<nat> {
    if kind == NDA_CACHEINFO {
        Some(NEIGHBOUR_CACHE_INFO_LEN as nat)
    } else if kind == NDA_VLAN {
        Some(2)
    } else if kind == NDA_VNI || kind == NDA_IFINDEX || kind == NDA_SRC_VNI {
        Some(4)
    } else {
        None
    }
}

/// `value` can stand as the value of an attribute of `kind`.
pub open spec fn value_fits(kind: u16, value: Seq<u8>) -> bool {
    match required_len(kind) {
        Some(n) => value.len() == n,
        None => true,
    }
}

/// `b` starts with a record that decodes as a neighbour attribute.
pub open spec fn parses_ok(b: Seq<u8>) -> bool {
    nla_valid(b) && value_fits(nla_kind(b), nla_payload(b))
}

/// The error that decoding `b` gives where it fails.
pub open spec fn parse_error(b: Seq<u8>) -> DecodeError {
    if !nla_valid(b) {
        DecodeError::Truncated
    } else {
        DecodeError::InvalidValue(nla_kind(b))
    }
}

/// One neighbour attribute. Raw variants keep their bytes; integers are in
/// the host's byte order; kinds this family does not know are kept as
/// [`DefaultNla`].
#[derive(Debug, PartialEq, Eq, Clone)]
pub enum NeighbourNla {
    Unspec(Vec<u8>),
    Destination(Vec<u8>),
    LinkLocalAddress(Vec<u8>),
    CacheInfo(NeighbourCacheInfo),
    Probes(Vec<u8>),
    Vlan(u16),
    Port(Vec<u8>),
    Vni(u32),
    IfIndex(u32),
    Master(Vec<u8>),
    LinkNetNsId(Vec<u8>),
    SourceVni(u32),
    Other(DefaultNla),
}

impl NeighbourNla {
    /// A value that decoding could give: the fallback holds only unknown kinds.
    pub open spec fn wf(&self) -> bool {
        match self {
            NeighbourNla::Other(a) => !is_known_kind(a.kind),
            _ => true,
        }
    }
}

impl Nla for NeighbourNla {
    open spec fn spec_kind(&self) -> u16 {
        match self {
            NeighbourNla::Unspec(_) => NDA_UNSPEC,
            NeighbourNla::Destination(_) => NDA_DST,
            NeighbourNla::LinkLocalAddress(_) => NDA_LLADDR,
            NeighbourNla::CacheInfo(_) => NDA_CACHEINFO,
            NeighbourNla::Probes(_) => NDA_PROBES,
            NeighbourNla::Vlan(_) => NDA_VLAN,
            NeighbourNla::Port(_) => NDA_PORT,
            NeighbourNla::Vni(_) => NDA_VNI,
            NeighbourNla::IfIndex(_) => NDA_IFINDEX,
            NeighbourNla::Master(_) => NDA_MASTER,
            NeighbourNla::LinkNetNsId(_) => NDA_LINK_NETNSID,
            NeighbourNla::SourceVni(_) => NDA_SRC_VNI,
            NeighbourNla::Other(a) => a.kind,
        }
    }

    open spec fn spec_value(&self) -> Seq<u8> {
        match self {
            NeighbourNla::Unspec(v) => v@,
            NeighbourNla::Destination(v) => v@,
            NeighbourNla::LinkLocalAddress(v) => v@,
            NeighbourNla::CacheInfo(c) => c.spec_bytes(),
            NeighbourNla::Probes(v) => v@,
            NeighbourNla::Vlan(x) => le16_bytes(*x),
            NeighbourNla::Port(v) => v@,
            NeighbourNla::Vni(x) => le32_bytes(*x),
            NeighbourNla::IfIndex(x) => le32_bytes(*x),
            NeighbourNla::Master(v) => v@,
            NeighbourNla::LinkNetNsId(v) => v@,
            NeighbourNla::SourceVni(x) => le32_bytes(*x),
            NeighbourNla::Other(a) => a.value@,
        }
    }

    fn value_len(&self) -> (r: usize) {
        match self {
            NeighbourNla::Unspec(v) | NeighbourNla::Destination(v) | NeighbourNla::LinkLocalAddress(v)
            | NeighbourNla::Probes(v) | NeighbourNla::Port(v) | NeighbourNla::Master(v)
            | NeighbourNla::LinkNetNsId(v) => v.len(),
            NeighbourNla::CacheInfo(_) => NEIGHBOUR_CACHE_INFO_LEN,
            NeighbourNla::Vlan(_) => 2,
            NeighbourNla::Vni(_) | NeighbourNla::IfIndex(_) | NeighbourNla::SourceVni(_) => 4,
            NeighbourNla::Other(a) => a.value_len(),
        }
    }

    fn kind(&self) -> (r: u16) {
        match self {
            NeighbourNla::Unspec(_) => NDA_UNSPEC,
            NeighbourNla::Destination(_) => NDA_DST,
            NeighbourNla::LinkLocalAddress(_) => NDA_LLADDR,
            NeighbourNla::CacheInfo(_) => NDA_CACHEINFO,
            NeighbourNla::Probes(_) => NDA_PROBES,
            NeighbourNla::Vlan(_) => NDA_VLAN,
            NeighbourNla::Port(_) => NDA_PORT,
            NeighbourNla::Vni(_) => NDA_VNI,
            NeighbourNla::IfIndex(_) => NDA_IFINDEX,
            NeighbourNla::Master(_) => NDA_MASTER,
            NeighbourNla::LinkNetNsId(_) => NDA_LINK_NETNSID,
            NeighbourNla::SourceVni(_) => NDA_SRC_VNI,
            NeighbourNla::Other(a) => a.kind(),
        }
    }

    fn emit_value(&self, buf: &mut Vec<u8>) {
        match self {
            NeighbourNla::Unspec(v) | NeighbourNla::Destination(v) | NeighbourNla::LinkLocalAddress(v)
            | NeighbourNla::Probes(v) | NeighbourNla::Port(v) | NeighbourNla::Master(v)
            | NeighbourNla::LinkNetNsId(v) => push_slice(buf, v.as_slice()),
            NeighbourNla::CacheInfo(c) => c.emit(buf),
            NeighbourNla::Vlan(x) => push_le16(buf, *x),
            NeighbourNla::Vni(x) | NeighbourNla::IfIndex(x) | NeighbourNla::SourceVni(x) => push_le32(
                buf,
                *x,
            ),
            NeighbourNla::Other(a) => a.emit_value(buf),
        }
    }
}

impl NeighbourNla {
    /// Decodes the record at the start of `buf`, choosing the variant by its
    /// kind code alone.
    pub fn parse(buf: &[u8]) -> (r: Result<NeighbourNla, DecodeError>)
        ensures
            r is Ok <==> parses_ok(buf@),
            r matches Ok(v) ==> v.wf() && v.spec_kind() == nla_kind(buf@) && v.spec_value()
                == nla_payload(buf@),
            r matches Err(e) ==> e == parse_error(buf@),
    {
        let ghost b = buf@;
        assert(buf@.subrange(0, buf@.len() as int) =~= buf@);
        let (len, kind) = match nla_header(buf, 0) {
            Ok(h) => h,
            Err(e) => {
                return Err(e);
            },
        };
        let ghost p = nla_payload(b);
        let n = len as usize - 4;
        if kind == NDA_CACHEINFO {
            if n != NEIGHBOUR_CACHE_INFO_LEN {
                return Err(DecodeError::InvalidValue(kind));
            }
            let c = NeighbourCacheInfo {
                confirmed: read_le32(buf, 4),
                used: read_le32(buf, 8),
                updated: read_le32(buf, 12),
                refcnt: read_le32(buf, 16),
            };
            proof {
                lemma_le32_bytes_of(b[4], b[5], b[6], b[7]);
                lemma_le32_bytes_of(b[8], b[9], b[10], b[11]);
                lemma_le32_bytes_of(b[12], b[13], b[14], b[15]);
                lemma_le32_bytes_of(b[16], b[17], b[18], b[19]);
                assert(c.spec_bytes() =~= p);
            }
            Ok(NeighbourNla::CacheInfo(c))
        } else if kind == NDA_VLAN {
            if n != 2 {
                return Err(DecodeError::InvalidValue(kind));
            }
            let x = read_le16(buf, 4);
            proof {
                lemma_le16_bytes_of(b[4], b[5]);
                assert(le16_bytes(x) =~= p);
            }
            Ok(NeighbourNla::Vlan(x))
        } else if kind == NDA_VNI || kind == NDA_IFINDEX || kind == NDA_SRC_VNI {
            if n != 4 {
                return Err(DecodeError::InvalidValue(kind));
            }
            let x = read_le32(buf, 4);
            proof {
                lemma_le32_bytes_of(b[4], b[5], b[6], b[7]);
                assert(le32_bytes(x) =~= p);
            }
            if kind == NDA_VNI {
                Ok(NeighbourNla::Vni(x))
            } else if kind == NDA_IFINDEX {
                Ok(NeighbourNla::IfIndex(x))
            } else {
                Ok(NeighbourNla::SourceVni(x))
            }
        } else {
            let a = match parse_nla_at(buf, 0) {
                Ok(a) => a,
                Err(e) => {
                    return Err(e);
                },
            };
            let v = a.value;
            if kind == NDA_UNSPEC {
                Ok(NeighbourNla::Unspec(v))
            } else if kind == NDA_DST {
                Ok(NeighbourNla::Destination(v))
            } else if kind == NDA_LLADDR {
                Ok(NeighbourNla::LinkLocalAddress(v))
            } else if kind == NDA_PROBES {
                Ok(NeighbourNla::Probes(v))
            } else if kind == NDA_PORT {
                Ok(NeighbourNla::Port(v))
            } else if kind == NDA_MASTER {
                Ok(NeighbourNla::Master(v))
            } else if kind == NDA_LINK_NETNSID {
                Ok(NeighbourNla::LinkNetNsId(v))
            } else {
                Ok(NeighbourNla::Other(DefaultNla { kind, value: v }))
            }
        }
    }
}

/// Agreement of two attributes: the same variant, with equal integers and
/// records and equal byte contents.
pub open spec fn same_attr(v: NeighbourNla, w: NeighbourNla) -> bool {
    match (v, w) {
        (NeighbourNla::Unspec(a), NeighbourNla::Unspec(b)) => a@ == b@,
        (NeighbourNla::Destination(a), NeighbourNla::Destination(b)) => a@ == b@,
        (NeighbourNla::LinkLocalAddress(a), NeighbourNla::LinkLocalAddress(b)) => a@ == b@,
        (NeighbourNla::CacheInfo(a), NeighbourNla::CacheInfo(b)) => a == b,
        (NeighbourNla::Probes(a), NeighbourNla::Probes(b)) => a@ == b@,
        (NeighbourNla::Vlan(a), NeighbourNla::Vlan(b)) => a == b,
        (NeighbourNla::Port(a), NeighbourNla::Port(b)) => a@ == b@,
        (NeighbourNla::Vni(a), NeighbourNla::Vni(b)) => a == b,
        (NeighbourNla::IfIndex(a), NeighbourNla::IfIndex(b)) => a == b,
        (NeighbourNla::Master(a), NeighbourNla::Master(b)) => a@ == b@,
        (NeighbourNla::LinkNetNsId(a), NeighbourNla::LinkNetNsId(b)) => a@ == b@,
        (NeighbourNla::SourceVni(a), NeighbourNla::SourceVni(b)) => a == b,
        (NeighbourNla::Other(a), NeighbourNla::Other(b)) => a.kind == b.kind && a.value@ == b.value@,
        _ => false,
    }
}

/// A well-formed attribute is fixed by its kind and value bytes: two that agree
/// on both agree as attributes.
pub proof fn lemma_kind_and_value_determine(v: NeighbourNla, w: NeighbourNla)
    requires
        v.wf(),
        w.wf(),
        v.spec_kind() == w.spec_kind(),
        v.spec_value() == w.spec_value(),
    ensures
        same_attr(v, w),
{
    let e = Seq::<u8>::empty();
    match (v, w) {
        (NeighbourNla::Vlan(a), NeighbourNla::Vlan(b)) => {
            lemma_le16_round_trip(e, a, e);
            lemma_le16_round_trip(e, b, e);
            assert(le16_bytes(a) + e =~= le16_bytes(a));
            assert(e + le16_bytes(a) =~= le16_bytes(a));
            assert(e + le16_bytes(b) + e =~= le16_bytes(b));
            assert(e + le16_bytes(a) + e =~= le16_bytes(a));
        },
        (NeighbourNla::Vni(a), NeighbourNla::Vni(b)) | (NeighbourNla::IfIndex(a), NeighbourNla::IfIndex(b))
        | (NeighbourNla::SourceVni(a), NeighbourNla::SourceVni(b)) => {
            lemma_le32_round_trip(e, a, e);
            lemma_le32_round_trip(e, b, e);
            assert(e + le32_bytes(b) + e =~= le32_bytes(b));
            assert(e + le32_bytes(a) + e =~= le32_bytes(a));
        },
        (NeighbourNla::CacheInfo(a), NeighbourNla::CacheInfo(b)) => {
            let s = a.spec_bytes();
            lemma_le32_round_trip(e, a.confirmed, s.subrange(4, 16));
            lemma_le32_round_trip(e, b.confirmed, s.subrange(4, 16));
            assert(e + le32_bytes(a.confirmed) + s.subrange(4, 16) =~= s);
            assert(e + le32_bytes(b.confirmed) + s.subrange(4, 16) =~= b.spec_bytes());
            lemma_le32_round_trip(s.subrange(0, 4), a.used, s.subrange(8, 16));
            lemma_le32_round_trip(s.subrange(0, 4), b.used, s.subrange(8, 16));
            assert(s.subrange(0, 4) + le32_bytes(a.used) + s.subrange(8, 16) =~= s);
            assert(s.subrange(0, 4) + le32_bytes(b.used) + s.subrange(8, 16) =~= b.spec_bytes());
            lemma_le32_round_trip(s.subrange(0, 8), a.updated, s.subrange(12, 16));
            lemma_le32_round_trip(s.subrange(0, 8), b.updated, s.subrange(12, 16));
            assert(s.subrange(0, 8) + le32_bytes(a.updated) + s.subrange(12, 16) =~= s);
            assert(s.subrange(0, 8) + le32_bytes(b.updated) + s.subrange(12, 16) =~= b.spec_bytes());
            lemma_le32_round_trip(s.subrange(0, 12), a.refcnt, e);
            lemma_le32_round_trip(s.subrange(0, 12), b.refcnt, e);
            assert(s.subrange(0, 12) + le32_bytes(a.refcnt) + e =~= s);
            assert(s.subrange(0, 12) + le32_bytes(b.refcnt) + e =~= b.spec_bytes());
        },
        _ => {},
    }
}

/// The value of any attribute has the length its kind demands.
proof fn lemma_value_fits(v: NeighbourNla)
    requires
        v.wf(),
    ensures
        value_fits(v.spec_kind(), v.spec_value()),
{
}

/// Round trip: the wire form of a well-formed attribute, followed by anything,
/// decodes, and with the attribute's own kind and value bytes.
pub proof fn lemma_round_trip(v: NeighbourNla, rest: Seq<u8>)
    requires
        v.wf(),
        v.spec_value().len() + 4 <= u16::MAX,
    ensures
        parses_ok(nla_bytes(v.spec_kind(), v.spec_value()) + rest),
        nla_kind(nla_bytes(v.spec_kind(), v.spec_value()) + rest) == v.spec_kind(),
        nla_payload(nla_bytes(v.spec_kind(), v.spec_value()) + rest) == v.spec_value(),
        forall|w: NeighbourNla|
            w.wf() && w.spec_kind() == v.spec_kind() && w.spec_value() == v.spec_value()
                ==> #[trigger] same_attr(w, v),
{
    lemma_value_fits(v);
    lemma_nla_bytes_parse(v.spec_kind(), v.spec_value(), rest);
    assert forall|w: NeighbourNla|
        w.wf() && w.spec_kind() == v.spec_kind() && w.spec_value() == v.spec_value() implies #[trigger] same_attr(w, v) by {
        lemma_kind_and_value_determine(w, v);
    }
}

/// A record of a kind this family does not know decodes to the fallback with
/// its kind and bytes, and the fallback writes those very bytes again.
pub proof fn lemma_unknown_kind_kept(kind: u16, value: Seq<u8>)
    requires
        !is_known_kind(kind),
        value.len() + 4 <= u16::MAX,
    ensures
        parses_ok(nla_bytes(kind, value)),
        nla_kind(nla_bytes(kind, value)) == kind,
        nla_payload(nla_bytes(kind, value)) == value,
        forall|w: NeighbourNla|
            w.wf() && #[trigger] w.spec_kind() == kind ==> w is Other,
{
    lemma_nla_bytes_parse(kind, value, Seq::empty());
    assert(nla_bytes(kind, value) + Seq::<u8>::empty() =~= nla_bytes(kind, value));
}

/// A fixed-width value one byte short of its width is refused, naming the kind.
pub proof fn lemma_short_value_rejected(kind: u16, value: Seq<u8>)
    requires
        required_len(kind) matches Some(n) && value.len() + 1 == n,
    ensures
        !parses_ok(nla_bytes(kind, value)),
        parse_error(nla_bytes(kind, value)) == DecodeError::InvalidValue(kind),
{
    lemma_nla_bytes_parse(kind, value, Seq::empty());
    assert(nla_bytes(kind, value) + Seq::<u8>::empty() =~= nla_bytes(kind, value));
}

/// Appends the whole record of one attribute: header, value and padding.
pub fn emit_neighbour_nla(nla: &NeighbourNla, buf: &mut Vec<u8>)
    requires
        nla.spec_value().len() + 4 <= u16::MAX,
    ensures
        final(buf)@ == old(buf)@ + nla_bytes(nla.spec_kind(), nla.spec_value()),
{
    crate::nla::emit_nla(nla, buf);
}

} // verus!
