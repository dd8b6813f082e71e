use netlink_packet::error::DecodeError;
use netlink_packet::neighbour::{emit_neighbour_nla, NeighbourCacheInfo, NeighbourNla, NDA_CACHEINFO, NDA_VLAN, NDA_VNI, NDA_IFINDEX, NDA_SRC_VNI};
use netlink_packet::nla::{DefaultNla, Nla};

fn round_trip(v: NeighbourNla) {
    let mut buf = Vec::new();
    emit_neighbour_nla(&v, &mut buf);
    assert_eq!(buf.len() % 4, 0);
    assert_eq!(buf.len(), (v.value_len() + 4 + 3) / 4 * 4);
    assert_eq!(NeighbourNla::parse(&buf), Ok(v));
}

#[test]
fn round_trip_raw_variants() {
    round_trip(NeighbourNla::Unspec(vec![]));
    round_trip(NeighbourNla::Destination(vec![192, 168, 1, 1]));
    round_trip(NeighbourNla::Destination(vec![]));
    round_trip(NeighbourNla::LinkLocalAddress(vec![0, 1, 2, 3, 4, 5]));
    round_trip(NeighbourNla::Probes(vec![7, 0, 0, 0]));
    round_trip(NeighbourNla::Port(vec![0x12]));
    round_trip(NeighbourNla::Master(vec![3, 0, 0, 0]));
    round_trip(NeighbourNla::LinkNetNsId(vec![1, 2, 3]));
}

#[test]
fn round_trip_integer_variants() {
    for x in [0u16, 1, u16::MAX] {
        round_trip(NeighbourNla::Vlan(x));
    }
    for x in [0u32, 1, u32::MAX] {
        round_trip(NeighbourNla::Vni(x));
        round_trip(NeighbourNla::IfIndex(x));
        round_trip(NeighbourNla::SourceVni(x));
    }
}

#[test]
fn round_trip_cache_info() {
    round_trip(NeighbourNla::CacheInfo(NeighbourCacheInfo { confirmed: 1, used: 2, updated: 0xdead_beef, refcnt: u32::MAX }));
}

#[test]
fn round_trip_other() {
    round_trip(NeighbourNla::Other(DefaultNla { kind: 200, value: vec![9, 8, 7] }));
}

#[test]
fn vlan_encoding_is_host_order_with_padding() {
    let mut buf = Vec::new();
    emit_neighbour_nla(&NeighbourNla::Vlan(0x0102), &mut buf);
    assert_eq!(buf, vec![6, 0, 5, 0, 0x02, 0x01, 0, 0]);
}

#[test]
fn kinds_match_wire_codes() {
    assert_eq!(NeighbourNla::Vlan(1).kind(), NDA_VLAN);
    assert_eq!(NeighbourNla::Vni(1).kind(), NDA_VNI);
    assert_eq!(NeighbourNla::IfIndex(1).kind(), NDA_IFINDEX);
    assert_eq!(NeighbourNla::SourceVni(1).kind(), NDA_SRC_VNI);
    assert_eq!(NeighbourNla::Other(DefaultNla { kind: 77, value: vec![] }).kind(), 77);
}

#[test]
fn unknown_kind_is_kept() {
    let bytes = vec![8u8, 0, 99, 0, 1, 2, 3, 4];
    let v = NeighbourNla::parse(&bytes).unwrap();
    assert_eq!(v, NeighbourNla::Other(DefaultNla { kind: 99, value: vec![1, 2, 3, 4] }));
    let mut out = Vec::new();
    emit_neighbour_nla(&v, &mut out);
    assert_eq!(out, bytes);
}

#[test]
fn short_integer_values_are_refused() {
    assert_eq!(NeighbourNla::parse(&[5, 0, 5, 0, 1, 0, 0, 0]), Err(DecodeError::InvalidValue(NDA_VLAN)));
    assert_eq!(NeighbourNla::parse(&[7, 0, 7, 0, 1, 2, 3, 0]), Err(DecodeError::InvalidValue(NDA_VNI)));
    assert_eq!(NeighbourNla::parse(&[7, 0, 8, 0, 1, 2, 3, 0]), Err(DecodeError::InvalidValue(NDA_IFINDEX)));
    assert_eq!(NeighbourNla::parse(&[7, 0, 11, 0, 1, 2, 3, 0]), Err(DecodeError::InvalidValue(NDA_SRC_VNI)));
    let mut short = vec![19u8, 0, 3, 0];
    short.extend_from_slice(&[0u8; 15]);
    assert_eq!(NeighbourNla::parse(&short), Err(DecodeError::InvalidValue(NDA_CACHEINFO)));
}

#[test]
fn truncated_records_are_refused() {
    assert_eq!(NeighbourNla::parse(&[]), Err(DecodeError::Truncated));
    assert_eq!(NeighbourNla::parse(&[4, 0]), Err(DecodeError::Truncated));
    assert_eq!(NeighbourNla::parse(&[9, 0, 1, 0, 1, 2, 3, 4]), Err(DecodeError::Truncated));
    assert_eq!(NeighbourNla::parse(&[3, 0, 1, 0]), Err(DecodeError::Truncated));
    assert_eq!(DefaultNla::parse(&[2, 0, 1, 0]), Err(DecodeError::Truncated));
}

#[test]
fn cache_info_end_to_end() {
    let mut bytes = vec![20u8, 0, 3, 0];
    for x in [10u32, 20, 30, 4] {
        bytes.extend_from_slice(&x.to_le_bytes());
    }
    let v = NeighbourNla::parse(&bytes).unwrap();
    assert_eq!(v, NeighbourNla::CacheInfo(NeighbourCacheInfo { confirmed: 10, used: 20, updated: 30, refcnt: 4 }));
    let mut out = Vec::new();
    emit_neighbour_nla(&v, &mut out);
    assert_eq!(out, bytes);
}
