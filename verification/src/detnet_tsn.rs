//! DetNet IP over a TSN sub-network: mapping DetNet IP flows onto IEEE 802.1 TSN
//! streams, with an 802.1Q tag and an 802.1CB redundancy tag (R-TAG) on each frame,
//! and elimination of repeated sequence numbers at the egress gateway.
use vstd::prelude::*;
use std::collections::HashMap;
use crate::net::{Ipv4Address, MacAddress};
use crate::wire::{u16_bytes, be16_at, be32_at, push_u16, push_all, read_u16, copy_range};
use crate::text::owned;
use crate::detnet_mpls_cw::next_seq;

verus! {

broadcast use vstd::std_specs::hash::group_hash_axioms;

/// EtherType of the 802.1CB redundancy tag.
pub const ETHERTYPE_DETNET_RTAG: u16 = 0xF1C1;

/// EtherType of the 802.1Q VLAN tag.
pub const ETHERTYPE_DETNET_8021Q: u16 = 0x8100;

/// EtherType of IPv4.
pub const ETHERTYPE_IPV4: u16 = 0x0800;

/// A 64-bit TSN stream identifier: a MAC address and a 16-bit unique id.
#[derive(Debug, Clone, Copy, PartialEq, Eq, Hash)]
pub struct TsnStreamId(pub [u8; 8]);

/// The identifier read as a big-endian 64-bit number, by which streams are keyed.
pub open spec fn stream_key(id: TsnStreamId) -> u64 {
    (id.0@[0] * 0x100_0000_0000_0000 + id.0@[1] * 0x1_0000_0000_0000 + id.0@[2] * 0x100_0000_0000
        + id.0@[3] * 0x1_0000_0000 + id.0@[4] * 0x100_0000 + id.0@[5] * 0x1_0000 + id.0@[6] * 0x100
        + id.0@[7]) as u64
}

impl TsnStreamId {
    pub fn new(mac: MacAddress, stream_unique_id: u16) -> (r: Self)
        ensures
            r.0@ == mac.0@ + u16_bytes(stream_unique_id),
    {
        let r = TsnStreamId(
            [
                mac.0[0],
                mac.0[1],
                mac.0[2],
                mac.0[3],
                mac.0[4],
                mac.0[5],
                (stream_unique_id / 256) as u8,
                (stream_unique_id % 256) as u8,
            ],
        );
        assert(r.0@ =~= mac.0@ + u16_bytes(stream_unique_id));
        r
    }

    /// The key of this stream in the gateway's tables.
    pub fn key(&self) -> (r: u64)
        ensures
            r == stream_key(*self),
    {
        let b = self.0;
        (b[0] as u64) * 0x100_0000_0000_0000 + (b[1] as u64) * 0x1_0000_0000_0000 + (b[2] as u64)
            * 0x100_0000_0000 + (b[3] as u64) * 0x1_0000_0000 + (b[4] as u64) * 0x100_0000 + (b[5]
            as u64) * 0x1_0000 + (b[6] as u64) * 0x100 + (b[7] as u64)
    }
}

/// A DetNet IP flow: addresses, ports, protocol and DSCP.
#[derive(Debug, Clone, Copy, PartialEq, Eq, Hash)]
pub struct DetNetIpFlowKey {
    pub src_ip: Ipv4Address,
    pub dst_ip: Ipv4Address,
    pub src_port: u16,
    pub dst_port: u16,
    pub protocol: u8,
    pub dscp: u8,
}

/// The flow's fields packed into one number (112 bits), by which flows are keyed.
pub open spec fn flow_code(k: DetNetIpFlowKey) -> u128 {
    (k.src_ip.value() * 0x1_0000_0000_0000_0000_0000 + k.dst_ip.value() * 0x1_0000_0000_0000
        + k.src_port * 0x1_0000_0000 + k.dst_port * 0x1_0000 + k.protocol * 0x100 + k.dscp) as u128
}

impl DetNetIpFlowKey {
    /// The key of this flow in the gateway's tables.
    pub fn code(&self) -> (r: u128)
        ensures
            r == flow_code(*self),
    {
        let s = self.src_ip.to_u32() as u128;
        let d = self.dst_ip.to_u32() as u128;
        s * 0x1_0000_0000_0000_0000_0000 + d * 0x1_0000_0000_0000 + (self.src_port as u128)
            * 0x1_0000_0000 + (self.dst_port as u128) * 0x1_0000 + (self.protocol as u128) * 0x100
            + (self.dscp as u128)
    }
}

/// How a flow is carried over the TSN sub-network.
#[derive(Debug, Clone, PartialEq, Eq)]
pub struct TsnStreamProfile {
    pub stream_id: TsnStreamId,
    pub src_mac: MacAddress,
    pub dst_mac: MacAddress,
    pub vlan_id: u16,
    pub pcp: u8,
    pub queue_id: u8,
}

/// The 802.1CB redundancy tag: EtherType, two reserved octets, sequence number.
#[derive(Debug, Clone, Copy, PartialEq, Eq, Structural)]
pub struct DetNetRTagHeader {
    pub sequence_number: u16,
}

/// The six octets of the redundancy tag carrying `seq`.
pub open spec fn rtag_bytes(seq: u16) -> Seq<u8> {
    u16_bytes(ETHERTYPE_DETNET_RTAG) + seq![0u8, 0u8] + u16_bytes(seq)
}

/// Whether `buf` starts with a redundancy tag.
pub open spec fn rtag_valid(buf: Seq<u8>) -> bool {
    buf.len() >= 6 && be16_at(buf, 0) == ETHERTYPE_DETNET_RTAG
}

impl DetNetRTagHeader {
    pub fn new(seq: u16) -> (r: Self)
        ensures
            r.sequence_number == seq,
    {
        DetNetRTagHeader { sequence_number: seq }
    }

    pub fn serialize(&self) -> (r: [u8; 6])
        ensures
            r@ == rtag_bytes(self.sequence_number),
    {
        let r = [
            0xF1u8,
            0xC1u8,
            0u8,
            0u8,
            (self.sequence_number / 256) as u8,
            (self.sequence_number % 256) as u8,
        ];
        assert(r@ =~= rtag_bytes(self.sequence_number));
        r
    }

    /// Reads a redundancy tag; `None` when `buf` is shorter than six octets or does not
    /// start with the R-TAG EtherType.
    pub fn parse(buf: &[u8]) -> (r: Option<Self>)
        ensures
            match r {
                Some(t) => rtag_valid(buf@) && t.sequence_number == be16_at(buf@, 4),
                None => !rtag_valid(buf@),
            },
    {
        if buf.len() < 6 {
            return None;
        }
        let ethertype = read_u16(buf, 0);
        if ethertype != ETHERTYPE_DETNET_RTAG {
            return None;
        }
        let seq = read_u16(buf, 4);
        Some(DetNetRTagHeader { sequence_number: seq })
    }
}

/// A redundancy tag read back from its own encoding carries the sequence number written.
pub proof fn lemma_rtag_roundtrip(seq: u16)
    ensures
        rtag_valid(rtag_bytes(seq)),
        be16_at(rtag_bytes(seq), 4) == seq,
{
}

#[derive(Debug, Clone, PartialEq, Eq)]
pub enum DetNetTsnForwardResult {
    EncapsulatedTsnFrame { stream_id: TsnStreamId, vlan_id: u16, pcp: u8, queue_id: u8, frame: Vec<u8> },
    DecapsulatedIpPacket { stream_id: TsnStreamId, packet: Vec<u8> },
    DuplicateDropped { stream_id: TsnStreamId, seq: u16 },
    NoStreamMatch,
    InvalidFrame(String),
}

/// The code of the flow an IPv4 packet belongs to (see `flow_code`): its addresses, the
/// ports where the packet is TCP or UDP and long enough to hold them (zero otherwise),
/// its protocol and its DSCP.
pub open spec fn packet_flow_code(p: Seq<u8>) -> u128 {
    let has_ports = (p[9] == 6 || p[9] == 17) && p.len() >= 24;
    let src_port = if has_ports { be16_at(p, 20) } else { 0 };
    let dst_port = if has_ports { be16_at(p, 22) } else { 0 };
    (be32_at(p, 12) * 0x1_0000_0000_0000_0000_0000 + be32_at(p, 16) * 0x1_0000_0000_0000
        + src_port * 0x1_0000_0000 + dst_port * 0x1_0000 + p[9] * 0x100 + p[1] / 4) as u128
}

/// The 802.1Q tag control information: priority in the top three bits, VLAN id below.
pub open spec fn tci(pcp: u8, vlan_id: u16) -> u16 {
    ((pcp % 8) * 8192 + vlan_id % 4096) as u16
}

/// The TSN frame that carries `packet` on the stream of `p` with R-TAG sequence `seq`.
pub open spec fn tsn_frame(p: TsnStreamProfile, seq: u16, packet: Seq<u8>) -> Seq<u8> {
    p.dst_mac.0@ + p.src_mac.0@ + u16_bytes(ETHERTYPE_DETNET_8021Q) + u16_bytes(tci(p.pcp, p.vlan_id))
        + rtag_bytes(seq) + u16_bytes(ETHERTYPE_IPV4) + packet
}

#[derive(Debug, Clone, Default)]
pub struct DetNetTsnGateway {
    /// Flow code -> TSN profile.
    pub flow_to_tsn: HashMap<u128, TsnStreamProfile>,
    /// Stream key -> last sequence number delivered.
    pub frer_history: HashMap<u64, u16>,
    /// Stream key -> next outgoing sequence number.
    pub next_tx_seq: HashMap<u64, u16>,
}

impl DetNetTsnGateway {
    pub fn new() -> (r: Self)
        ensures
            r.flow_to_tsn@ == Map::<u128, TsnStreamProfile>::empty(),
            r.frer_history@ == Map::<u64, u16>::empty(),
            r.next_tx_seq@ == Map::<u64, u16>::empty(),
    {
        DetNetTsnGateway {
            flow_to_tsn: HashMap::new(),
            frer_history: HashMap::new(),
            next_tx_seq: HashMap::new(),
        }
    }

    /// Maps (or remaps) `flow` onto `profile`.
    pub fn register_flow_mapping(&mut self, flow: DetNetIpFlowKey, profile: TsnStreamProfile)
        ensures
            final(self).flow_to_tsn@ == old(self).flow_to_tsn@.insert(flow_code(flow), profile),
            final(self).frer_history@ == old(self).frer_history@,
            final(self).next_tx_seq@ == old(self).next_tx_seq@,
    {
        let code = flow.code();
        self.flow_to_tsn.insert(code, profile);
    }

    /// Ingress: classifies an IPv4 packet by its flow and wraps it into a tagged TSN
    /// frame with the stream's next R-TAG sequence number.
    pub fn encapsulate_ip_to_tsn(&mut self, ip_packet: &[u8]) -> (r: DetNetTsnForwardResult)
        ensures
            final(self).flow_to_tsn@ == old(self).flow_to_tsn@,
            final(self).frer_history@ == old(self).frer_history@,
            ({
                let pkt = ip_packet@;
                let code = packet_flow_code(pkt);
                if pkt.len() < 20 {
                    &&& r matches DetNetTsnForwardResult::InvalidFrame(m) && m@ == "IP packet too short"@
                    &&& final(self).next_tx_seq@ == old(self).next_tx_seq@
                } else if !old(self).flow_to_tsn@.contains_key(code) {
                    &&& r == DetNetTsnForwardResult::NoStreamMatch
                    &&& final(self).next_tx_seq@ == old(self).next_tx_seq@
                } else {
                    let p = old(self).flow_to_tsn@[code];
                    let k = stream_key(p.stream_id);
                    let seq = if old(self).next_tx_seq@.contains_key(k) { old(self).next_tx_seq@[k] } else { 0u16 };
                    &&& r matches DetNetTsnForwardResult::EncapsulatedTsnFrame { stream_id, vlan_id, pcp, queue_id, frame }
                        && stream_id == p.stream_id && vlan_id == p.vlan_id && pcp == p.pcp
                        && queue_id == p.queue_id && frame@ == tsn_frame(p, seq, pkt)
                    &&& final(self).next_tx_seq@ == old(self).next_tx_seq@.insert(k, next_seq(seq))
                }
            }),
    {
        proof {
            reveal_strlit("IP packet too short");
        }
        if ip_packet.len() < 20 {
            return DetNetTsnForwardResult::InvalidFrame(owned("IP packet too short"));
        }
        let dscp = ip_packet[1] / 4;
        let protocol = ip_packet[9];
        let src_ip = Ipv4Address::new(ip_packet[12], ip_packet[13], ip_packet[14], ip_packet[15]);
        let dst_ip = Ipv4Address::new(ip_packet[16], ip_packet[17], ip_packet[18], ip_packet[19]);
        let (src_port, dst_port) = if (protocol == 6 || protocol == 17) && ip_packet.len() >= 24 {
            (read_u16(ip_packet, 20), read_u16(ip_packet, 22))
        } else {
            (0u16, 0u16)
        };
        let key = DetNetIpFlowKey { src_ip, dst_ip, src_port, dst_port, protocol, dscp };
        let code = key.code();
        assert(code == packet_flow_code(ip_packet@));
        let profile = match self.flow_to_tsn.get(&code) {
            Some(p) => p,
            None => return DetNetTsnForwardResult::NoStreamMatch,
        };
        let k = profile.stream_id.key();
        let seq: u16 = match self.next_tx_seq.get(&k) {
            Some(s) => *s,
            None => 0,
        };
        let next: u16 = if seq == u16::MAX { 0 } else { seq + 1 };
        self.next_tx_seq.insert(k, next);

        let rtag = DetNetRTagHeader::new(seq);
        let tag_ctl: u16 = ((profile.pcp % 8) as u16) * 8192 + profile.vlan_id % 4096;
        let mut frame: Vec<u8> = Vec::new();
        push_all(&mut frame, &profile.dst_mac.0);
        push_all(&mut frame, &profile.src_mac.0);
        push_u16(&mut frame, ETHERTYPE_DETNET_8021Q);
        push_u16(&mut frame, tag_ctl);
        let rt = rtag.serialize();
        push_all(&mut frame, &rt);
        push_u16(&mut frame, ETHERTYPE_IPV4);
        push_all(&mut frame, ip_packet);
        assert(frame@ =~= tsn_frame(*profile, seq, ip_packet@));
        DetNetTsnForwardResult::EncapsulatedTsnFrame {
            stream_id: profile.stream_id,
            vlan_id: profile.vlan_id,
            pcp: profile.pcp,
            queue_id: profile.queue_id,
            frame,
        }
    }

    /// Egress: checks the 802.1Q tag and the R-TAG of a frame of `stream_id`, drops it
    /// when its sequence number repeats the last one delivered on the stream, and
    /// otherwise delivers the IP packet and remembers the sequence number.
    pub fn decapsulate_tsn_to_ip(&mut self, stream_id: TsnStreamId, tsn_frame: &[u8]) -> (r:
        DetNetTsnForwardResult)
        ensures
            final(self).flow_to_tsn@ == old(self).flow_to_tsn@,
            final(self).next_tx_seq@ == old(self).next_tx_seq@,
            ({
                let f = tsn_frame@;
                let k = stream_key(stream_id);
                let seq = be16_at(f, 20) as u16;
                if f.len() < 24 {
                    &&& r matches DetNetTsnForwardResult::InvalidFrame(m) && m@ == "TSN Frame too short"@
                    &&& final(self).frer_history@ == old(self).frer_history@
                } else if be16_at(f, 12) != ETHERTYPE_DETNET_8021Q {
                    &&& r matches DetNetTsnForwardResult::InvalidFrame(m) && m@ == "Missing 802.1Q tag"@
                    &&& final(self).frer_history@ == old(self).frer_history@
                } else if be16_at(f, 16) != ETHERTYPE_DETNET_RTAG {
                    &&& r matches DetNetTsnForwardResult::InvalidFrame(m) && m@ == "Missing or invalid R-TAG"@
                    &&& final(self).frer_history@ == old(self).frer_history@
                } else if old(self).frer_history@.contains_key(k) && old(self).frer_history@[k] == seq {
                    &&& r == (DetNetTsnForwardResult::DuplicateDropped { stream_id, seq })
                    &&& final(self).frer_history@ == old(self).frer_history@
                } else {
                    &&& r matches DetNetTsnForwardResult::DecapsulatedIpPacket { stream_id: s, packet }
                        && s == stream_id && packet@ == f.subrange(24, f.len() as int)
                    &&& final(self).frer_history@ == old(self).frer_history@.insert(k, seq)
                }
            }),
    {
        proof {
            reveal_strlit("TSN Frame too short");
            reveal_strlit("Missing 802.1Q tag");
            reveal_strlit("Missing or invalid R-TAG");
        }
        if tsn_frame.len() < 24 {
            return DetNetTsnForwardResult::InvalidFrame(owned("TSN Frame too short"));
        }
        let ethertype_q = read_u16(tsn_frame, 12);
        if ethertype_q != ETHERTYPE_DETNET_8021Q {
            return DetNetTsnForwardResult::InvalidFrame(owned("Missing 802.1Q tag"));
        }
        let tag = copy_range(tsn_frame, 16, 22);
        let rtag = match DetNetRTagHeader::parse(tag.as_slice()) {
            Some(r) => r,
            None => {
                return DetNetTsnForwardResult::InvalidFrame(owned("Missing or invalid R-TAG"));
            },
        };
        let seq = rtag.sequence_number;
        let k = stream_id.key();
        match self.frer_history.get(&k) {
            Some(last) => {
                if *last == seq {
                    return DetNetTsnForwardResult::DuplicateDropped { stream_id, seq };
                }
            },
            None => {},
        }
        self.frer_history.insert(k, seq);
        let packet = copy_range(tsn_frame, 24, tsn_frame.len());
        DetNetTsnForwardResult::DecapsulatedIpPacket { stream_id, packet }
    }
}

/// A frame built at ingress passes every egress check and gives back, after the
/// 24 octets of headers, the IP packet it carries, with the R-TAG sequence it was sent with.
pub proof fn lemma_tsn_frame_readback(p: TsnStreamProfile, seq: u16, packet: Seq<u8>)
    ensures
        tsn_frame(p, seq, packet).len() == 24 + packet.len(),
        be16_at(tsn_frame(p, seq, packet), 12) == ETHERTYPE_DETNET_8021Q,
        be16_at(tsn_frame(p, seq, packet), 16) == ETHERTYPE_DETNET_RTAG,
        be16_at(tsn_frame(p, seq, packet), 20) == seq,
        tsn_frame(p, seq, packet).subrange(24, 24 + packet.len() as int) == packet,
{
    let f = tsn_frame(p, seq, packet);
    assert(f.subrange(24, 24 + packet.len() as int) =~= packet);
}

} // verus!
