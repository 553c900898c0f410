//! DetNet IP flows carried over MPLS: five-tuple classification of IPv4 packets,
//! DSCP to MPLS traffic-class marking, a forwarding label over a service label and the
//! DetNet control word on each replica, and label-stack parsing with duplicate
//! elimination at the egress.
use vstd::prelude::*;
use std::collections::{HashMap, HashSet};
use crate::net::Ipv4Address;
use crate::wire::{be16_at, be32_at, u32_bytes, push_u32, push_all, read_u16, read_u32, copy_range};
use crate::text::owned;
use crate::detnet_mpls_cw::{
    DetNetMplsControlWord, cw_bytes, cw_valid, cw_seq, history_of, history_after, next_seq, pef_admit,
};

verus! {

broadcast use vstd::std_specs::hash::group_hash_axioms;

/// An IPv4 five-tuple.
#[derive(Debug, Clone, Copy, PartialEq, Eq, Hash)]
pub struct DetNetIpFlowKey {
    pub src_ip: Ipv4Address,
    pub dst_ip: Ipv4Address,
    pub protocol: u8,
    pub src_port: u16,
    pub dst_port: u16,
}

/// The five-tuple packed into one number (104 bits), by which flows are keyed.
pub open spec fn five_tuple_code(src: int, dst: int, protocol: int, src_port: int, dst_port: int) -> u128 {
    (src * 0x100_0000_0000_0000_0000 + dst * 0x100_0000_0000 + protocol * 0x1_0000_0000
        + src_port * 0x1_0000 + dst_port) as u128
}

/// The key of a flow.
pub open spec fn flow_key_code(k: DetNetIpFlowKey) -> u128 {
    five_tuple_code(k.src_ip.value(), k.dst_ip.value(), k.protocol as int, k.src_port as int, k.dst_port as int)
}

/// Whether `p` is an IPv4 packet this engine can classify: twenty octets at least,
/// version 4, and a header length that the packet holds.
pub open spec fn ipv4_classifiable(p: Seq<u8>) -> bool {
    p.len() >= 20 && p[0] / 16 == 4 && (p[0] % 16) * 4 <= p.len()
}

/// The header length of `p` in octets.
pub open spec fn ihl_of(p: Seq<u8>) -> int {
    (p[0] % 16) * 4
}

/// Whether the ports of `p` are read: TCP or UDP with four octets after the header.
pub open spec fn has_ports(p: Seq<u8>) -> bool {
    (p[9] == 6 || p[9] == 17) && p.len() >= ihl_of(p) + 4
}

/// The key of the flow of a classifiable packet.
pub open spec fn packet_key_code(p: Seq<u8>) -> u128 {
    five_tuple_code(
        be32_at(p, 12),
        be32_at(p, 16),
        p[9] as int,
        if has_ports(p) { be16_at(p, ihl_of(p)) } else { 0 },
        if has_ports(p) { be16_at(p, ihl_of(p) + 2) } else { 0 },
    )
}

impl DetNetIpFlowKey {
    /// The key of this flow in the engine's table.
    pub fn code(&self) -> (r: u128)
        ensures
            r == flow_key_code(*self),
    {
        (self.src_ip.to_u32() as u128) * 0x100_0000_0000_0000_0000 + (self.dst_ip.to_u32() as u128)
            * 0x100_0000_0000 + (self.protocol as u128) * 0x1_0000_0000 + (self.src_port as u128)
            * 0x1_0000 + (self.dst_port as u128)
    }

    /// Classifies an IPv4 packet: its five-tuple (ports zero unless TCP or UDP with room
    /// for them after the header) and its DSCP; `None` for a packet too short, of another
    /// version, or shorter than its own header length.
    pub fn parse_ipv4_packet(packet: &[u8]) -> (r: Option<(Self, u8)>)
        ensures
            match r {
                Some((k, dscp)) => {
                    let p = packet@;
                    &&& ipv4_classifiable(p)
                    &&& k.src_ip.0@ == p.subrange(12, 16)
                    &&& k.dst_ip.0@ == p.subrange(16, 20)
                    &&& k.protocol == p[9]
                    &&& k.src_port == (if has_ports(p) { be16_at(p, ihl_of(p)) } else { 0 })
                    &&& k.dst_port == (if has_ports(p) { be16_at(p, ihl_of(p) + 2) } else { 0 })
                    &&& dscp == p[1] / 4
                    &&& flow_key_code(k) == packet_key_code(p)
                },
                None => !ipv4_classifiable(packet@),
            },
    {
        if packet.len() < 20 {
            return None;
        }
        let version = packet[0] / 16;
        if version != 4 {
            return None;
        }
        let ihl = ((packet[0] % 16) as usize) * 4;
        if packet.len() < ihl {
            return None;
        }
        let dscp = packet[1] / 4;
        let protocol = packet[9];
        let src_ip = Ipv4Address::new(packet[12], packet[13], packet[14], packet[15]);
        let dst_ip = Ipv4Address::new(packet[16], packet[17], packet[18], packet[19]);
        let (src_port, dst_port) = if (protocol == 6 || protocol == 17) && packet.len() >= ihl + 4 {
            (read_u16(packet, ihl), read_u16(packet, ihl + 2))
        } else {
            (0u16, 0u16)
        };
        let k = DetNetIpFlowKey { src_ip, dst_ip, protocol, src_port, dst_port };
        assert(src_ip.0@ =~= packet@.subrange(12, 16));
        assert(dst_ip.0@ =~= packet@.subrange(16, 20));
        Some((k, dscp))
    }
}

/// One replication path: forwarding label, traffic class, TTL and outgoing interface.
#[derive(Debug, Clone, PartialEq, Eq)]
pub struct DetNetFLabelPath {
    pub f_label: u32,
    pub traffic_class: u8,
    pub ttl: u8,
    pub out_if: String,
}

/// How an IP flow is carried over DetNet MPLS.
#[derive(Debug, Clone, PartialEq, Eq)]
pub struct DetNetIpMplsFlowProfile {
    pub flow_id: u32,
    pub flow_key: DetNetIpFlowKey,
    pub s_label: u32,
    pub s_tc: u8,
    pub f_paths: Vec<DetNetFLabelPath>,
}

#[derive(Debug, Clone, PartialEq, Eq)]
pub enum DetNetIpMplsIngressResult {
    Replicated { flow_id: u32, seq: u16, mpls_packets: Vec<(String, Vec<u8>)> },
    NoMatchingProfile,
    InvalidIpPacket,
}

#[derive(Debug, Clone, PartialEq, Eq)]
pub enum DetNetIpMplsEgressResult {
    AcceptedUnique { s_label: u32, seq: u16, ip_packet: Vec<u8> },
    DuplicateDropped { s_label: u32, seq: u16 },
    InvalidMplsPacket(String),
}

/// The MPLS traffic class of a DSCP: its top three bits.
pub open spec fn tc_of_dscp(dscp: u8) -> u8 {
    dscp / 8
}

/// A configured traffic class, or the one of the DSCP where none (zero) is configured.
pub open spec fn class_or_dscp(tc: u8, dscp: u8) -> u8 {
    if tc > 0 { tc } else { tc_of_dscp(dscp) }
}

/// A label stack entry: twenty bits of label, three of traffic class, the bottom-of-stack
/// bit, eight of TTL.
pub open spec fn shim(label: u32, tc: u8, bottom: bool, ttl: u8) -> u32 {
    ((label % 0x10_0000) * 4096 + (tc % 8) * 512 + (if bottom { 256int } else { 0int }) + ttl) as u32
}

/// The replica of an IP packet sent on a path with forwarding entry `f_shim`.
pub open spec fn mpls_replica(f_shim: u32, s_shim: u32, seq: u16, ip_packet: Seq<u8>) -> Seq<u8> {
    u32_bytes(f_shim) + u32_bytes(s_shim) + cw_bytes(seq) + ip_packet
}

/// Where the label stack of `f` ends, searching from `off` in steps of four octets: the
/// offset of the first entry with the bottom-of-stack bit, or `None` when the octets run
/// out first.
pub open spec fn stack_end(f: Seq<u8>, off: nat) -> Option<nat>
    decreases f.len() - off,
{
    if off + 4 > f.len() {
        None
    } else if f[off + 2int] % 2 == 1 {
        Some(off)
    } else {
        stack_end(f, off + 4)
    }
}

#[derive(Debug, Clone, Default)]
pub struct DetNetIpMplsEngine {
    /// Flow key code -> profile.
    pub flow_profiles: HashMap<u128, DetNetIpMplsFlowProfile>,
    /// Flow id -> next outgoing sequence number.
    pub tx_sequences: HashMap<u32, u16>,
    /// Service label -> sequence numbers already delivered.
    pub pef_history: HashMap<u32, HashSet<u16>>,
}

impl DetNetIpMplsEngine {
    pub fn new() -> (r: Self)
        ensures
            r.flow_profiles@ == Map::<u128, DetNetIpMplsFlowProfile>::empty(),
            r.tx_sequences@ == Map::<u32, u16>::empty(),
            r.pef_history@ == Map::<u32, HashSet<u16>>::empty(),
    {
        DetNetIpMplsEngine {
            flow_profiles: HashMap::new(),
            tx_sequences: HashMap::new(),
            pef_history: HashMap::new(),
        }
    }

    /// Registers (or replaces) the profile of `profile.flow_key`.
    pub fn register_profile(&mut self, profile: DetNetIpMplsFlowProfile)
        ensures
            final(self).flow_profiles@ == old(self).flow_profiles@.insert(flow_key_code(profile.flow_key), profile),
            final(self).tx_sequences@ == old(self).tx_sequences@,
            final(self).pef_history@ == old(self).pef_history@,
    {
        let code = profile.flow_key.code();
        self.flow_profiles.insert(code, profile);
    }

    pub fn dscp_to_mpls_tc(dscp: u8) -> (r: u8)
        ensures
            r == tc_of_dscp(dscp),
    {
        dscp / 8
    }

    /// Ingress: classifies the packet, gives it its flow's next sequence number and
    /// sends one replica per path, each with its forwarding label over the service label.
    pub fn ingress_encap(&mut self, ip_packet: &[u8]) -> (r: DetNetIpMplsIngressResult)
        ensures
            final(self).flow_profiles@ == old(self).flow_profiles@,
            final(self).pef_history@ == old(self).pef_history@,
            ({
                let p = ip_packet@;
                let code = packet_key_code(p);
                if !ipv4_classifiable(p) {
                    &&& r == DetNetIpMplsIngressResult::InvalidIpPacket
                    &&& final(self).tx_sequences@ == old(self).tx_sequences@
                } else if !old(self).flow_profiles@.contains_key(code) {
                    &&& r == DetNetIpMplsIngressResult::NoMatchingProfile
                    &&& final(self).tx_sequences@ == old(self).tx_sequences@
                } else {
                    let prof = old(self).flow_profiles@[code];
                    let dscp = p[1] / 4;
                    let seq = if old(self).tx_sequences@.contains_key(prof.flow_id) {
                        old(self).tx_sequences@[prof.flow_id]
                    } else {
                        0u16
                    };
                    let s_shim = shim(prof.s_label, class_or_dscp(prof.s_tc, dscp), true, 64);
                    &&& r matches DetNetIpMplsIngressResult::Replicated { flow_id, seq: s, mpls_packets }
                        && flow_id == prof.flow_id && s == seq
                        && mpls_packets@.len() == prof.f_paths@.len()
                        && forall|i: int| 0 <= i < mpls_packets@.len() ==> {
                            let path = #[trigger] prof.f_paths@[i];
                            &&& mpls_packets@[i].0@ == path.out_if@
                            &&& mpls_packets@[i].1@ == mpls_replica(
                                shim(path.f_label, class_or_dscp(path.traffic_class, dscp), false, path.ttl),
                                s_shim,
                                seq,
                                p,
                            )
                        }
                    &&& final(self).tx_sequences@ == old(self).tx_sequences@.insert(prof.flow_id, next_seq(seq))
                }
            }),
    {
        let (flow_key, dscp) = match DetNetIpFlowKey::parse_ipv4_packet(ip_packet) {
            Some(res) => res,
            None => return DetNetIpMplsIngressResult::InvalidIpPacket,
        };
        let code = flow_key.code();
        let profile = match self.flow_profiles.get(&code) {
            Some(p) => p,
            None => return DetNetIpMplsIngressResult::NoMatchingProfile,
        };
        let seq: u16 = match self.tx_sequences.get(&profile.flow_id) {
            Some(s) => *s,
            None => 0,
        };
        let next: u16 = if seq == u16::MAX { 0 } else { seq + 1 };
        self.tx_sequences.insert(profile.flow_id, next);

        let dcw = DetNetMplsControlWord::new(seq);
        let dcw_bytes = dcw.serialize();
        let s_tc: u8 = if profile.s_tc > 0 { profile.s_tc } else { Self::dscp_to_mpls_tc(dscp) };
        let s_shim: u32 = (profile.s_label % 0x10_0000) * 4096 + ((s_tc % 8) as u32) * 512 + 256 + 64;
        let ghost s_spec = shim(profile.s_label, class_or_dscp(profile.s_tc, dscp), true, 64);
        assert(s_shim == s_spec);

        let mut mpls_packets: Vec<(String, Vec<u8>)> = Vec::new();
        let mut i: usize = 0;
        while i < profile.f_paths.len()
            invariant
                i <= profile.f_paths@.len(),
                mpls_packets@.len() == i,
                s_shim == s_spec,
                dcw_bytes@ == cw_bytes(seq),
                s_spec == shim(profile.s_label, class_or_dscp(profile.s_tc, dscp), true, 64),
                forall|j: int| 0 <= j < i ==> {
                    let path = #[trigger] profile.f_paths@[j];
                    &&& mpls_packets@[j].0@ == path.out_if@
                    &&& mpls_packets@[j].1@ == mpls_replica(
                        shim(path.f_label, class_or_dscp(path.traffic_class, dscp), false, path.ttl),
                        s_spec,
                        seq,
                        ip_packet@,
                    )
                },
            decreases profile.f_paths@.len() - i,
        {
            let path = &profile.f_paths[i];
            let f_tc: u8 = if path.traffic_class > 0 { path.traffic_class } else { Self::dscp_to_mpls_tc(dscp) };
            let f_shim: u32 = (path.f_label % 0x10_0000) * 4096 + ((f_tc % 8) as u32) * 512 + (path.ttl as u32);
            assert(f_shim == shim(path.f_label, class_or_dscp(path.traffic_class, dscp), false, path.ttl));
            let mut frame: Vec<u8> = Vec::new();
            push_u32(&mut frame, f_shim);
            push_u32(&mut frame, s_shim);
            push_all(&mut frame, &dcw_bytes);
            push_all(&mut frame, ip_packet);
            assert(frame@ =~= mpls_replica(f_shim, s_shim, seq, ip_packet@));
            let out_if = path.out_if.clone();
            mpls_packets.push((out_if, frame));
            i = i + 1;
        }
        DetNetIpMplsIngressResult::Replicated { flow_id: profile.flow_id, seq, mpls_packets }
    }

    /// Egress: walks the label stack to its bottom entry (the service label), reads the
    /// control word after it and delivers the IP packet unless that sequence number was
    /// already delivered for the service label.
    pub fn egress_decap(&mut self, mpls_frame: &[u8]) -> (r: DetNetIpMplsEgressResult)
        ensures
            final(self).flow_profiles@ == old(self).flow_profiles@,
            final(self).tx_sequences@ == old(self).tx_sequences@,
            ({
                let f = mpls_frame@;
                if f.len() < 32 {
                    &&& r matches DetNetIpMplsEgressResult::InvalidMplsPacket(m) && m@ == "MPLS frame too short"@
                    &&& final(self).pef_history@ == old(self).pef_history@
                } else {
                    match stack_end(f, 0) {
                        None => {
                            &&& r matches DetNetIpMplsEgressResult::InvalidMplsPacket(m)
                                && m@ == "Incomplete label stack"@
                            &&& final(self).pef_history@ == old(self).pef_history@
                        },
                        Some(o) => {
                            let label = (be32_at(f, o as int) / 4096) as u32;
                            let cw = f.subrange(o + 4int, o + 8int);
                            let seq = cw_seq(cw);
                            let h = history_of(old(self).pef_history@, label);
                            if o + 8 > f.len() {
                                &&& r matches DetNetIpMplsEgressResult::InvalidMplsPacket(m) && m@ == "Missing d-CW"@
                                &&& final(self).pef_history@ == old(self).pef_history@
                            } else if !cw_valid(cw) {
                                &&& r matches DetNetIpMplsEgressResult::InvalidMplsPacket(m)
                                    && m@ == "Invalid d-CW (nibble != 0)"@
                                &&& final(self).pef_history@ == old(self).pef_history@
                            } else if h.contains(seq) {
                                &&& r == (DetNetIpMplsEgressResult::DuplicateDropped { s_label: label, seq })
                                &&& final(self).pef_history@ == old(self).pef_history@
                            } else {
                                &&& r matches DetNetIpMplsEgressResult::AcceptedUnique { s_label, seq: s, ip_packet }
                                    && s_label == label && s == seq && ip_packet@ == f.subrange(o + 8int, f.len() as int)
                                &&& final(self).pef_history@.dom() == old(self).pef_history@.dom().insert(label)
                                &&& final(self).pef_history@[label]@ == history_after(h, seq)
                                &&& forall|k: u32| k != label && #[trigger] old(self).pef_history@.contains_key(k)
                                    ==> final(self).pef_history@[k] == old(self).pef_history@[k]
                            }
                        },
                    }
                }
            }),
    {
        proof {
            reveal_strlit("MPLS frame too short");
            reveal_strlit("Incomplete label stack");
            reveal_strlit("Missing d-CW");
            reveal_strlit("Invalid d-CW (nibble != 0)");
        }
        if mpls_frame.len() < 32 {
            return DetNetIpMplsEgressResult::InvalidMplsPacket(owned("MPLS frame too short"));
        }
        let mut offset: usize = 0;
        loop
            invariant
                offset <= mpls_frame@.len(),
                mpls_frame@.len() >= 32,
                offset % 4 == 0,
                stack_end(mpls_frame@, 0) == stack_end(mpls_frame@, offset as nat),
                self.pef_history@ == old(self).pef_history@,
                self.flow_profiles@ == old(self).flow_profiles@,
                self.tx_sequences@ == old(self).tx_sequences@,
            decreases mpls_frame@.len() + 4 - offset,
        {
            if mpls_frame.len() - offset < 4 {
                return DetNetIpMplsEgressResult::InvalidMplsPacket(owned("Incomplete label stack"));
            }
            let label_raw = read_u32(mpls_frame, offset);
            let bos = mpls_frame[offset + 2] % 2;
            if bos == 1 {
                let s_label = label_raw / 4096;
                let after = offset + 4;
                if mpls_frame.len() - after < 4 {
                    return DetNetIpMplsEgressResult::InvalidMplsPacket(owned("Missing d-CW"));
                }
                let cw_slice = copy_range(mpls_frame, after, after + 4);
                let dcw = match DetNetMplsControlWord::parse(cw_slice.as_slice()) {
                    Some(cw) => cw,
                    None => {
                        return DetNetIpMplsEgressResult::InvalidMplsPacket(
                            owned("Invalid d-CW (nibble != 0)"),
                        );
                    },
                };
                let seq = dcw.sequence_number;
                if !pef_admit(&mut self.pef_history, s_label, seq) {
                    return DetNetIpMplsEgressResult::DuplicateDropped { s_label, seq };
                }
                let ip_packet = copy_range(mpls_frame, after + 4, mpls_frame.len());
                return DetNetIpMplsEgressResult::AcceptedUnique { s_label, seq, ip_packet };
            }
            offset = offset + 4;
        }
    }
}

/// A replica built at ingress, read at egress: the stack ends at its second entry, and
/// the service label (to its low twenty bits), the sequence number and the IP packet come
/// back as they were sent.
pub proof fn lemma_replica_readback(
    f_label: u32,
    f_tc: u8,
    ttl: u8,
    s_label: u32,
    s_tc: u8,
    seq: u16,
    ip_packet: Seq<u8>,
)
    ensures
        ({
            let f = mpls_replica(shim(f_label, f_tc, false, ttl), shim(s_label, s_tc, true, 64), seq, ip_packet);
            &&& f.len() == 12 + ip_packet.len()
            &&& stack_end(f, 0) == Some(4nat)
            &&& be32_at(f, 4) / 4096 == s_label % 0x10_0000
            &&& cw_valid(f.subrange(8, 12))
            &&& cw_seq(f.subrange(8, 12)) == seq
            &&& f.subrange(12, f.len() as int) == ip_packet
        }),
{
    let fs = shim(f_label, f_tc, false, ttl);
    let ss = shim(s_label, s_tc, true, 64);
    let f = mpls_replica(fs, ss, seq, ip_packet);
    let fl = (f_label % 0x10_0000) as int;
    let ft = (f_tc % 8) as int;
    let sl = (s_label % 0x10_0000) as int;
    let st = (s_tc % 8) as int;
    assert(fs == fl * 4096 + ft * 512 + ttl);
    assert(ss == sl * 4096 + st * 512 + 256 + 64);
    assert(f[2] == ((fs / 256) % 256) as u8);
    assert(f[6] == ((ss / 256) % 256) as u8);
    assert((fs / 256) % 256 == (fl * 16 + ft * 2) % 256) by (nonlinear_arith)
        requires fs == fl * 4096 + ft * 512 + ttl, 0 <= ttl < 256, 0 <= fl, 0 <= ft;
    assert((fl * 16 + ft * 2) % 2 == 0) by (nonlinear_arith)
        requires 0 <= fl, 0 <= ft;
    assert(((fl * 16 + ft * 2) % 256) % 2 == 0) by (nonlinear_arith)
        requires (fl * 16 + ft * 2) % 2 == 0, 0 <= fl, 0 <= ft;
    assert((ss / 256) % 256 == (sl * 16 + st * 2 + 1) % 256) by (nonlinear_arith)
        requires ss == sl * 4096 + st * 512 + 256 + 64, 0 <= sl, 0 <= st;
    assert(((sl * 16 + st * 2 + 1) % 256) % 2 == 1) by (nonlinear_arith)
        requires 0 <= sl, 0 <= st;
    assert(stack_end(f, 4) == Some(4nat));
    assert(be32_at(f, 4) == ss) by {
        assert(f[4] == (ss / 16777216) as u8);
        assert(f[5] == ((ss / 65536) % 256) as u8);
        assert(f[7] == (ss % 256) as u8);
    }
    assert((sl * 4096 + st * 512 + 320) / 4096 == sl) by (nonlinear_arith)
        requires 0 <= st < 8, 0 <= sl;
    assert(f.subrange(8, 12) =~= cw_bytes(seq));
    assert(f.subrange(12, f.len() as int) =~= ip_packet);
}

} // verus!
