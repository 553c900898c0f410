//! DetNet over MPLS: the four-octet DetNet control word (d-CW) and the service
//! sub-layer functions built on it — packet replication over several forwarding
//! labels at ingress and duplicate elimination by sequence number at egress.
use vstd::prelude::*;
use std::collections::{HashMap, HashSet};
use crate::wire::{u16_bytes, u32_bytes, be32_at, push_u32, push_all, read_u32, copy_range};
use crate::text::owned;

verus! {

broadcast use vstd::std_specs::hash::group_hash_axioms;

/// Elimination history kept per service label before it is reset.
pub const PEF_HISTORY_LIMIT: usize = 10_000;

/// The DetNet control word: a zero nibble, twelve reserved bits and a sequence number.
#[derive(Debug, Clone, Copy, PartialEq, Eq, Structural)]
pub struct DetNetMplsControlWord {
    pub sequence_number: u16,
}

/// The four octets of the control word carrying `seq`.
pub open spec fn cw_bytes(seq: u16) -> Seq<u8> {
    seq![0u8, 0u8] + u16_bytes(seq)
}

/// Whether `buf` holds a control word: at least four octets, the first nibble zero.
pub open spec fn cw_valid(buf: Seq<u8>) -> bool {
    buf.len() >= 4 && buf[0] < 16
}

/// The sequence number of the control word at the start of `buf`.
pub open spec fn cw_seq(buf: Seq<u8>) -> u16 {
    (buf[2] * 256 + buf[3]) as u16
}

impl DetNetMplsControlWord {
    pub fn new(sequence_number: u16) -> (r: Self)
        ensures
            r.sequence_number == sequence_number,
    {
        DetNetMplsControlWord { sequence_number }
    }

    /// The control word on the wire.
    pub fn serialize(&self) -> (r: [u8; 4])
        ensures
            r@ == cw_bytes(self.sequence_number),
    {
        let r = [0u8, 0u8, (self.sequence_number / 256) as u8, (self.sequence_number % 256) as u8];
        assert(r@ =~= cw_bytes(self.sequence_number));
        r
    }

    /// Reads a control word; `None` when `buf` is shorter than four octets or its first
    /// nibble is not zero.
    pub fn parse(buf: &[u8]) -> (r: Option<Self>)
        ensures
            match r {
                Some(cw) => cw_valid(buf@) && cw.sequence_number == cw_seq(buf@),
                None => !cw_valid(buf@),
            },
    {
        if buf.len() < 4 {
            return None;
        }
        let b0 = buf[0];
        assert((b0 & 0xF0u8) == 0u8 <==> b0 < 16u8) by (bit_vector);
        if (b0 & 0xF0) != 0x00 {
            return None;
        }
        let seq = (buf[2] as u16) * 256 + (buf[3] as u16);
        Some(DetNetMplsControlWord { sequence_number: seq })
    }
}

/// A control word read back from its own encoding is the word that was written.
pub proof fn lemma_control_word_roundtrip(seq: u16)
    ensures
        cw_valid(cw_bytes(seq)),
        cw_seq(cw_bytes(seq)) == seq,
{
}

/// A flow's encapsulation: its service label and one forwarding label per path.
#[derive(Debug, Clone, PartialEq, Eq)]
pub struct DetNetMplsProfile {
    pub flow_id: u32,
    pub s_label: u32,
    pub f_labels: Vec<u32>,
}

#[derive(Debug, Clone, PartialEq, Eq)]
pub enum DetNetMplsResult {
    ReplicatedPaths { s_label: u32, seq: u16, frames: Vec<(u32, Vec<u8>)> },
    AcceptedUnique { s_label: u32, seq: u16, payload: Vec<u8> },
    DuplicateDropped { s_label: u32, seq: u16 },
    InvalidPacket(String),
}

/// An MPLS label stack entry: the low twenty bits of `label`, the bottom-of-stack bit, TTL 64.
pub open spec fn label_entry(label: u32, bottom: bool) -> u32 {
    ((label % 0x10_0000) * 4096 + (if bottom { 256int } else { 0int }) + 64) as u32
}

/// The service PDU of one packet: service label entry, control word, payload.
pub open spec fn service_pdu(s_label: u32, seq: u16, payload: Seq<u8>) -> Seq<u8> {
    u32_bytes(label_entry(s_label, true)) + cw_bytes(seq) + payload
}

/// A replicated frame: the forwarding label entry in front of the service PDU.
pub open spec fn replicated_frame(f_label: u32, s_label: u32, seq: u16, payload: Seq<u8>) -> Seq<u8> {
    u32_bytes(label_entry(f_label, false)) + service_pdu(s_label, seq, payload)
}

/// The service label carried by a service PDU.
pub open spec fn pdu_label(pdu: Seq<u8>) -> u32 {
    (be32_at(pdu, 0) / 4096) as u32
}

/// The elimination history of `label`, empty where none was kept.
pub open spec fn history_of(h: Map<u32, HashSet<u16>>, label: u32) -> Set<u16> {
    if h.contains_key(label) { h[label]@ } else { Set::empty() }
}

/// The history of a label after `seq` was accepted: `seq` joins it, and a history grown
/// past the limit restarts from `seq` alone.
pub open spec fn history_after(old_history: Set<u16>, seq: u16) -> Set<u16> {
    if old_history.insert(seq).len() > PEF_HISTORY_LIMIT {
        set![seq]
    } else {
        old_history.insert(seq)
    }
}

/// The sequence number that follows `seq`, wrapping at the top.
pub open spec fn next_seq(seq: u16) -> u16 {
    if seq == u16::MAX { 0 } else { (seq + 1) as u16 }
}

/// Packet elimination on a per-label history: `seq` is admitted, and recorded, unless the
/// history of `label` already holds it; a refused packet leaves the histories unchanged.
pub(crate) fn pef_admit(histories: &mut HashMap<u32, HashSet<u16>>, label: u32, seq: u16) -> (r: bool)
    ensures
        r == !history_of(old(histories)@, label).contains(seq),
        !r ==> final(histories)@ == old(histories)@,
        r ==> {
            &&& final(histories)@.dom() == old(histories)@.dom().insert(label)
            &&& final(histories)@[label]@ == history_after(history_of(old(histories)@, label), seq)
            &&& forall|k: u32| k != label && #[trigger] old(histories)@.contains_key(k)
                ==> final(histories)@[k] == old(histories)@[k]
        },
{
    let ghost old_map = histories@;
    let mut history: HashSet<u16> = match histories.remove(&label) {
        Some(h) => h,
        None => HashSet::new(),
    };
    assert(history@ == history_of(old_map, label));
    if history.contains(&seq) {
        histories.insert(label, history);
        assert(histories@ =~= old_map);
        return false;
    }
    history.insert(seq);
    if history.len() > PEF_HISTORY_LIMIT {
        history.clear();
        history.insert(seq);
        assert(history@ =~= set![seq]);
    }
    histories.insert(label, history);
    assert(histories@.dom() =~= old_map.dom().insert(label));
    true
}

#[derive(Debug, Clone, Default)]
pub struct DetNetMplsEngine {
    pub ingress_profiles: HashMap<u32, DetNetMplsProfile>,
    pub tx_sequences: HashMap<u32, u16>,
    pub pef_history: HashMap<u32, HashSet<u16>>,
}

impl DetNetMplsEngine {
    pub fn new() -> (r: Self)
        ensures
            r.ingress_profiles@ == Map::<u32, DetNetMplsProfile>::empty(),
            r.tx_sequences@ == Map::<u32, u16>::empty(),
            r.pef_history@ == Map::<u32, HashSet<u16>>::empty(),
    {
        DetNetMplsEngine {
            ingress_profiles: HashMap::new(),
            tx_sequences: HashMap::new(),
            pef_history: HashMap::new(),
        }
    }

    /// Registers (or replaces) the profile of `profile.flow_id`.
    pub fn register_profile(&mut self, profile: DetNetMplsProfile)
        ensures
            final(self).ingress_profiles@ == old(self).ingress_profiles@.insert(profile.flow_id, profile),
            final(self).tx_sequences@ == old(self).tx_sequences@,
            final(self).pef_history@ == old(self).pef_history@,
    {
        self.ingress_profiles.insert(profile.flow_id, profile);
    }

    /// Ingress: gives the packet the flow's next sequence number and builds one frame
    /// per forwarding label; an unknown flow is refused and changes nothing.
    pub fn ingress_replicate(&mut self, flow_id: u32, payload: &[u8]) -> (r: DetNetMplsResult)
        ensures
            final(self).ingress_profiles@ == old(self).ingress_profiles@,
            final(self).pef_history@ == old(self).pef_history@,
            if !old(self).ingress_profiles@.contains_key(flow_id) {
                &&& r matches DetNetMplsResult::InvalidPacket(m) && m@ == "Unknown Flow ID"@
                &&& final(self).tx_sequences@ == old(self).tx_sequences@
            } else {
                let p = old(self).ingress_profiles@[flow_id];
                let seq = if old(self).tx_sequences@.contains_key(flow_id) {
                    old(self).tx_sequences@[flow_id]
                } else {
                    0u16
                };
                &&& r matches DetNetMplsResult::ReplicatedPaths { s_label, seq: s, frames }
                    && s_label == p.s_label && s == seq
                    && frames@.len() == p.f_labels@.len()
                    && forall|i: int| 0 <= i < frames@.len() ==> (#[trigger] frames@[i]).0 == p.f_labels@[i]
                        && frames@[i].1@ == replicated_frame(p.f_labels@[i], p.s_label, seq, payload@)
                &&& final(self).tx_sequences@ == old(self).tx_sequences@.insert(flow_id, next_seq(seq))
            },
    {
        proof {
            reveal_strlit("Unknown Flow ID");
        }
        let profile = match self.ingress_profiles.get(&flow_id) {
            Some(p) => p,
            None => return DetNetMplsResult::InvalidPacket(owned("Unknown Flow ID")),
        };
        let seq: u16 = match self.tx_sequences.get(&flow_id) {
            Some(s) => *s,
            None => 0,
        };
        let next: u16 = if seq == u16::MAX { 0 } else { seq + 1 };
        self.tx_sequences.insert(flow_id, next);

        let s_entry: u32 = (profile.s_label % 0x10_0000) * 4096 + 256 + 64;
        let mut pdu: Vec<u8> = Vec::new();
        push_u32(&mut pdu, s_entry);
        pdu.push(0u8);
        pdu.push(0u8);
        pdu.push((seq / 256) as u8);
        pdu.push((seq % 256) as u8);
        push_all(&mut pdu, payload);
        assert(pdu@ =~= service_pdu(profile.s_label, seq, payload@));

        let mut frames: Vec<(u32, Vec<u8>)> = Vec::new();
        let mut i: usize = 0;
        while i < profile.f_labels.len()
            invariant
                i <= profile.f_labels@.len(),
                frames@.len() == i,
                pdu@ == service_pdu(profile.s_label, seq, payload@),
                forall|j: int| 0 <= j < i ==> (#[trigger] frames@[j]).0 == profile.f_labels@[j]
                    && frames@[j].1@ == replicated_frame(profile.f_labels@[j], profile.s_label, seq, payload@),
            decreases profile.f_labels@.len() - i,
        {
            let f_label = profile.f_labels[i];
            let f_entry: u32 = (f_label % 0x10_0000) * 4096 + 64;
            let mut frame: Vec<u8> = Vec::new();
            push_u32(&mut frame, f_entry);
            push_all(&mut frame, pdu.as_slice());
            assert(frame@ =~= replicated_frame(f_label, profile.s_label, seq, payload@));
            frames.push((f_label, frame));
            i = i + 1;
        }
        DetNetMplsResult::ReplicatedPaths { s_label: profile.s_label, seq, frames }
    }

    /// Egress: reads the service label and control word of a service PDU and delivers
    /// its payload unless that sequence number was already seen for the label.
    pub fn egress_eliminate(&mut self, service_pdu: &[u8]) -> (r: DetNetMplsResult)
        ensures
            final(self).ingress_profiles@ == old(self).ingress_profiles@,
            final(self).tx_sequences@ == old(self).tx_sequences@,
            ({
                let pdu = service_pdu@;
                let label = pdu_label(pdu);
                let seq = cw_seq(pdu.subrange(4, 8));
                let h = history_of(old(self).pef_history@, label);
                if pdu.len() < 8 {
                    &&& r matches DetNetMplsResult::InvalidPacket(m) && m@ == "Service PDU too short"@
                    &&& final(self).pef_history@ == old(self).pef_history@
                } else if !cw_valid(pdu.subrange(4, 8)) {
                    &&& r matches DetNetMplsResult::InvalidPacket(m) && m@ == "Invalid DetNet Control Word"@
                    &&& final(self).pef_history@ == old(self).pef_history@
                } else if h.contains(seq) {
                    &&& r == (DetNetMplsResult::DuplicateDropped { s_label: label, seq })
                    &&& final(self).pef_history@ == old(self).pef_history@
                } else {
                    &&& r matches DetNetMplsResult::AcceptedUnique { s_label, seq: s, payload }
                        && s_label == label && s == seq && payload@ == pdu.subrange(8, pdu.len() as int)
                    &&& final(self).pef_history@.dom() == old(self).pef_history@.dom().insert(label)
                    &&& final(self).pef_history@[label]@ == history_after(h, seq)
                    &&& forall|k: u32| k != label && #[trigger] old(self).pef_history@.contains_key(k)
                        ==> final(self).pef_history@[k] == old(self).pef_history@[k]
                }
            }),
    {
        proof {
            reveal_strlit("Service PDU too short");
            reveal_strlit("Invalid DetNet Control Word");
        }
        if service_pdu.len() < 8 {
            return DetNetMplsResult::InvalidPacket(owned("Service PDU too short"));
        }
        let raw = read_u32(service_pdu, 0);
        let s_label = raw / 4096;
        let cw_slice = copy_range(service_pdu, 4, 8);
        let dcw = match DetNetMplsControlWord::parse(cw_slice.as_slice()) {
            Some(cw) => cw,
            None => {
                return DetNetMplsResult::InvalidPacket(owned("Invalid DetNet Control Word"));
            },
        };
        let seq = dcw.sequence_number;
        if !pef_admit(&mut self.pef_history, s_label, seq) {
            return DetNetMplsResult::DuplicateDropped { s_label, seq };
        }
        let payload = copy_range(service_pdu, 8, service_pdu.len());
        DetNetMplsResult::AcceptedUnique { s_label, seq, payload }
    }
}

/// The service PDU of a replicated packet carries its service label, sequence number
/// and payload back to the egress unchanged (the label to its low twenty bits).
pub proof fn lemma_service_pdu_readback(s_label: u32, seq: u16, payload: Seq<u8>)
    ensures
        service_pdu(s_label, seq, payload).len() >= 8,
        pdu_label(service_pdu(s_label, seq, payload)) == s_label % 0x10_0000,
        cw_valid(service_pdu(s_label, seq, payload).subrange(4, 8)),
        cw_seq(service_pdu(s_label, seq, payload).subrange(4, 8)) == seq,
        service_pdu(s_label, seq, payload).subrange(8, service_pdu(s_label, seq, payload).len() as int)
            == payload,
{
    let pdu = service_pdu(s_label, seq, payload);
    let e = label_entry(s_label, true);
    let l = (s_label % 0x10_0000) as int;
    assert(e == l * 4096 + 320);
    assert(be32_at(pdu, 0) == e) by {
        assert(pdu[0] == (e / 16777216) as u8);
        assert(pdu[1] == ((e / 65536) % 256) as u8);
        assert(pdu[2] == ((e / 256) % 256) as u8);
        assert(pdu[3] == (e % 256) as u8);
    }
    assert((l * 4096 + 320) / 4096 == l) by (nonlinear_arith)
        requires 0 <= l;
    assert(pdu.subrange(4, 8) =~= cw_bytes(seq));
    assert(pdu.subrange(8, pdu.len() as int) =~= payload);
}

/// Once a sequence number has been accepted for a label, the label's history holds it,
/// so the next copy carrying it is dropped.
pub proof fn lemma_accepted_then_duplicate(old_history: Set<u16>, seq: u16)
    ensures
        history_after(old_history, seq).contains(seq),
{
}

} // verus!
