//! Diameter S6a/S6d between the MME and the HSS (3GPP TS 29.272), Application ID
//! 16777251: authentication information (command 318) with E-UTRAN vectors, and update
//! location (command 316), answered by an HSS from its subscriber profiles.
use vstd::prelude::*;
use crate::diameter::{
    AvpModel, DiameterAvp, DiameterMessage, avp_bytes, avp_models, avp_wf, avps_bytes, avps_parse,
    avps_parse_prefix, mandatory_avp, serialize_avps, lemma_avps_roundtrip, DIAMETER_FLAG_MANDATORY,
    DIAMETER_FLAG_VENDOR_SPECIFIC, DIAMETER_SUCCESS,
};
use crate::diameter_gx::{gx_avp, text_avp_of, VENDOR_3GPP};
use crate::table::StrTable;
use crate::text::owned;
use crate::wire::u32_bytes;

verus! {

pub const DIAMETER_APPLICATION_S6A: u32 = 16777251;

pub const DIAMETER_CMD_UPDATE_LOCATION: u32 = 316;
pub const DIAMETER_CMD_AUTH_INFO: u32 = 318;
pub const DIAMETER_CMD_PURGE_UE: u32 = 321;

pub const AVP_USER_NAME: u32 = 1;
pub const AVP_SUBSCRIPTION_DATA: u32 = 1400;
pub const AVP_AUTHENTICATION_INFO: u32 = 1413;
pub const AVP_E_UTRAN_VECTOR: u32 = 1414;
pub const AVP_RAND: u32 = 1447;
pub const AVP_XRES: u32 = 1448;
pub const AVP_AUTN: u32 = 1449;
pub const AVP_KASME: u32 = 1450;
pub const AVP_VISITED_PLMN_ID: u32 = 1407;
pub const AVP_RAT_TYPE: u32 = 1032;

/// An EPS authentication vector: RAND, XRES, AUTN and KASME.
#[derive(Debug, Clone, PartialEq, Eq)]
pub struct EpsAuthVector {
    pub rand: [u8; 16],
    pub xres: [u8; 8],
    pub autn: [u8; 16],
    pub kasme: [u8; 32],
}

/// The inner AVPs of an E-UTRAN-Vector: RAND, XRES, AUTN, KASME, each a 3GPP AVP.
pub open spec fn vector_inner(rand: Seq<u8>, xres: Seq<u8>, autn: Seq<u8>, kasme: Seq<u8>) -> Seq<AvpModel> {
    seq![gx_avp(AVP_RAND, rand), gx_avp(AVP_XRES, xres), gx_avp(AVP_AUTN, autn), gx_avp(AVP_KASME, kasme)]
}

/// The E-UTRAN-Vector AVP of a vector.
pub open spec fn vector_avp(v: EpsAuthVector) -> AvpModel {
    gx_avp(AVP_E_UTRAN_VECTOR, avps_bytes(vector_inner(v.rand@, v.xres@, v.autn@, v.kasme@)))
}

/// The data of the last AVP with `code` whose data has `len` octets.
pub open spec fn last_sized(avps: Seq<AvpModel>, code: u32, len: nat) -> Option<Seq<u8>>
    decreases avps.len(),
{
    if avps.len() == 0 {
        None
    } else if avps.last().code == code && avps.last().data.len() == len {
        Some(avps.last().data)
    } else {
        last_sized(avps.drop_last(), code, len)
    }
}

/// The vector read from the data of an E-UTRAN-Vector AVP: the AVPs are decoded up to
/// the first malformed one, and the last RAND, XRES, AUTN and KASME of the right sizes
/// (16, 8, 16 and 32 octets) are taken; all four are needed.
pub open spec fn vector_parse(data: Seq<u8>) -> Option<(Seq<u8>, Seq<u8>, Seq<u8>, Seq<u8>)> {
    let avps = avps_parse_prefix(data);
    match (last_sized(avps, AVP_RAND, 16), last_sized(avps, AVP_XRES, 8), last_sized(avps, AVP_AUTN, 16), last_sized(
        avps,
        AVP_KASME,
        32,
    )) {
        (Some(r), Some(x), Some(a), Some(k)) => Some((r, x, a, k)),
        _ => None,
    }
}

fn array16(v: &Vec<u8>) -> (r: [u8; 16])
    requires
        v@.len() == 16,
    ensures
        r@ == v@,
{
    let mut a = [0u8; 16];
    let mut i: usize = 0;
    while i < 16
        invariant
            i <= 16,
            v@.len() == 16,
            forall|j: int| 0 <= j < i ==> a@[j] == v@[j],
        decreases 16 - i,
    {
        a[i] = v[i];
        i = i + 1;
    }
    assert(a@ =~= v@);
    a
}

fn array8(v: &Vec<u8>) -> (r: [u8; 8])
    requires
        v@.len() == 8,
    ensures
        r@ == v@,
{
    let mut a = [0u8; 8];
    let mut i: usize = 0;
    while i < 8
        invariant
            i <= 8,
            v@.len() == 8,
            forall|j: int| 0 <= j < i ==> a@[j] == v@[j],
        decreases 8 - i,
    {
        a[i] = v[i];
        i = i + 1;
    }
    assert(a@ =~= v@);
    a
}

fn array32(v: &Vec<u8>) -> (r: [u8; 32])
    requires
        v@.len() == 32,
    ensures
        r@ == v@,
{
    let mut a = [0u8; 32];
    let mut i: usize = 0;
    while i < 32
        invariant
            i <= 32,
            v@.len() == 32,
            forall|j: int| 0 <= j < i ==> a@[j] == v@[j],
        decreases 32 - i,
    {
        a[i] = v[i];
        i = i + 1;
    }
    assert(a@ =~= v@);
    a
}

impl EpsAuthVector {
    pub fn new(rand: [u8; 16], xres: [u8; 8], autn: [u8; 16], kasme: [u8; 32]) -> (r: Self)
        ensures
            r == (EpsAuthVector { rand, xres, autn, kasme }),
    {
        EpsAuthVector { rand, xres, autn, kasme }
    }

    /// The vector as an E-UTRAN-Vector grouped AVP.
    pub fn to_grouped_avp(&self) -> (r: DiameterAvp)
        ensures
            r@ == vector_avp(*self),
    {
        let flags = DIAMETER_FLAG_MANDATORY | DIAMETER_FLAG_VENDOR_SPECIFIC;
        assert(DIAMETER_FLAG_MANDATORY | DIAMETER_FLAG_VENDOR_SPECIFIC == 0xC0u8) by (bit_vector);
        let mut inner: Vec<DiameterAvp> = Vec::new();
        inner.push(DiameterAvp::new_vendor(AVP_RAND, flags, VENDOR_3GPP, &self.rand));
        inner.push(DiameterAvp::new_vendor(AVP_XRES, flags, VENDOR_3GPP, &self.xres));
        inner.push(DiameterAvp::new_vendor(AVP_AUTN, flags, VENDOR_3GPP, &self.autn));
        inner.push(DiameterAvp::new_vendor(AVP_KASME, flags, VENDOR_3GPP, &self.kasme));
        assert(avp_models(inner@) =~= vector_inner(self.rand@, self.xres@, self.autn@, self.kasme@));
        let payload = serialize_avps(&inner);
        DiameterAvp::new_vendor(AVP_E_UTRAN_VECTOR, flags, VENDOR_3GPP, payload.as_slice())
    }

    /// Reads a vector from an E-UTRAN-Vector AVP (see `vector_parse`).
    pub fn from_grouped_avp(avp: &DiameterAvp) -> (r: Option<Self>)
        ensures
            match vector_parse(avp.data@) {
                Some((rd, x, a, k)) => r matches Some(v) && v.rand@ == rd && v.xres@ == x && v.autn@ == a && v.kasme@ == k,
                None => r is None,
            },
    {
        let inners = DiameterAvp::parse_all(avp.data.as_slice());
        let ghost avps = avp_models(inners@);
        let mut rand: Option<[u8; 16]> = None;
        let mut xres: Option<[u8; 8]> = None;
        let mut autn: Option<[u8; 16]> = None;
        let mut kasme: Option<[u8; 32]> = None;
        let mut i: usize = 0;
        while i < inners.len()
            invariant
                avps == avp_models(inners@),
                i <= inners@.len(),
                opt_arr16(rand) == last_sized(avps.take(i as int), AVP_RAND, 16),
                opt_arr8(xres) == last_sized(avps.take(i as int), AVP_XRES, 8),
                opt_arr16(autn) == last_sized(avps.take(i as int), AVP_AUTN, 16),
                opt_arr32(kasme) == last_sized(avps.take(i as int), AVP_KASME, 32),
            decreases inners@.len() - i,
        {
            proof {
                assert(avps.take(i + 1).drop_last() =~= avps.take(i as int));
                assert(avps.take(i + 1).last() == inners@[i as int]@);
            }
            let a = &inners[i];
            if a.code == AVP_RAND && a.data.len() == 16 {
                rand = Some(array16(&a.data));
            } else if a.code == AVP_XRES && a.data.len() == 8 {
                xres = Some(array8(&a.data));
            } else if a.code == AVP_AUTN && a.data.len() == 16 {
                autn = Some(array16(&a.data));
            } else if a.code == AVP_KASME && a.data.len() == 32 {
                kasme = Some(array32(&a.data));
            }
            i = i + 1;
        }
        assert(avps.take(i as int) =~= avps);
        match (rand, xres, autn, kasme) {
            (Some(rd), Some(x), Some(au), Some(k)) => Some(EpsAuthVector { rand: rd, xres: x, autn: au, kasme: k }),
            _ => None,
        }
    }
}

/// Optional arrays taken as sequences.
pub open spec fn opt_arr16(o: Option<[u8; 16]>) -> Option<Seq<u8>> {
    match o {
        Some(a) => Some(a@),
        None => None,
    }
}

pub open spec fn opt_arr8(o: Option<[u8; 8]>) -> Option<Seq<u8>> {
    match o {
        Some(a) => Some(a@),
        None => None,
    }
}

pub open spec fn opt_arr32(o: Option<[u8; 32]>) -> Option<Seq<u8>> {
    match o {
        Some(a) => Some(a@),
        None => None,
    }
}

/// Decoding a run of well-formed AVPs up to the first malformed one decodes them all.
pub proof fn lemma_parse_prefix_of_parse(s: Seq<u8>)
    requires
        avps_parse(s) is Some,
    ensures
        avps_parse_prefix(s) == avps_parse(s).unwrap(),
    decreases s.len(),
{
    if s.len() > 0 {
        let (a, n) = crate::diameter::avp_parse(s).unwrap();
        lemma_parse_prefix_of_parse(s.skip(n));
    }
}

/// A vector survives its E-UTRAN-Vector AVP: reading the AVP's data gives back RAND,
/// XRES, AUTN and KASME.
pub proof fn lemma_vector_roundtrip(v: EpsAuthVector)
    ensures
        vector_parse(vector_avp(v).data) == Some((v.rand@, v.xres@, v.autn@, v.kasme@)),
{
    let l = vector_inner(v.rand@, v.xres@, v.autn@, v.kasme@);
    assert(0xC0u8 & 0x80u8 != 0) by (bit_vector);
    assert forall|i: int| 0 <= i < l.len() implies avp_wf(#[trigger] l[i]) by {}
    lemma_avps_roundtrip(l);
    lemma_parse_prefix_of_parse(avps_bytes(l));
    assert(l.drop_last() =~= seq![l[0], l[1], l[2]]);
    assert(l.drop_last().drop_last() =~= seq![l[0], l[1]]);
    assert(l.drop_last().drop_last().drop_last() =~= seq![l[0]]);
    assert(seq![l[0]].drop_last() =~= Seq::<AvpModel>::empty());
    assert(v.rand@.len() == 16 && v.xres@.len() == 8 && v.autn@.len() == 16 && v.kasme@.len() == 32);
    let l3 = l.drop_last();
    let l2 = l3.drop_last();
    let l1 = l2.drop_last();
    assert(last_sized(l, AVP_KASME, 32) == Some(v.kasme@));
    assert(last_sized(l3, AVP_AUTN, 16) == Some(v.autn@));
    assert(last_sized(l, AVP_AUTN, 16) == Some(v.autn@));
    assert(last_sized(l2, AVP_XRES, 8) == Some(v.xres@));
    assert(last_sized(l3, AVP_XRES, 8) == Some(v.xres@));
    assert(last_sized(l, AVP_XRES, 8) == Some(v.xres@));
    assert(last_sized(l1, AVP_RAND, 16) == Some(v.rand@));
    assert(last_sized(l2, AVP_RAND, 16) == Some(v.rand@));
    assert(last_sized(l3, AVP_RAND, 16) == Some(v.rand@));
    assert(last_sized(l, AVP_RAND, 16) == Some(v.rand@));
}

/// A subscriber profile of the HSS.
#[derive(Debug, Clone, PartialEq, Eq)]
pub struct HssSubscriberProfile {
    pub imsi: String,
    pub msisdn: String,
    pub default_apn: String,
    pub subscribed_ambr_ul_kbps: u32,
    pub subscribed_ambr_dl_kbps: u32,
    pub registered_mme: Option<String>,
}

/// The HSS side of S6a: profiles by IMSI, and how many vectors and location updates it
/// has served.
#[derive(Debug, Clone)]
pub struct HssS6aEngine {
    pub hss_realm: String,
    pub subscribers: StrTable<HssSubscriberProfile>,
    pub auth_vectors_generated_count: usize,
    pub location_updates_count: usize,
}

/// The RAND of the `count`-th vector for a PLMN: the count's low octet, the PLMN, then
/// twelve octets 0x5A.
pub open spec fn air_rand(count: usize, plmn: Seq<u8>) -> Seq<u8> {
    seq![(count % 256) as u8] + plmn + Seq::new(12, |i: int| 0x5Au8)
}

/// The XRES for a RAND: its first octet XOR 0x3C, then seven octets 0xAA.
pub open spec fn air_xres(rand0: u8) -> Seq<u8> {
    seq![rand0 ^ 0x3Cu8] + Seq::new(7, |i: int| 0xAAu8)
}

/// The AUTN: 0x90, then fifteen octets 0x80.
pub open spec fn air_autn() -> Seq<u8> {
    seq![0x90u8] + Seq::new(15, |i: int| 0x80u8)
}

/// The KASME for a RAND: the RAND, then sixteen octets 0xEE.
pub open spec fn air_kasme(rand: Seq<u8>) -> Seq<u8> {
    rand + Seq::new(16, |i: int| 0xEEu8)
}

/// The AVPs of an Authentication-Information-Answer for `imsi` carrying one vector.
pub open spec fn aia_avps(imsi: Seq<char>, rand: Seq<u8>, xres: Seq<u8>, autn: Seq<u8>, kasme: Seq<u8>) -> Seq<AvpModel> {
    seq![
        text_avp_of(AVP_USER_NAME, imsi),
        mandatory_avp(268, u32_bytes(DIAMETER_SUCCESS)),
        gx_avp(AVP_AUTHENTICATION_INFO, avp_bytes(gx_avp(AVP_E_UTRAN_VECTOR, avps_bytes(vector_inner(rand, xres, autn, kasme))))),
    ]
}

/// The header of an S6a answer.
pub open spec fn s6a_answer_header(command_code: u32) -> crate::diameter::DiameterHeader {
    crate::diameter::DiameterHeader {
        version: 1,
        length: 0,
        flags: crate::diameter::DIAMETER_FLAG_PROXIABLE,
        command_code,
        application_id: DIAMETER_APPLICATION_S6A,
        hop_by_hop_id: 1,
        end_to_end_id: 1,
    }
}

impl HssS6aEngine {
    pub fn new(hss_realm: &str) -> (r: Self)
        ensures
            r.subscribers.wf(),
            r.hss_realm@ == hss_realm@,
            r.subscribers@ == Map::<Seq<char>, HssSubscriberProfile>::empty(),
            r.auth_vectors_generated_count == 0,
            r.location_updates_count == 0,
    {
        HssS6aEngine {
            hss_realm: owned(hss_realm),
            subscribers: StrTable::new(),
            auth_vectors_generated_count: 0,
            location_updates_count: 0,
        }
    }

    /// Stores a profile under its IMSI, in place of any before.
    pub fn provision_subscriber(&mut self, profile: HssSubscriberProfile)
        requires
            old(self).subscribers.wf(),
        ensures
            final(self).subscribers.wf(),
            final(self).subscribers@ == old(self).subscribers@.insert(profile.imsi@, profile),
            final(self).hss_realm == old(self).hss_realm,
            final(self).auth_vectors_generated_count == old(self).auth_vectors_generated_count,
            final(self).location_updates_count == old(self).location_updates_count,
    {
        let key = profile.imsi.clone();
        self.subscribers.insert(key, profile);
    }

    /// Answers an Authentication-Information-Request for a known IMSI with one vector,
    /// made from the number of vectors served so far (counting this one) and the PLMN
    /// (see `air_rand` and the functions after it). An unknown IMSI gets no answer, and
    /// nothing changes.
    pub fn handle_auth_info_request(&mut self, imsi: &str, plmn: &[u8; 3]) -> (r: Option<DiameterMessage>)
        requires
            old(self).subscribers.wf(),
            old(self).auth_vectors_generated_count < usize::MAX,
        ensures
            final(self).subscribers == old(self).subscribers,
            final(self).hss_realm == old(self).hss_realm,
            final(self).location_updates_count == old(self).location_updates_count,
            !old(self).subscribers@.dom().contains(imsi@) ==> r is None && final(self).auth_vectors_generated_count
                == old(self).auth_vectors_generated_count,
            old(self).subscribers@.dom().contains(imsi@) ==> (r matches Some(m) && {
                let n = (old(self).auth_vectors_generated_count + 1) as usize;
                let rand = air_rand(n, plmn@);
                &&& final(self).auth_vectors_generated_count == n
                &&& m.header == s6a_answer_header(DIAMETER_CMD_AUTH_INFO)
                &&& m@.avps == aia_avps(imsi@, rand, air_xres(rand[0]), air_autn(), air_kasme(rand))
            }),
    {
        if !self.subscribers.contains_key(imsi) {
            return None;
        }
        self.auth_vectors_generated_count = self.auth_vectors_generated_count + 1;
        let n = self.auth_vectors_generated_count;
        let mut rand = [0x5Au8; 16];
        rand[0] = (n & 0xFF) as u8;
        rand[1] = plmn[0];
        rand[2] = plmn[1];
        rand[3] = plmn[2];
        let mut xres = [0xAAu8; 8];
        xres[0] = rand[0] ^ 0x3C;
        let mut autn = [0x80u8; 16];
        autn[0] = 0x90;
        let mut kasme = [0xEEu8; 32];
        let mut i: usize = 0;
        while i < 16
            invariant
                i <= 16,
                forall|j: int| 16 <= j < 32 ==> kasme@[j] == 0xEEu8,
                forall|j: int| 0 <= j < i ==> kasme@[j] == rand@[j],
            decreases 16 - i,
        {
            kasme[i] = rand[i];
            i = i + 1;
        }
        proof {
            assert((n & 0xFF) as u8 == (n % 256) as u8) by (bit_vector);
            assert(rand@ =~= air_rand(n, plmn@));
            assert(xres@ =~= air_xres(rand@[0]));
            assert(autn@ =~= air_autn());
            assert(kasme@ =~= air_kasme(rand@));
        }
        let vector = EpsAuthVector::new(rand, xres, autn, kasme);
        let vector_avp = vector.to_grouped_avp();
        let data = vector_avp.serialize();
        let flags = DIAMETER_FLAG_MANDATORY | DIAMETER_FLAG_VENDOR_SPECIFIC;
        assert(DIAMETER_FLAG_MANDATORY | DIAMETER_FLAG_VENDOR_SPECIFIC == 0xC0u8) by (bit_vector);
        let auth_info = DiameterAvp::new_vendor(AVP_AUTHENTICATION_INFO, flags, VENDOR_3GPP, data.as_slice());
        let mut aia = DiameterMessage::new_answer(DIAMETER_CMD_AUTH_INFO, DIAMETER_APPLICATION_S6A, 1, 1);
        aia.add_avp(DiameterAvp::new_utf8(AVP_USER_NAME, imsi));
        aia.add_avp(DiameterAvp::new_u32(268, DIAMETER_SUCCESS));
        aia.add_avp(auth_info);
        assert(aia@.avps =~= aia_avps(imsi@, rand@, xres@, autn@, kasme@));
        Some(aia)
    }

    /// Answers an Update-Location-Request for a known IMSI: the MME is registered for it
    /// and the update counted. An unknown IMSI gets no answer, and nothing changes.
    pub fn handle_update_location_request(&mut self, imsi: &str, mme_host: &str) -> (r: Option<DiameterMessage>)
        requires
            old(self).subscribers.wf(),
            old(self).location_updates_count < usize::MAX,
        ensures
            final(self).subscribers.wf(),
            final(self).hss_realm == old(self).hss_realm,
            final(self).auth_vectors_generated_count == old(self).auth_vectors_generated_count,
            !old(self).subscribers@.dom().contains(imsi@) ==> r is None && *final(self) == *old(self),
            old(self).subscribers@.dom().contains(imsi@) ==> (r matches Some(m) && {
                let o = old(self).subscribers@[imsi@];
                let p = final(self).subscribers@[imsi@];
                &&& final(self).location_updates_count == old(self).location_updates_count + 1
                &&& final(self).subscribers@.dom() == old(self).subscribers@.dom()
                &&& forall|k: Seq<char>| k != imsi@ ==> #[trigger] final(self).subscribers@.get(k)
                    == old(self).subscribers@.get(k)
                &&& p == (HssSubscriberProfile { registered_mme: p.registered_mme, ..o })
                &&& p.registered_mme is Some
                &&& p.registered_mme.unwrap()@ == mme_host@
                &&& m.header == s6a_answer_header(DIAMETER_CMD_UPDATE_LOCATION)
                &&& m@.avps == seq![text_avp_of(AVP_USER_NAME, imsi@), mandatory_avp(268, u32_bytes(DIAMETER_SUCCESS))]
            }),
    {
        if !self.subscribers.contains_key(imsi) {
            return None;
        }
        match self.subscribers.remove(imsi) {
            Some(mut sub) => {
                sub.registered_mme = Some(owned(mme_host));
                self.subscribers.insert(owned(imsi), sub);
            },
            None => {},
        }
        assert(self.subscribers@.dom() =~= old(self).subscribers@.dom());
        self.location_updates_count = self.location_updates_count + 1;
        let mut ula = DiameterMessage::new_answer(DIAMETER_CMD_UPDATE_LOCATION, DIAMETER_APPLICATION_S6A, 1, 1);
        ula.add_avp(DiameterAvp::new_utf8(AVP_USER_NAME, imsi));
        ula.add_avp(DiameterAvp::new_u32(268, DIAMETER_SUCCESS));
        assert(ula@.avps =~= seq![text_avp_of(AVP_USER_NAME, imsi@), mandatory_avp(268, u32_bytes(DIAMETER_SUCCESS))]);
        Some(ula)
    }
}

} // verus!
