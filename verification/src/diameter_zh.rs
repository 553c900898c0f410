//! Zh (BSF to HSS, Generic Bootstrapping Architecture): authentication vectors and user
//! security settings for bootstrapping, and the derivation of NAF keys.
use vstd::prelude::*;
use vstd::utf8::encode_utf8;
use crate::table::{StrTable, map_get};

verus! {

pub const DIAMETER_APPLICATION_ZH: u32 = 16777221;
pub const DIAMETER_CMD_MULTIMEDIA_AUTH: u32 = 303;
pub const AVP_USER_NAME: u32 = 1;
pub const AVP_RESULT_CODE: u32 = 268;
pub const AVP_GBA_USER_SEC_SETTINGS: u32 = 400;
pub const AVP_GBA_TYPE: u32 = 404;
pub const AVP_SIP_AUTH_DATA_ITEM: u32 = 612;

#[derive(Debug, Clone, Copy, PartialEq, Eq, Structural)]
pub enum GbaType {
    Gba3G,
    Gba2G,
}

#[derive(Debug, Clone, PartialEq, Eq)]
pub struct GbaAuthVector {
    pub rand: [u8; 16],
    pub autn: [u8; 16],
    pub ck: [u8; 16],
    pub ik: [u8; 16],
}

#[derive(Debug, Clone, PartialEq, Eq)]
pub enum ZhAvp {
    UserName(String),
    GbaType(GbaType),
    GbaUserSecSettings(String),
    AuthVector(GbaAuthVector),
    ResultCode(u32),
}

#[derive(Debug, Clone, PartialEq, Eq)]
pub struct ZhMessage {
    pub command_code: u32,
    pub is_request: bool,
    pub application_id: u32,
    pub session_id: String,
    pub avps: Vec<ZhAvp>,
}

/// The first User-Name.
pub open spec fn first_user_name(avps: Seq<ZhAvp>) -> Option<Seq<char>>
    decreases avps.len(),
{
    if avps.len() == 0 {
        None
    } else if let ZhAvp::UserName(s) = avps[0] {
        Some(s@)
    } else {
        first_user_name(avps.skip(1))
    }
}

fn find_user_name(avps: &Vec<ZhAvp>) -> (r: Option<&String>)
    ensures
        match r {
            Some(s) => first_user_name(avps@) == Some(s@),
            None => first_user_name(avps@) is None,
        },
{
    let mut i: usize = 0;
    assert(avps@.skip(0) =~= avps@);
    while i < avps.len()
        invariant
            i <= avps@.len(),
            first_user_name(avps@) == first_user_name(avps@.skip(i as int)),
        decreases avps@.len() - i,
    {
        assert(avps@.skip(i as int)[0] == avps@[i as int]);
        assert(avps@.skip(i as int).skip(1) =~= avps@.skip(i + 1));
        if let ZhAvp::UserName(s) = &avps[i] {
            return Some(s);
        }
        i = i + 1;
    }
    None
}

/// An answer to `req`: same command, application and session.
pub open spec fn answers(r: ZhMessage, req: ZhMessage) -> bool {
    &&& r.command_code == req.command_code
    &&& !r.is_request
    &&& r.application_id == req.application_id
    &&& r.session_id@ == req.session_id@
}

impl ZhMessage {
    /// A Multimedia-Auth-Request for `imsi` with the GBA type.
    pub fn new_mar(session_id: &str, imsi: &str, gba_type: GbaType) -> (r: Self)
        ensures
            r.command_code == DIAMETER_CMD_MULTIMEDIA_AUTH,
            r.is_request,
            r.application_id == DIAMETER_APPLICATION_ZH,
            r.session_id@ == session_id@,
            r.avps@.len() == 2,
            r.avps@[0] matches ZhAvp::UserName(u) && u@ == imsi@,
            r.avps@[1] == ZhAvp::GbaType(gba_type),
    {
        ZhMessage {
            command_code: DIAMETER_CMD_MULTIMEDIA_AUTH,
            is_request: true,
            application_id: DIAMETER_APPLICATION_ZH,
            session_id: session_id.to_owned(),
            avps: vec![ZhAvp::UserName(imsi.to_owned()), ZhAvp::GbaType(gba_type)],
        }
    }

    /// The answer to `req` with one Result-Code.
    pub fn new_maa(req: &ZhMessage, result_code: u32) -> (r: Self)
        ensures
            answers(r, *req),
            r.avps@ == seq![ZhAvp::ResultCode(result_code)],
    {
        ZhMessage {
            command_code: req.command_code,
            is_request: false,
            application_id: req.application_id,
            session_id: req.session_id.clone(),
            avps: vec![ZhAvp::ResultCode(result_code)],
        }
    }

    pub fn add_avp(&mut self, avp: ZhAvp)
        ensures
            final(self).avps@ == old(self).avps@.push(avp),
            final(self).command_code == old(self).command_code,
            final(self).is_request == old(self).is_request,
            final(self).application_id == old(self).application_id,
            final(self).session_id == old(self).session_id,
    {
        self.avps.push(avp);
    }
}

#[derive(Debug, Clone)]
pub struct GbaSubscriberProfile {
    pub imsi: String,
    pub guss_xml: String,
    pub auth_vector: GbaAuthVector,
}

#[derive(Debug, Clone)]
pub struct BsfZhEngine {
    pub hss_realm: String,
    pub subscribers: StrTable<GbaSubscriberProfile>,
    pub total_mar_requests: u64,
    pub successful_bootstraps: u64,
}

/// The NAF key: the cipher key and the integrity key, each octet combined by exclusive or with
/// the NAF identifier's octets taken cyclically (the integrity half one octet further on).
pub open spec fn ks_naf(ck: Seq<u8>, ik: Seq<u8>, naf: Seq<u8>) -> Seq<u8> {
    Seq::new(32, |k: int| if k < 16 {
        ck[k] ^ naf[k % (naf.len() as int)]
    } else {
        ik[k - 16] ^ naf[(k - 16 + 1) % (naf.len() as int)]
    })
}

fn copy_vector(v: &GbaAuthVector) -> (r: GbaAuthVector)
    ensures
        r == *v,
{
    GbaAuthVector { rand: v.rand, autn: v.autn, ck: v.ck, ik: v.ik }
}

impl BsfZhEngine {
    pub fn new(hss_realm: &str) -> (r: Self)
        ensures
            r.hss_realm@ == hss_realm@,
            r.subscribers.wf(),
            r.subscribers@ == Map::<Seq<char>, GbaSubscriberProfile>::empty(),
            r.total_mar_requests == 0,
            r.successful_bootstraps == 0,
    {
        BsfZhEngine {
            hss_realm: hss_realm.to_owned(),
            subscribers: StrTable::new(),
            total_mar_requests: 0,
            successful_bootstraps: 0,
        }
    }

    /// Stores the subscriber's security settings and vector under `imsi`.
    pub fn register_subscriber(&mut self, imsi: &str, guss_xml: &str, vector: GbaAuthVector)
        requires
            old(self).subscribers.wf(),
        ensures
            final(self).subscribers.wf(),
            final(self).subscribers@.dom() == old(self).subscribers@.dom().insert(imsi@),
            final(self).subscribers@[imsi@].imsi@ == imsi@,
            final(self).subscribers@[imsi@].guss_xml@ == guss_xml@,
            final(self).subscribers@[imsi@].auth_vector == vector,
            forall|k: Seq<char>| k != imsi@ ==> #[trigger] final(self).subscribers@[k] == old(self).subscribers@[k],
            final(self).total_mar_requests == old(self).total_mar_requests,
            final(self).successful_bootstraps == old(self).successful_bootstraps,
    {
        let p = GbaSubscriberProfile { imsi: imsi.to_owned(), guss_xml: guss_xml.to_owned(), auth_vector: vector };
        self.subscribers.insert(imsi.to_owned(), p);
    }

    /// Answers a bootstrapping MAR: for the subscriber named by the first User-Name (the empty
    /// name when none), 2001 with its security settings and vector; otherwise 5001.
    pub fn handle_mar(&mut self, mar: &ZhMessage) -> (r: ZhMessage)
        requires
            old(self).subscribers.wf(),
            old(self).total_mar_requests < u64::MAX,
            old(self).successful_bootstraps < u64::MAX,
        ensures
            final(self).subscribers == old(self).subscribers,
            final(self).total_mar_requests == old(self).total_mar_requests + 1,
            answers(r, *mar),
            ({
                let user = match first_user_name(mar.avps@) {
                    Some(u) => u,
                    None => Seq::<char>::empty(),
                };
                match map_get(old(self).subscribers@, user) {
                    Some(p) => {
                        &&& r.avps@.len() == 3
                        &&& r.avps@[0] == ZhAvp::ResultCode(2001)
                        &&& r.avps@[1] matches ZhAvp::GbaUserSecSettings(g) && g@ == p.guss_xml@
                        &&& r.avps@[2] == ZhAvp::AuthVector(p.auth_vector)
                        &&& final(self).successful_bootstraps == old(self).successful_bootstraps + 1
                    },
                    None => {
                        &&& r.avps@ == seq![ZhAvp::ResultCode(5001)]
                        &&& final(self).successful_bootstraps == old(self).successful_bootstraps
                    },
                }
            }),
    {
        self.total_mar_requests = self.total_mar_requests + 1;
        proof {
            assert(""@ =~= Seq::<char>::empty()) by {
                reveal_strlit("");
            }
        }
        let found = match find_user_name(&mar.avps) {
            Some(u) => self.subscribers.get(u.as_str()),
            None => self.subscribers.get(""),
        };
        match found {
            Some(sub) => {
                let guss = sub.guss_xml.clone();
                let v = copy_vector(&sub.auth_vector);
                self.successful_bootstraps = self.successful_bootstraps + 1;
                let mut maa = ZhMessage::new_maa(mar, 2001);
                maa.add_avp(ZhAvp::GbaUserSecSettings(guss));
                maa.add_avp(ZhAvp::AuthVector(v));
                maa
            },
            None => ZhMessage::new_maa(mar, 5001),
        }
    }

    /// The NAF key for `imsi` and `naf_id` (see `ks_naf`); none for an unknown subscriber.
    pub fn derive_ks_naf(&self, imsi: &str, naf_id: &str) -> (r: Option<[u8; 32]>)
        requires
            self.subscribers.wf(),
            self.subscribers@.dom().contains(imsi@) ==> encode_utf8(naf_id@).len() > 0,
        ensures
            match map_get(self.subscribers@, imsi@) {
                Some(p) => r matches Some(k) && k@ == ks_naf(p.auth_vector.ck@, p.auth_vector.ik@, encode_utf8(naf_id@)),
                None => r is None,
            },
    {
        let sub = match self.subscribers.get(imsi) {
            Some(s) => s,
            None => {
                return None;
            },
        };
        let b = naf_id.as_bytes();
        let n = b.len();
        let mut key: [u8; 32] = [0u8; 32];
        let mut i: usize = 0;
        while i < 16
            invariant
                i <= 16,
                n == b@.len(),
                n > 0,
                b@ == encode_utf8(naf_id@),
                forall|k: int| 0 <= k < i ==> key@[k] == ks_naf(sub.auth_vector.ck@, sub.auth_vector.ik@, b@)[k],
                forall|k: int| 16 <= k < 16 + i ==> key@[k] == ks_naf(sub.auth_vector.ck@, sub.auth_vector.ik@, b@)[k],
            decreases 16 - i,
        {
            key[i] = sub.auth_vector.ck[i] ^ b[i % n];
            key[i + 16] = sub.auth_vector.ik[i] ^ b[(i + 1) % n];
            i = i + 1;
        }
        assert(key@ =~= ks_naf(sub.auth_vector.ck@, sub.auth_vector.ik@, b@));
        Some(key)
    }
}

} // verus!
