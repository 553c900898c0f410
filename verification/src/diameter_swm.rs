//! SWm (ePDG to 3GPP AAA server): EAP authentication of untrusted non-3GPP access.
use vstd::prelude::*;
use crate::table::{StrTable, map_get};

verus! {

pub const DIAMETER_APPLICATION_SWM: u32 = 16777264;
pub const DIAMETER_CMD_EAP: u32 = 268;
pub const AVP_USER_NAME: u32 = 1;
pub const AVP_RESULT_CODE: u32 = 268;
pub const AVP_EAP_PAYLOAD: u32 = 462;
pub const AVP_EAP_MASTER_SESSION_KEY: u32 = 464;
pub const AVP_ANID: u32 = 1500;

#[derive(Debug, Clone, PartialEq, Eq)]
pub enum SwmAvp {
    UserName(String),
    Anid(String),
    EapPayload(Vec<u8>),
    EapMasterSessionKey(Vec<u8>),
    ResultCode(u32),
}

#[derive(Debug, Clone, PartialEq, Eq)]
pub struct SwmMessage {
    pub command_code: u32,
    pub is_request: bool,
    pub application_id: u32,
    pub session_id: String,
    pub avps: Vec<SwmAvp>,
}

/// An answer to `req`: same command, application and session.
pub open spec fn answers(r: SwmMessage, req: SwmMessage) -> bool {
    &&& r.command_code == req.command_code
    &&& !r.is_request
    &&& r.application_id == req.application_id
    &&& r.session_id@ == req.session_id@
}

impl SwmMessage {
    /// A Diameter-EAP-Request: User-Name, ANID and the EAP payload.
    pub fn new_der(session_id: &str, user_name: &str, anid: &str, eap_payload: Vec<u8>) -> (r: Self)
        ensures
            r.command_code == DIAMETER_CMD_EAP,
            r.is_request,
            r.application_id == DIAMETER_APPLICATION_SWM,
            r.session_id@ == session_id@,
            r.avps@.len() == 3,
            r.avps@[0] matches SwmAvp::UserName(u) && u@ == user_name@,
            r.avps@[1] matches SwmAvp::Anid(a) && a@ == anid@,
            r.avps@[2] == SwmAvp::EapPayload(eap_payload),
    {
        SwmMessage {
            command_code: DIAMETER_CMD_EAP,
            is_request: true,
            application_id: DIAMETER_APPLICATION_SWM,
            session_id: session_id.to_owned(),
            avps: vec![SwmAvp::UserName(user_name.to_owned()), SwmAvp::Anid(anid.to_owned()), SwmAvp::EapPayload(eap_payload)],
        }
    }

    /// The answer to `req` with one Result-Code.
    pub fn new_dea(req: &SwmMessage, result_code: u32) -> (r: Self)
        ensures
            answers(r, *req),
            r.avps@ == seq![SwmAvp::ResultCode(result_code)],
    {
        SwmMessage {
            command_code: req.command_code,
            is_request: false,
            application_id: req.application_id,
            session_id: req.session_id.clone(),
            avps: vec![SwmAvp::ResultCode(result_code)],
        }
    }

    pub fn add_avp(&mut self, avp: SwmAvp)
        ensures
            final(self).avps@ == old(self).avps@.push(avp),
            final(self).command_code == old(self).command_code,
            final(self).is_request == old(self).is_request,
            final(self).application_id == old(self).application_id,
            final(self).session_id == old(self).session_id,
    {
        self.avps.push(avp);
    }
}

/// The first User-Name.
pub open spec fn first_user_name(avps: Seq<SwmAvp>) -> Option<Seq<char>>
    decreases avps.len(),
{
    if avps.len() == 0 {
        None
    } else if let SwmAvp::UserName(s) = avps[0] {
        Some(s@)
    } else {
        first_user_name(avps.skip(1))
    }
}

/// The first EAP payload.
pub open spec fn first_payload(avps: Seq<SwmAvp>) -> Option<Seq<u8>>
    decreases avps.len(),
{
    if avps.len() == 0 {
        None
    } else if let SwmAvp::EapPayload(p) = avps[0] {
        Some(p@)
    } else {
        first_payload(avps.skip(1))
    }
}

fn find_user_name(avps: &Vec<SwmAvp>) -> (r: Option<&String>)
    ensures
        match r {
            Some(s) => first_user_name(avps@) == Some(s@),
            None => first_user_name(avps@) is None,
        },
{
    let mut i: usize = 0;
    assert(avps@.skip(0) =~= avps@);
    while i < avps.len()
        invariant
            i <= avps@.len(),
            first_user_name(avps@) == first_user_name(avps@.skip(i as int)),
        decreases avps@.len() - i,
    {
        assert(avps@.skip(i as int)[0] == avps@[i as int]);
        assert(avps@.skip(i as int).skip(1) =~= avps@.skip(i + 1));
        if let SwmAvp::UserName(s) = &avps[i] {
            return Some(s);
        }
        i = i + 1;
    }
    None
}

fn find_payload(avps: &Vec<SwmAvp>) -> (r: Option<&Vec<u8>>)
    ensures
        match r {
            Some(p) => first_payload(avps@) == Some(p@),
            None => first_payload(avps@) is None,
        },
{
    let mut i: usize = 0;
    assert(avps@.skip(0) =~= avps@);
    while i < avps.len()
        invariant
            i <= avps@.len(),
            first_payload(avps@) == first_payload(avps@.skip(i as int)),
        decreases avps@.len() - i,
    {
        assert(avps@.skip(i as int)[0] == avps@[i as int]);
        assert(avps@.skip(i as int).skip(1) =~= avps@.skip(i + 1));
        if let SwmAvp::EapPayload(p) = &avps[i] {
            return Some(p);
        }
        i = i + 1;
    }
    None
}

#[derive(Debug, Clone)]
pub struct SwmSubscriberContext {
    pub imsi: String,
    pub shared_secret: Vec<u8>,
    pub msk: Vec<u8>,
    pub authenticated: bool,
}

/// The 64-octet master session key derived from a shared secret: octet `i` is the low octet
/// of 7i + 0x5A combined by exclusive or with the secret's octets taken cyclically.
pub open spec fn derived_msk(secret: Seq<u8>) -> Seq<u8> {
    Seq::new(64, |i: int| ((i * 7 + 0x5A) % 256) as u8 ^ secret[i % (secret.len() as int)])
}

#[derive(Debug, Clone)]
pub struct AaaSwmEngine {
    pub realm: String,
    pub subscribers: StrTable<SwmSubscriberContext>,
    pub active_sessions: StrTable<String>,
    pub successful_authentications: u64,
    pub failed_authentications: u64,
}

impl AaaSwmEngine {
    pub fn new(realm: &str) -> (r: Self)
        ensures
            r.realm@ == realm@,
            r.subscribers.wf(),
            r.active_sessions.wf(),
            r.subscribers@ == Map::<Seq<char>, SwmSubscriberContext>::empty(),
            r.active_sessions@ == Map::<Seq<char>, String>::empty(),
            r.successful_authentications == 0,
            r.failed_authentications == 0,
    {
        AaaSwmEngine {
            realm: realm.to_owned(),
            subscribers: StrTable::new(),
            active_sessions: StrTable::new(),
            successful_authentications: 0,
            failed_authentications: 0,
        }
    }

    /// Provisions `imsi` with its secret and the derived master session key, not yet
    /// authenticated.
    pub fn provision_subscriber(&mut self, imsi: &str, shared_secret: Vec<u8>)
        requires
            old(self).subscribers.wf(),
            shared_secret@.len() > 0,
        ensures
            final(self).subscribers.wf(),
            final(self).subscribers@.dom() == old(self).subscribers@.dom().insert(imsi@),
            forall|k: Seq<char>| k != imsi@ ==> #[trigger] final(self).subscribers@[k] == old(self).subscribers@[k],
            ({
                let c = final(self).subscribers@[imsi@];
                &&& c.imsi@ == imsi@
                &&& c.shared_secret@ == shared_secret@
                &&& c.msk@ == derived_msk(shared_secret@)
                &&& !c.authenticated
            }),
            final(self).active_sessions == old(self).active_sessions,
            final(self).successful_authentications == old(self).successful_authentications,
            final(self).failed_authentications == old(self).failed_authentications,
    {
        let mut msk: Vec<u8> = Vec::new();
        let n = shared_secret.len();
        let mut i: usize = 0;
        while i < 64
            invariant
                i <= 64,
                n == shared_secret@.len(),
                n > 0,
                msk@ == derived_msk(shared_secret@).subrange(0, i as int),
            decreases 64 - i,
        {
            let b: u8 = ((i * 7 + 0x5A) % 256) as u8;
            msk.push(b ^ shared_secret[i % n]);
            i = i + 1;
            assert(msk@ =~= derived_msk(shared_secret@).subrange(0, i as int));
        }
        assert(msk@ =~= derived_msk(shared_secret@));
        let ctx = SwmSubscriberContext { imsi: imsi.to_owned(), shared_secret, msk, authenticated: false };
        self.subscribers.insert(imsi.to_owned(), ctx);
    }

    /// Handles a Diameter-EAP-Request. Without a User-Name or payload: 5004. For an unknown
    /// user: 5001. For a payload that is not an EAP-Response (first octet 2): 5003. Otherwise the
    /// user is authenticated, the session is bound to it, and the answer carries 2001, an
    /// EAP-Success with the response's identifier, and the master session key.
    pub fn handle_der(&mut self, der: &SwmMessage) -> (r: SwmMessage)
        requires
            old(self).subscribers.wf(),
            old(self).active_sessions.wf(),
            old(self).successful_authentications < u64::MAX,
            old(self).failed_authentications < u64::MAX,
            match (first_user_name(der.avps@), first_payload(der.avps@)) {
                (Some(u), Some(p)) => old(self).subscribers@.dom().contains(u) && p.len() > 0 && p[0] == 2 ==> p.len() >= 2,
                _ => true,
            },
        ensures
            final(self).subscribers.wf(),
            final(self).active_sessions.wf(),
            final(self).realm == old(self).realm,
            answers(r, *der),
            match (first_user_name(der.avps@), first_payload(der.avps@)) {
                (Some(u), Some(p)) => if !old(self).subscribers@.dom().contains(u) {
                    &&& r.avps@ == seq![SwmAvp::ResultCode(5001)]
                    &&& final(self).failed_authentications == old(self).failed_authentications + 1
                    &&& final(self).successful_authentications == old(self).successful_authentications
                    &&& final(self).subscribers@ == old(self).subscribers@
                    &&& final(self).active_sessions@ == old(self).active_sessions@
                } else if p.len() == 0 || p[0] != 2 {
                    &&& r.avps@ == seq![SwmAvp::ResultCode(5003)]
                    &&& final(self).failed_authentications == old(self).failed_authentications + 1
                    &&& final(self).successful_authentications == old(self).successful_authentications
                    &&& final(self).subscribers@ == old(self).subscribers@
                    &&& final(self).active_sessions@ == old(self).active_sessions@
                } else {
                    let c = old(self).subscribers@[u];
                    &&& r.avps@.len() == 3
                    &&& r.avps@[0] == SwmAvp::ResultCode(2001)
                    &&& r.avps@[1] matches SwmAvp::EapPayload(e) && e@ == seq![3u8, p[1], 0u8, 4u8]
                    &&& r.avps@[2] matches SwmAvp::EapMasterSessionKey(k) && k@ == c.msk@
                    &&& final(self).successful_authentications == old(self).successful_authentications + 1
                    &&& final(self).failed_authentications == old(self).failed_authentications
                    &&& final(self).subscribers@ == old(self).subscribers@.insert(u, SwmSubscriberContext { authenticated: true, ..c })
                    &&& final(self).active_sessions@.dom() == old(self).active_sessions@.dom().insert(der.session_id@)
                    &&& final(self).active_sessions@[der.session_id@]@ == u
                    &&& forall|k: Seq<char>| k != der.session_id@ ==> #[trigger] final(self).active_sessions@[k] == old(self).active_sessions@[k]
                },
                _ => {
                    &&& r.avps@ == seq![SwmAvp::ResultCode(5004)]
                    &&& final(self).failed_authentications == old(self).failed_authentications + 1
                    &&& final(self).successful_authentications == old(self).successful_authentications
                    &&& final(self).subscribers@ == old(self).subscribers@
                    &&& final(self).active_sessions@ == old(self).active_sessions@
                },
            },
    {
        let user = find_user_name(&der.avps);
        let payload = find_payload(&der.avps);
        match (user, payload) {
            (Some(u), Some(p)) => {
                let imsi = u.clone();
                match self.subscribers.remove(imsi.as_str()) {
                    None => {
                        self.failed_authentications = self.failed_authentications + 1;
                        SwmMessage::new_dea(der, 5001)
                    },
                    Some(ctx) => {
                        if p.len() != 0 && p[0] == 0x02 {
                            let id = p[1];
                            let mut ctx = ctx;
                            ctx.authenticated = true;
                            let msk = ctx.msk.clone();
                            self.subscribers.insert(imsi.clone(), ctx);
                            self.successful_authentications = self.successful_authentications + 1;
                            self.active_sessions.insert(der.session_id.clone(), imsi);
                            let mut dea = SwmMessage::new_dea(der, 2001);
                            dea.add_avp(SwmAvp::EapPayload(vec![0x03, id, 0x00, 0x04]));
                            dea.add_avp(SwmAvp::EapMasterSessionKey(msk));
                            dea
                        } else {
                            self.subscribers.insert(imsi, ctx);
                            proof {
                                assert(self.subscribers@ =~= old(self).subscribers@);
                            }
                            self.failed_authentications = self.failed_authentications + 1;
                            SwmMessage::new_dea(der, 5003)
                        }
                    },
                }
            },
            _ => {
                self.failed_authentications = self.failed_authentications + 1;
                SwmMessage::new_dea(der, 5004)
            },
        }
    }
}

} // verus!
