//! Cx/Dx (I-CSCF and S-CSCF to HSS): user authorization, multimedia authentication and
//! server assignment.
use vstd::prelude::*;
use vstd::utf8::encode_utf8;
use crate::table::StrTable;
use crate::diameter_s6b::{field_bytes, field_bytes_tail, push_text_field};
use crate::wire::{push_u16, push_u32, push_all, u16_bytes, u32_bytes};

verus! {

pub const DIAMETER_APP_CX: u32 = 16777216;
pub const CMD_UAR: u32 = 300;
pub const CMD_MAR: u32 = 303;
pub const CMD_SAR: u32 = 301;
pub const AVP_PUBLIC_IDENTITY: u32 = 601;
pub const AVP_SERVER_NAME: u32 = 602;
pub const AVP_SIP_AUTH_DATA_ITEM: u32 = 612;
pub const AVP_SIP_NUMBER_AUTH_ITEMS: u32 = 607;
pub const AVP_USER_AUTHORIZATION_TYPE: u32 = 623;
pub const AVP_SERVER_ASSIGNMENT_TYPE: u32 = 614;

/// User-Authorization-Type (AVP 623).
#[derive(Debug, Clone, Copy, PartialEq, Eq, Structural)]
pub enum UserAuthorizationType {
    Registration,
    DeRegistration,
    RegistrationAndCapabilities,
}

pub open spec fn uat_code(t: UserAuthorizationType) -> u32 {
    match t {
        UserAuthorizationType::Registration => 0,
        UserAuthorizationType::DeRegistration => 1,
        UserAuthorizationType::RegistrationAndCapabilities => 2,
    }
}

impl UserAuthorizationType {
    pub fn as_u32(self) -> (r: u32)
        ensures
            r == uat_code(self),
    {
        match self {
            Self::Registration => 0,
            Self::DeRegistration => 1,
            Self::RegistrationAndCapabilities => 2,
        }
    }

    pub fn from_u32(v: u32) -> (r: Option<Self>)
        ensures
            match r {
                Some(t) => uat_code(t) == v,
                None => v > 2,
            },
    {
        match v {
            0 => Some(Self::Registration),
            1 => Some(Self::DeRegistration),
            2 => Some(Self::RegistrationAndCapabilities),
            _ => None,
        }
    }
}

/// Server-Assignment-Type (AVP 614).
#[derive(Debug, Clone, Copy, PartialEq, Eq, Structural)]
pub enum ServerAssignmentType {
    NoAssignment,
    Registration,
    ReRegistration,
    UnregisteredUser,
    TimeoutDeregistration,
    UserDeregistration,
    TimeoutDeregStoreSrvName,
    UserDeregStoreSrvName,
    AdminDeregistration,
    AuthenticationFailure,
    AuthenticationTimeout,
    Deregistration,
}

pub open spec fn sat_code(t: ServerAssignmentType) -> u32 {
    match t {
        ServerAssignmentType::NoAssignment => 0,
        ServerAssignmentType::Registration => 1,
        ServerAssignmentType::ReRegistration => 2,
        ServerAssignmentType::UnregisteredUser => 3,
        ServerAssignmentType::TimeoutDeregistration => 4,
        ServerAssignmentType::UserDeregistration => 5,
        ServerAssignmentType::TimeoutDeregStoreSrvName => 6,
        ServerAssignmentType::UserDeregStoreSrvName => 7,
        ServerAssignmentType::AdminDeregistration => 8,
        ServerAssignmentType::AuthenticationFailure => 9,
        ServerAssignmentType::AuthenticationTimeout => 10,
        ServerAssignmentType::Deregistration => 11,
    }
}

impl ServerAssignmentType {
    pub fn as_u32(self) -> (r: u32)
        ensures
            r == sat_code(self),
    {
        match self {
            Self::NoAssignment => 0,
            Self::Registration => 1,
            Self::ReRegistration => 2,
            Self::UnregisteredUser => 3,
            Self::TimeoutDeregistration => 4,
            Self::UserDeregistration => 5,
            Self::TimeoutDeregStoreSrvName => 6,
            Self::UserDeregStoreSrvName => 7,
            Self::AdminDeregistration => 8,
            Self::AuthenticationFailure => 9,
            Self::AuthenticationTimeout => 10,
            Self::Deregistration => 11,
        }
    }

    pub fn from_u32(v: u32) -> (r: Option<Self>)
        ensures
            match r {
                Some(t) => sat_code(t) == v,
                None => v > 11,
            },
    {
        match v {
            0 => Some(Self::NoAssignment),
            1 => Some(Self::Registration),
            2 => Some(Self::ReRegistration),
            3 => Some(Self::UnregisteredUser),
            4 => Some(Self::TimeoutDeregistration),
            5 => Some(Self::UserDeregistration),
            6 => Some(Self::TimeoutDeregStoreSrvName),
            7 => Some(Self::UserDeregStoreSrvName),
            8 => Some(Self::AdminDeregistration),
            9 => Some(Self::AuthenticationFailure),
            10 => Some(Self::AuthenticationTimeout),
            11 => Some(Self::Deregistration),
            _ => None,
        }
    }
}

#[derive(Debug, Clone, PartialEq, Eq)]
pub enum CxAvp {
    PublicIdentity(String),
    ServerName(String),
    UserAuthorizationType(UserAuthorizationType),
    ServerAssignmentType(ServerAssignmentType),
    SipNumberAuthItems(u32),
    SipAuthDataItem { auth_scheme: String, auth_data: Vec<u8> },
    ResultCode(u32),
}

#[derive(Debug, Clone)]
pub struct CxMessage {
    pub command_code: u32,
    pub is_request: bool,
    pub application_id: u32,
    pub hop_by_hop: u32,
    pub end_to_end: u32,
    pub session_id: String,
    pub avps: Vec<CxAvp>,
}

/// The encoding of one AVP.
pub open spec fn cx_avp_bytes(a: CxAvp) -> Seq<u8> {
    match a {
        CxAvp::PublicIdentity(s) => field_bytes(AVP_PUBLIC_IDENTITY, encode_utf8(s@)),
        CxAvp::ServerName(s) => field_bytes(AVP_SERVER_NAME, encode_utf8(s@)),
        CxAvp::UserAuthorizationType(t) => u32_bytes(AVP_USER_AUTHORIZATION_TYPE) + u16_bytes(2) + u16_bytes(uat_code(t) as u16),
        CxAvp::ServerAssignmentType(t) => u32_bytes(AVP_SERVER_ASSIGNMENT_TYPE) + u16_bytes(2) + u16_bytes(sat_code(t) as u16),
        CxAvp::SipNumberAuthItems(n) => u32_bytes(AVP_SIP_NUMBER_AUTH_ITEMS) + u16_bytes(4) + u32_bytes(n),
        CxAvp::SipAuthDataItem { auth_scheme, auth_data } => {
            let sb = encode_utf8(auth_scheme@);
            u32_bytes(AVP_SIP_AUTH_DATA_ITEM) + u16_bytes(((4 + sb.len() + auth_data@.len()) % 65536) as u16)
                + field_bytes_tail(sb) + field_bytes_tail(auth_data@)
        },
        CxAvp::ResultCode(c) => u32_bytes(268) + u16_bytes(4) + u32_bytes(c),
    }
}

pub open spec fn cx_avps_bytes(avps: Seq<CxAvp>) -> Seq<u8>
    decreases avps.len(),
{
    if avps.len() == 0 {
        Seq::empty()
    } else {
        cx_avps_bytes(avps.drop_last()) + cx_avp_bytes(avps.last())
    }
}

/// The encoding of a message: command, request flag, application, hop-by-hop and end-to-end
/// identifiers, the session, then the AVPs.
pub open spec fn cx_bytes(m: CxMessage) -> Seq<u8> {
    u32_bytes(m.command_code) + seq![if m.is_request { 0x80u8 } else { 0x00u8 }] + u32_bytes(m.application_id)
        + u32_bytes(m.hop_by_hop) + u32_bytes(m.end_to_end) + field_bytes_tail(encode_utf8(m.session_id@))
        + cx_avps_bytes(m.avps@)
}

/// The first Public-Identity.
pub open spec fn first_public_identity(avps: Seq<CxAvp>) -> Option<Seq<char>>
    decreases avps.len(),
{
    if avps.len() == 0 {
        None
    } else if let CxAvp::PublicIdentity(s) = avps[0] {
        Some(s@)
    } else {
        first_public_identity(avps.skip(1))
    }
}

/// The first Server-Name.
pub open spec fn first_server_name(avps: Seq<CxAvp>) -> Option<Seq<char>>
    decreases avps.len(),
{
    if avps.len() == 0 {
        None
    } else if let CxAvp::ServerName(s) = avps[0] {
        Some(s@)
    } else {
        first_server_name(avps.skip(1))
    }
}

fn find_public_identity(avps: &Vec<CxAvp>) -> (r: Option<&String>)
    ensures
        match r {
            Some(s) => first_public_identity(avps@) == Some(s@),
            None => first_public_identity(avps@) is None,
        },
{
    let mut i: usize = 0;
    assert(avps@.skip(0) =~= avps@);
    while i < avps.len()
        invariant
            i <= avps@.len(),
            first_public_identity(avps@) == first_public_identity(avps@.skip(i as int)),
        decreases avps@.len() - i,
    {
        assert(avps@.skip(i as int)[0] == avps@[i as int]);
        assert(avps@.skip(i as int).skip(1) =~= avps@.skip(i + 1));
        if let CxAvp::PublicIdentity(s) = &avps[i] {
            return Some(s);
        }
        i = i + 1;
    }
    None
}

fn find_server_name(avps: &Vec<CxAvp>) -> (r: Option<&String>)
    ensures
        match r {
            Some(s) => first_server_name(avps@) == Some(s@),
            None => first_server_name(avps@) is None,
        },
{
    let mut i: usize = 0;
    assert(avps@.skip(0) =~= avps@);
    while i < avps.len()
        invariant
            i <= avps@.len(),
            first_server_name(avps@) == first_server_name(avps@.skip(i as int)),
        decreases avps@.len() - i,
    {
        assert(avps@.skip(i as int)[0] == avps@[i as int]);
        assert(avps@.skip(i as int).skip(1) =~= avps@.skip(i + 1));
        if let CxAvp::ServerName(s) = &avps[i] {
            return Some(s);
        }
        i = i + 1;
    }
    None
}

/// An answer to `req`: same command, application, identifiers and session.
pub open spec fn answers(r: CxMessage, req: CxMessage) -> bool {
    &&& r.command_code == req.command_code
    &&& !r.is_request
    &&& r.application_id == req.application_id
    &&& r.hop_by_hop == req.hop_by_hop
    &&& r.end_to_end == req.end_to_end
    &&& r.session_id@ == req.session_id@
}

impl CxMessage {
    pub fn new_request(command_code: u32, session_id: &str) -> (r: Self)
        ensures
            r.command_code == command_code,
            r.is_request,
            r.application_id == DIAMETER_APP_CX,
            r.hop_by_hop == 0,
            r.end_to_end == 0,
            r.session_id@ == session_id@,
            r.avps@.len() == 0,
    {
        CxMessage {
            command_code,
            is_request: true,
            application_id: DIAMETER_APP_CX,
            hop_by_hop: 0,
            end_to_end: 0,
            session_id: session_id.to_owned(),
            avps: Vec::new(),
        }
    }

    /// The answer to `req` with one Result-Code.
    pub fn new_answer(req: &CxMessage, result_code: u32) -> (r: Self)
        ensures
            answers(r, *req),
            r.avps@ == seq![CxAvp::ResultCode(result_code)],
    {
        CxMessage {
            command_code: req.command_code,
            is_request: false,
            application_id: req.application_id,
            hop_by_hop: req.hop_by_hop,
            end_to_end: req.end_to_end,
            session_id: req.session_id.clone(),
            avps: vec![CxAvp::ResultCode(result_code)],
        }
    }

    pub fn add_avp(&mut self, avp: CxAvp)
        ensures
            final(self).avps@ == old(self).avps@.push(avp),
            final(self).command_code == old(self).command_code,
            final(self).is_request == old(self).is_request,
            final(self).application_id == old(self).application_id,
            final(self).hop_by_hop == old(self).hop_by_hop,
            final(self).end_to_end == old(self).end_to_end,
            final(self).session_id == old(self).session_id,
    {
        self.avps.push(avp);
    }

    pub fn serialize(&self) -> (r: Vec<u8>)
        ensures
            r@ == cx_bytes(*self),
    {
        let mut buf: Vec<u8> = Vec::new();
        push_u32(&mut buf, self.command_code);
        buf.push(if self.is_request { 0x80u8 } else { 0x00u8 });
        push_u32(&mut buf, self.application_id);
        push_u32(&mut buf, self.hop_by_hop);
        push_u32(&mut buf, self.end_to_end);
        let sb = self.session_id.as_str().as_bytes();
        push_u16(&mut buf, (sb.len() % 65536) as u16);
        push_all(&mut buf, sb);
        let ghost head = buf@;
        assert(head =~= u32_bytes(self.command_code) + seq![if self.is_request { 0x80u8 } else { 0x00u8 }]
            + u32_bytes(self.application_id) + u32_bytes(self.hop_by_hop) + u32_bytes(self.end_to_end)
            + field_bytes_tail(encode_utf8(self.session_id@)));
        assert(self.avps@.subrange(0, 0) =~= Seq::<CxAvp>::empty());
        let mut i: usize = 0;
        while i < self.avps.len()
            invariant
                i <= self.avps@.len(),
                buf@ == head + cx_avps_bytes(self.avps@.subrange(0, i as int)),
            decreases self.avps@.len() - i,
        {
            let ghost b0 = buf@;
            match &self.avps[i] {
                CxAvp::PublicIdentity(s) => push_text_field(&mut buf, AVP_PUBLIC_IDENTITY, s),
                CxAvp::ServerName(s) => push_text_field(&mut buf, AVP_SERVER_NAME, s),
                CxAvp::UserAuthorizationType(t) => {
                    push_u32(&mut buf, AVP_USER_AUTHORIZATION_TYPE);
                    push_u16(&mut buf, 2);
                    push_u16(&mut buf, t.as_u32() as u16);
                },
                CxAvp::ServerAssignmentType(t) => {
                    push_u32(&mut buf, AVP_SERVER_ASSIGNMENT_TYPE);
                    push_u16(&mut buf, 2);
                    push_u16(&mut buf, t.as_u32() as u16);
                },
                CxAvp::SipNumberAuthItems(n) => {
                    push_u32(&mut buf, AVP_SIP_NUMBER_AUTH_ITEMS);
                    push_u16(&mut buf, 4);
                    push_u32(&mut buf, *n);
                },
                CxAvp::SipAuthDataItem { auth_scheme, auth_data } => {
                    push_u32(&mut buf, AVP_SIP_AUTH_DATA_ITEM);
                    let sb2 = auth_scheme.as_str().as_bytes();
                    let total: u64 = ((sb2.len() % 65536) as u64 + (auth_data.len() % 65536) as u64 + 4) % 65536;
                    assert(total == (4 + sb2@.len() + auth_data@.len()) % 65536) by (nonlinear_arith)
                        requires total == ((sb2@.len() % 65536) + (auth_data@.len() % 65536) + 4) % 65536;
                    push_u16(&mut buf, total as u16);
                    push_u16(&mut buf, (sb2.len() % 65536) as u16);
                    push_all(&mut buf, sb2);
                    push_u16(&mut buf, (auth_data.len() % 65536) as u16);
                    push_all(&mut buf, auth_data.as_slice());
                },
                CxAvp::ResultCode(rc) => {
                    push_u32(&mut buf, 268);
                    push_u16(&mut buf, 4);
                    push_u32(&mut buf, *rc);
                },
            }
            assert(buf@ =~= b0 + cx_avp_bytes(self.avps@[i as int]));
            assert(self.avps@.subrange(0, i + 1).drop_last() =~= self.avps@.subrange(0, i as int));
            i = i + 1;
        }
        assert(self.avps@.subrange(0, i as int) =~= self.avps@);
        buf
    }
}

#[derive(Debug, Clone)]
pub struct ImsSub {
    pub public_identity: String,
    pub private_identity: String,
    pub assigned_scscf: Option<String>,
    pub auth_scheme: String,
    pub auth_key: Vec<u8>,
}

#[derive(Debug, Clone)]
pub struct HssCxEngine {
    pub subscribers: StrTable<ImsSub>,
    pub transactions: u64,
}

impl HssCxEngine {
    pub fn new() -> (r: Self)
        ensures
            r.subscribers.wf(),
            r.subscribers@ == Map::<Seq<char>, ImsSub>::empty(),
            r.transactions == 0,
    {
        HssCxEngine { subscribers: StrTable::new(), transactions: 0 }
    }

    /// Stores `sub` under its public identity.
    pub fn add_subscriber(&mut self, sub: ImsSub)
        requires
            old(self).subscribers.wf(),
        ensures
            final(self).subscribers.wf(),
            final(self).subscribers@ == old(self).subscribers@.insert(sub.public_identity@, sub),
            final(self).transactions == old(self).transactions,
    {
        let k = sub.public_identity.clone();
        self.subscribers.insert(k, sub);
    }

    /// Handles a UAR: 5004 without a Public-Identity, 5001 for an unknown one; otherwise 2001,
    /// followed by the assigned S-CSCF's name when there is one.
    pub fn process_uar(&mut self, uar: &CxMessage) -> (r: CxMessage)
        requires
            old(self).subscribers.wf(),
            old(self).transactions < u64::MAX,
        ensures
            final(self).subscribers == old(self).subscribers,
            final(self).transactions == old(self).transactions + 1,
            answers(r, *uar),
            match first_public_identity(uar.avps@) {
                None => r.avps@ == seq![CxAvp::ResultCode(5004)],
                Some(id) => if !old(self).subscribers@.dom().contains(id) {
                    r.avps@ == seq![CxAvp::ResultCode(5001)]
                } else {
                    match old(self).subscribers@[id].assigned_scscf {
                        Some(s) => r.avps@.len() == 2 && r.avps@[0] == CxAvp::ResultCode(2001)
                            && (r.avps@[1] matches CxAvp::ServerName(n) && n@ == s@),
                        None => r.avps@ == seq![CxAvp::ResultCode(2001)],
                    }
                },
            },
    {
        self.transactions = self.transactions + 1;
        match find_public_identity(&uar.avps) {
            None => CxMessage::new_answer(uar, 5004),
            Some(id) => match self.subscribers.get(id.as_str()) {
                None => CxMessage::new_answer(uar, 5001),
                Some(sub) => {
                    let mut uaa = CxMessage::new_answer(uar, 2001);
                    match &sub.assigned_scscf {
                        Some(s) => uaa.add_avp(CxAvp::ServerName(s.clone())),
                        None => {},
                    }
                    uaa
                },
            },
        }
    }

    /// Handles a MAR: 5004 without a Public-Identity, 5001 for an unknown one; otherwise 2001,
    /// one authentication item, and the subscriber's scheme and key.
    pub fn process_mar(&mut self, mar: &CxMessage) -> (r: CxMessage)
        requires
            old(self).subscribers.wf(),
            old(self).transactions < u64::MAX,
        ensures
            final(self).subscribers == old(self).subscribers,
            final(self).transactions == old(self).transactions + 1,
            answers(r, *mar),
            match first_public_identity(mar.avps@) {
                None => r.avps@ == seq![CxAvp::ResultCode(5004)],
                Some(id) => if !old(self).subscribers@.dom().contains(id) {
                    r.avps@ == seq![CxAvp::ResultCode(5001)]
                } else {
                    let s = old(self).subscribers@[id];
                    &&& r.avps@.len() == 3
                    &&& r.avps@[0] == CxAvp::ResultCode(2001)
                    &&& r.avps@[1] == CxAvp::SipNumberAuthItems(1)
                    &&& r.avps@[2] matches CxAvp::SipAuthDataItem { auth_scheme, auth_data }
                        && auth_scheme@ == s.auth_scheme@ && auth_data@ == s.auth_key@
                },
            },
    {
        self.transactions = self.transactions + 1;
        match find_public_identity(&mar.avps) {
            None => CxMessage::new_answer(mar, 5004),
            Some(id) => match self.subscribers.get(id.as_str()) {
                None => CxMessage::new_answer(mar, 5001),
                Some(sub) => {
                    let mut maa = CxMessage::new_answer(mar, 2001);
                    maa.add_avp(CxAvp::SipNumberAuthItems(1));
                    maa.add_avp(CxAvp::SipAuthDataItem { auth_scheme: sub.auth_scheme.clone(), auth_data: sub.auth_key.clone() });
                    maa
                },
            },
        }
    }

    /// Handles a SAR: 5004 unless it names both a Public-Identity and a Server-Name, 5001 for
    /// an unknown identity; otherwise the server becomes the subscriber's S-CSCF and the answer
    /// carries 2001 and the server's name.
    pub fn process_sar(&mut self, sar: &CxMessage) -> (r: CxMessage)
        requires
            old(self).subscribers.wf(),
            old(self).transactions < u64::MAX,
        ensures
            final(self).subscribers.wf(),
            final(self).transactions == old(self).transactions + 1,
            answers(r, *sar),
            match (first_public_identity(sar.avps@), first_server_name(sar.avps@)) {
                (Some(id), Some(srv)) => if !old(self).subscribers@.dom().contains(id) {
                    &&& r.avps@ == seq![CxAvp::ResultCode(5001)]
                    &&& final(self).subscribers@ == old(self).subscribers@
                } else {
                    &&& r.avps@.len() == 2
                    &&& r.avps@[0] == CxAvp::ResultCode(2001)
                    &&& r.avps@[1] matches CxAvp::ServerName(n) && n@ == srv
                    &&& final(self).subscribers@.dom() == old(self).subscribers@.dom()
                    &&& final(self).subscribers@[id].assigned_scscf matches Some(a) && a@ == srv
                    &&& forall|k: Seq<char>| k != id ==> #[trigger] final(self).subscribers@[k] == old(self).subscribers@[k]
                    &&& {
                        let o = old(self).subscribers@[id];
                        let n = final(self).subscribers@[id];
                        &&& n.public_identity == o.public_identity
                        &&& n.private_identity == o.private_identity
                        &&& n.auth_scheme == o.auth_scheme
                        &&& n.auth_key == o.auth_key
                    }
                },
                _ => {
                    &&& r.avps@ == seq![CxAvp::ResultCode(5004)]
                    &&& final(self).subscribers@ == old(self).subscribers@
                },
            },
    {
        self.transactions = self.transactions + 1;
        let id = find_public_identity(&sar.avps);
        let srv = find_server_name(&sar.avps);
        match (id, srv) {
            (Some(id), Some(srv)) => match self.subscribers.remove(id.as_str()) {
                None => CxMessage::new_answer(sar, 5001),
                Some(sub) => {
                    let mut sub = sub;
                    sub.assigned_scscf = Some(srv.clone());
                    self.subscribers.insert(id.clone(), sub);
                    let mut saa = CxMessage::new_answer(sar, 2001);
                    saa.add_avp(CxAvp::ServerName(srv.clone()));
                    saa
                },
            },
            _ => CxMessage::new_answer(sar, 5004),
        }
    }
}

} // verus!
