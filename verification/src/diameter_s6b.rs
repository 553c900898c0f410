//! S6b (3GPP AAA server to PGW for non-3GPP access): AA-Request/Answer and
//! Session-Termination, with the AAA server's subscriber and session state.
use vstd::prelude::*;
use vstd::utf8::encode_utf8;
use crate::table::{StrTable, map_get};
use crate::text::{string_from_utf8_lossy, lossy_chars, str_eq};
use crate::wire::{push_u16, push_u32, push_all, read_u16, read_u32, u16_bytes, u32_bytes, be16_at, be32_at, copy_range};

verus! {

pub const DIAMETER_APPLICATION_S6B: u32 = 16777272;
pub const DIAMETER_CMD_AA: u32 = 265;
pub const DIAMETER_CMD_SESSION_TERMINATION: u32 = 275;
pub const AVP_ANID: u32 = 1500;
pub const AVP_MIP6_AGENT_INFO: u32 = 486;
pub const AVP_MIP_HOME_AGENT_ADDRESS: u32 = 491;
pub const AVP_MIP_HOME_AGENT_HOST: u32 = 490;
pub const AVP_NON_3GPP_USER_STATUS: u32 = 1505;
pub const AVP_APN_CONFIGURATION: u32 = 1430;
pub const AVP_VISITED_NETWORK_IDENTIFIER: u32 = 600;
pub const AVP_USER_NAME: u32 = 1;
pub const AVP_RESULT_CODE: u32 = 268;

/// Non-3GPP-User-Status (AVP 1505).
#[derive(Debug, Clone, Copy, PartialEq, Eq, Structural)]
pub enum Non3gppUserStatus {
    UserActive,
    UserSuspended,
    UserDeregistered,
}

pub open spec fn status_code(s: Non3gppUserStatus) -> u32 {
    match s {
        Non3gppUserStatus::UserActive => 0,
        Non3gppUserStatus::UserSuspended => 1,
        Non3gppUserStatus::UserDeregistered => 2,
    }
}

pub open spec fn status_of(v: u32) -> Option<Non3gppUserStatus> {
    if v == 0 {
        Some(Non3gppUserStatus::UserActive)
    } else if v == 1 {
        Some(Non3gppUserStatus::UserSuspended)
    } else if v == 2 {
        Some(Non3gppUserStatus::UserDeregistered)
    } else {
        None
    }
}

impl Non3gppUserStatus {
    pub fn as_u32(self) -> (r: u32)
        ensures
            r == status_code(self),
    {
        match self {
            Self::UserActive => 0,
            Self::UserSuspended => 1,
            Self::UserDeregistered => 2,
        }
    }

    pub fn from_u32(val: u32) -> (r: Option<Self>)
        ensures
            r == status_of(val),
    {
        match val {
            0 => Some(Self::UserActive),
            1 => Some(Self::UserSuspended),
            2 => Some(Self::UserDeregistered),
            _ => None,
        }
    }
}

/// Decoding a status code gives back the status.
pub proof fn lemma_status_roundtrip(s: Non3gppUserStatus)
    ensures
        status_of(status_code(s)) == Some(s),
{
}

#[derive(Debug, Clone, PartialEq, Eq)]
pub struct Mip6AgentInfo {
    pub pgw_ip: [u8; 4],
    pub pgw_fqdn: String,
}

/// A field of the S6b encoding: four-octet code, two-octet length (the low 16 bits of the
/// value's length) and the value.
pub open spec fn field_bytes(code: u32, value: Seq<u8>) -> Seq<u8> {
    u32_bytes(code) + u16_bytes((value.len() % 65536) as u16) + value
}

/// The encoding of MIP6-Agent-Info: the home agent address, then its host name.
pub open spec fn mip6_bytes(m: Mip6AgentInfo) -> Seq<u8> {
    field_bytes(AVP_MIP_HOME_AGENT_ADDRESS, m.pgw_ip@) + field_bytes(AVP_MIP_HOME_AGENT_HOST, encode_utf8(m.pgw_fqdn@))
}

/// Scan of the fields of a MIP6-Agent-Info from `off`: the last four-octet home agent address
/// and the last host name seen, stopping at a field that does not fit.
pub open spec fn mip6_scan(data: Seq<u8>, off: int, ip: Seq<u8>, host: Option<Seq<u8>>) -> (Seq<u8>, Option<Seq<u8>>)
    decreases data.len() - off,
{
    if off < 0 || off + 6 > data.len() {
        (ip, host)
    } else {
        let code = be32_at(data, off);
        let len = be16_at(data, off + 4);
        let start = off + 6;
        if start + len > data.len() {
            (ip, host)
        } else {
            let val = data.subrange(start, start + len);
            if code == AVP_MIP_HOME_AGENT_ADDRESS && len == 4 {
                mip6_scan(data, start + len, val, host)
            } else if code == AVP_MIP_HOME_AGENT_HOST {
                mip6_scan(data, start + len, ip, Some(val))
            } else {
                mip6_scan(data, start + len, ip, host)
            }
        }
    }
}

/// The decoded address and host name: zeros and the empty name where none were found, the
/// host name decoded with invalid UTF-8 replaced.
pub open spec fn mip6_parse(data: Seq<u8>) -> (Seq<u8>, Seq<char>) {
    let (ip, host) = mip6_scan(data, 0, seq![0u8, 0u8, 0u8, 0u8], None);
    (ip, match host {
        Some(h) => lossy_chars(h),
        None => Seq::empty(),
    })
}

impl Mip6AgentInfo {
    pub fn serialize(&self) -> (r: Vec<u8>)
        ensures
            r@ == mip6_bytes(*self),
    {
        let mut buf: Vec<u8> = Vec::new();
        push_u32(&mut buf, AVP_MIP_HOME_AGENT_ADDRESS);
        push_u16(&mut buf, 4);
        push_all(&mut buf, &self.pgw_ip);
        push_u32(&mut buf, AVP_MIP_HOME_AGENT_HOST);
        let b = self.pgw_fqdn.as_str().as_bytes();
        push_u16(&mut buf, (b.len() % 65536) as u16);
        push_all(&mut buf, b);
        proof {
            assert(self.pgw_ip@.len() == 4);
            assert(mip6_bytes(*self) =~= buf@);
        }
        buf
    }

    /// Decodes the fields; always succeeds.
    pub fn parse(data: &[u8]) -> (r: Option<Self>)
        ensures
            r matches Some(m) && (m.pgw_ip@, m.pgw_fqdn@) == mip6_parse(data@),
    {
        let mut offset: usize = 0;
        let mut pgw_ip: [u8; 4] = [0u8, 0u8, 0u8, 0u8];
        let mut host: Option<Vec<u8>> = None;
        proof {
            assert(pgw_ip@ =~= seq![0u8, 0u8, 0u8, 0u8]);
        }
        while data.len() - offset >= 6
            invariant
                offset <= data@.len(),
                mip6_scan(data@, 0, seq![0u8, 0u8, 0u8, 0u8], None) == mip6_scan(
                    data@,
                    offset as int,
                    pgw_ip@,
                    match host {
                        Some(h) => Some(h@),
                        None => None,
                    },
                ),
            ensures
                mip6_scan(data@, 0, seq![0u8, 0u8, 0u8, 0u8], None) == (pgw_ip@, match host {
                    Some(h) => Some(h@),
                    None => None::<Seq<u8>>,
                }),
            decreases data@.len() - offset,
        {
            let code = read_u32(data, offset);
            let len = read_u16(data, offset + 4) as usize;
            let start = offset + 6;
            if len > data.len() - start {
                break;
            }
            if code == AVP_MIP_HOME_AGENT_ADDRESS && len == 4 {
                pgw_ip = [data[start], data[start + 1], data[start + 2], data[start + 3]];
                assert(pgw_ip@ =~= data@.subrange(start as int, start + len));
            } else if code == AVP_MIP_HOME_AGENT_HOST {
                host = Some(copy_range(data, start, start + len));
            }
            offset = start + len;
        }
        let pgw_fqdn = match host {
            Some(h) => string_from_utf8_lossy(h.as_slice()),
            None => String::new(),
        };
        Some(Mip6AgentInfo { pgw_ip, pgw_fqdn })
    }
}

#[derive(Debug, Clone, PartialEq, Eq)]
pub enum S6bAvp {
    UserName(String),
    Anid(String),
    Mip6AgentInfo(Mip6AgentInfo),
    Non3gppUserStatus(Non3gppUserStatus),
    VisitedNetworkIdentifier(String),
    Apn(String),
    ResultCode(u32),
}

#[derive(Debug, Clone, PartialEq, Eq)]
pub struct S6bMessage {
    pub command_code: u32,
    pub is_request: bool,
    pub application_id: u32,
    pub session_id: String,
    pub avps: Vec<S6bAvp>,
}

/// The encoding of one AVP.
pub open spec fn s6b_avp_bytes(a: S6bAvp) -> Seq<u8> {
    match a {
        S6bAvp::UserName(s) => field_bytes(AVP_USER_NAME, encode_utf8(s@)),
        S6bAvp::Anid(s) => field_bytes(AVP_ANID, encode_utf8(s@)),
        S6bAvp::Mip6AgentInfo(m) => field_bytes(AVP_MIP6_AGENT_INFO, mip6_bytes(m)),
        S6bAvp::Non3gppUserStatus(st) => u32_bytes(AVP_NON_3GPP_USER_STATUS) + u16_bytes(4) + u32_bytes(status_code(st)),
        S6bAvp::VisitedNetworkIdentifier(s) => field_bytes(AVP_VISITED_NETWORK_IDENTIFIER, encode_utf8(s@)),
        S6bAvp::Apn(s) => field_bytes(AVP_APN_CONFIGURATION, encode_utf8(s@)),
        S6bAvp::ResultCode(c) => u32_bytes(AVP_RESULT_CODE) + u16_bytes(4) + u32_bytes(c),
    }
}

/// The encodings of `avps`, in order.
pub open spec fn s6b_avps_bytes(avps: Seq<S6bAvp>) -> Seq<u8>
    decreases avps.len(),
{
    if avps.len() == 0 {
        Seq::empty()
    } else {
        s6b_avps_bytes(avps.drop_last()) + s6b_avp_bytes(avps.last())
    }
}

/// The encoding of a message: command, request flag, application, session and the AVPs.
pub open spec fn s6b_bytes(m: S6bMessage) -> Seq<u8> {
    u32_bytes(m.command_code) + seq![if m.is_request { 0x80u8 } else { 0x00u8 }] + u32_bytes(m.application_id)
        + field_bytes_tail(encode_utf8(m.session_id@)) + s6b_avps_bytes(m.avps@)
}

/// A two-octet length (low 16 bits) followed by the value.
pub open spec fn field_bytes_tail(value: Seq<u8>) -> Seq<u8> {
    u16_bytes((value.len() % 65536) as u16) + value
}

pub(crate) fn push_text_field(buf: &mut Vec<u8>, code: u32, s: &String)
    ensures
        final(buf)@ == old(buf)@ + field_bytes(code, encode_utf8(s@)),
{
    push_u32(buf, code);
    let b = s.as_str().as_bytes();
    push_u16(buf, (b.len() % 65536) as u16);
    push_all(buf, b);
    assert(final(buf)@ =~= old(buf)@ + field_bytes(code, encode_utf8(s@)));
}

impl S6bMessage {
    /// An empty request with `command_code` in session `session_id`.
    pub fn new_request(command_code: u32, session_id: &str) -> (r: Self)
        ensures
            r.command_code == command_code,
            r.is_request,
            r.application_id == DIAMETER_APPLICATION_S6B,
            r.session_id@ == session_id@,
            r.avps@.len() == 0,
    {
        S6bMessage {
            command_code,
            is_request: true,
            application_id: DIAMETER_APPLICATION_S6B,
            session_id: session_id.to_owned(),
            avps: Vec::new(),
        }
    }

    /// The answer to `req`, holding one Result-Code.
    pub fn new_answer(req: &S6bMessage, result_code: u32) -> (r: Self)
        ensures
            r.command_code == req.command_code,
            !r.is_request,
            r.application_id == req.application_id,
            r.session_id@ == req.session_id@,
            r.avps@ == seq![S6bAvp::ResultCode(result_code)],
    {
        S6bMessage {
            command_code: req.command_code,
            is_request: false,
            application_id: req.application_id,
            session_id: req.session_id.clone(),
            avps: vec![S6bAvp::ResultCode(result_code)],
        }
    }

    pub fn add_avp(&mut self, avp: S6bAvp)
        ensures
            final(self).avps@ == old(self).avps@.push(avp),
            final(self).command_code == old(self).command_code,
            final(self).is_request == old(self).is_request,
            final(self).application_id == old(self).application_id,
            final(self).session_id == old(self).session_id,
    {
        self.avps.push(avp);
    }

    pub fn serialize(&self) -> (r: Vec<u8>)
        ensures
            r@ == s6b_bytes(*self),
    {
        let mut buf: Vec<u8> = Vec::new();
        push_u32(&mut buf, self.command_code);
        buf.push(if self.is_request { 0x80u8 } else { 0x00u8 });
        push_u32(&mut buf, self.application_id);
        let sb = self.session_id.as_str().as_bytes();
        push_u16(&mut buf, (sb.len() % 65536) as u16);
        push_all(&mut buf, sb);
        let ghost head = buf@;
        assert(head =~= u32_bytes(self.command_code) + seq![if self.is_request { 0x80u8 } else { 0x00u8 }]
            + u32_bytes(self.application_id) + field_bytes_tail(encode_utf8(self.session_id@)));
        assert(self.avps@.subrange(0, 0) =~= Seq::<S6bAvp>::empty());
        let mut i: usize = 0;
        while i < self.avps.len()
            invariant
                i <= self.avps@.len(),
                buf@ == head + s6b_avps_bytes(self.avps@.subrange(0, i as int)),
            decreases self.avps@.len() - i,
        {
            let ghost b0 = buf@;
            match &self.avps[i] {
                S6bAvp::UserName(u) => push_text_field(&mut buf, AVP_USER_NAME, u),
                S6bAvp::Anid(a) => push_text_field(&mut buf, AVP_ANID, a),
                S6bAvp::Mip6AgentInfo(info) => {
                    push_u32(&mut buf, AVP_MIP6_AGENT_INFO);
                    let b = info.serialize();
                    push_u16(&mut buf, (b.len() % 65536) as u16);
                    push_all(&mut buf, b.as_slice());
                },
                S6bAvp::Non3gppUserStatus(st) => {
                    push_u32(&mut buf, AVP_NON_3GPP_USER_STATUS);
                    push_u16(&mut buf, 4);
                    push_u32(&mut buf, st.as_u32());
                },
                S6bAvp::VisitedNetworkIdentifier(v) => push_text_field(&mut buf, AVP_VISITED_NETWORK_IDENTIFIER, v),
                S6bAvp::Apn(apn) => push_text_field(&mut buf, AVP_APN_CONFIGURATION, apn),
                S6bAvp::ResultCode(rc) => {
                    push_u32(&mut buf, AVP_RESULT_CODE);
                    push_u16(&mut buf, 4);
                    push_u32(&mut buf, *rc);
                },
            }
            assert(buf@ =~= b0 + s6b_avp_bytes(self.avps@[i as int]));
            assert(self.avps@.subrange(0, i + 1).drop_last() =~= self.avps@.subrange(0, i as int));
            i = i + 1;
        }
        assert(self.avps@.subrange(0, i as int) =~= self.avps@);
        buf
    }
}

/// The first User-Name.
pub open spec fn first_user_name(avps: Seq<S6bAvp>) -> Option<Seq<char>>
    decreases avps.len(),
{
    if avps.len() == 0 {
        None
    } else if let S6bAvp::UserName(s) = avps[0] {
        Some(s@)
    } else {
        first_user_name(avps.skip(1))
    }
}

/// The first ANID.
pub open spec fn first_anid(avps: Seq<S6bAvp>) -> Option<Seq<char>>
    decreases avps.len(),
{
    if avps.len() == 0 {
        None
    } else if let S6bAvp::Anid(s) = avps[0] {
        Some(s@)
    } else {
        first_anid(avps.skip(1))
    }
}

fn find_user_name(avps: &Vec<S6bAvp>) -> (r: Option<&String>)
    ensures
        match r {
            Some(s) => first_user_name(avps@) == Some(s@),
            None => first_user_name(avps@) is None,
        },
{
    let mut i: usize = 0;
    assert(avps@.skip(0) =~= avps@);
    while i < avps.len()
        invariant
            i <= avps@.len(),
            first_user_name(avps@) == first_user_name(avps@.skip(i as int)),
        decreases avps@.len() - i,
    {
        assert(avps@.skip(i as int)[0] == avps@[i as int]);
        assert(avps@.skip(i as int).skip(1) =~= avps@.skip(i + 1));
        if let S6bAvp::UserName(s) = &avps[i] {
            return Some(s);
        }
        i = i + 1;
    }
    None
}

fn find_anid(avps: &Vec<S6bAvp>) -> (r: Option<&String>)
    ensures
        match r {
            Some(s) => first_anid(avps@) == Some(s@),
            None => first_anid(avps@) is None,
        },
{
    let mut i: usize = 0;
    assert(avps@.skip(0) =~= avps@);
    while i < avps.len()
        invariant
            i <= avps@.len(),
            first_anid(avps@) == first_anid(avps@.skip(i as int)),
        decreases avps@.len() - i,
    {
        assert(avps@.skip(i as int)[0] == avps@[i as int]);
        assert(avps@.skip(i as int).skip(1) =~= avps@.skip(i + 1));
        if let S6bAvp::Anid(s) = &avps[i] {
            return Some(s);
        }
        i = i + 1;
    }
    None
}

#[derive(Debug, Clone)]
pub struct Non3gppSubProfile {
    pub imsi: String,
    pub authorized_anid: Vec<String>,
    pub allocated_pgw_ip: [u8; 4],
    pub allocated_pgw_fqdn: String,
    pub apn: String,
    pub status: Non3gppUserStatus,
}

/// The access networks a profile admits: all of them when its list is empty.
pub open spec fn anid_allowed(p: Non3gppSubProfile, anid: Option<Seq<char>>) -> bool {
    match anid {
        None => true,
        Some(a) => p.authorized_anid@.len() == 0 || exists|i: int| 0 <= i < p.authorized_anid@.len() && #[trigger] p.authorized_anid@[i]@ == a,
    }
}

/// A profile with its status replaced.
pub open spec fn with_status(p: Non3gppSubProfile, st: Non3gppUserStatus) -> Non3gppSubProfile {
    Non3gppSubProfile { status: st, ..p }
}

#[derive(Debug, Clone)]
pub struct AaaS6bEngine {
    pub server_realm: String,
    pub subscribers: StrTable<Non3gppSubProfile>,
    pub active_sessions: StrTable<String>,
    pub total_transactions: u64,
}

fn anid_in(v: &Vec<String>, a: &String) -> (r: bool)
    ensures
        r == exists|i: int| 0 <= i < v@.len() && #[trigger] v@[i]@ == a@,
{
    let mut i: usize = 0;
    while i < v.len()
        invariant
            i <= v@.len(),
            forall|j: int| 0 <= j < i ==> #[trigger] v@[j]@ != a@,
        decreases v@.len() - i,
    {
        if str_eq(v[i].as_str(), a.as_str()) {
            assert(v@[i as int]@ == a@);
            return true;
        }
        i = i + 1;
    }
    false
}

impl AaaS6bEngine {
    pub fn new(server_realm: &str) -> (r: Self)
        ensures
            r.server_realm@ == server_realm@,
            r.subscribers.wf(),
            r.active_sessions.wf(),
            r.subscribers@ == Map::<Seq<char>, Non3gppSubProfile>::empty(),
            r.active_sessions@ == Map::<Seq<char>, String>::empty(),
            r.total_transactions == 0,
    {
        AaaS6bEngine {
            server_realm: server_realm.to_owned(),
            subscribers: StrTable::new(),
            active_sessions: StrTable::new(),
            total_transactions: 0,
        }
    }

    /// Stores `profile` under its IMSI.
    pub fn provision_subscriber(&mut self, profile: Non3gppSubProfile)
        requires
            old(self).subscribers.wf(),
        ensures
            final(self).subscribers.wf(),
            final(self).subscribers@ == old(self).subscribers@.insert(profile.imsi@, profile),
            final(self).active_sessions == old(self).active_sessions,
            final(self).total_transactions == old(self).total_transactions,
            final(self).server_realm == old(self).server_realm,
    {
        let k = profile.imsi.clone();
        self.subscribers.insert(k, profile);
    }

    /// Handles an AA-Request. Without a User-Name: 5004. For an unknown IMSI: 5001. When the
    /// request's ANID is not among the subscriber's (a non-empty list): 5003. Otherwise the
    /// subscriber becomes active, the session is bound to the IMSI, and the answer carries
    /// 2001, the active status, the PGW's address and name, and the APN.
    pub fn handle_aar(&mut self, aar: &S6bMessage) -> (r: S6bMessage)
        requires
            old(self).subscribers.wf(),
            old(self).active_sessions.wf(),
            old(self).total_transactions < u64::MAX,
        ensures
            final(self).subscribers.wf(),
            final(self).active_sessions.wf(),
            final(self).total_transactions == old(self).total_transactions + 1,
            final(self).server_realm == old(self).server_realm,
            r.command_code == aar.command_code,
            !r.is_request,
            r.application_id == aar.application_id,
            r.session_id@ == aar.session_id@,
            match first_user_name(aar.avps@) {
                None => {
                    &&& r.avps@ == seq![S6bAvp::ResultCode(5004)]
                    &&& final(self).subscribers@ == old(self).subscribers@
                    &&& final(self).active_sessions@ == old(self).active_sessions@
                },
                Some(imsi) => if !old(self).subscribers@.dom().contains(imsi) {
                    &&& r.avps@ == seq![S6bAvp::ResultCode(5001)]
                    &&& final(self).subscribers@ == old(self).subscribers@
                    &&& final(self).active_sessions@ == old(self).active_sessions@
                } else if !anid_allowed(old(self).subscribers@[imsi], first_anid(aar.avps@)) {
                    &&& r.avps@ == seq![S6bAvp::ResultCode(5003)]
                    &&& final(self).subscribers@ == old(self).subscribers@
                    &&& final(self).active_sessions@ == old(self).active_sessions@
                } else {
                    let p = old(self).subscribers@[imsi];
                    &&& final(self).subscribers@ == old(self).subscribers@.insert(imsi, with_status(p, Non3gppUserStatus::UserActive))
                    &&& final(self).active_sessions@.dom() == old(self).active_sessions@.dom().insert(aar.session_id@)
                    &&& final(self).active_sessions@[aar.session_id@]@ == imsi
                    &&& forall|k: Seq<char>| k != aar.session_id@ && #[trigger] old(self).active_sessions@.dom().contains(k)
                        ==> final(self).active_sessions@[k] == old(self).active_sessions@[k]
                    &&& r.avps@.len() == 4
                    &&& r.avps@[0] == S6bAvp::ResultCode(2001)
                    &&& r.avps@[1] == S6bAvp::Non3gppUserStatus(Non3gppUserStatus::UserActive)
                    &&& r.avps@[2] matches S6bAvp::Mip6AgentInfo(m) && m.pgw_ip == p.allocated_pgw_ip && m.pgw_fqdn@ == p.allocated_pgw_fqdn@
                    &&& r.avps@[3] matches S6bAvp::Apn(a) && a@ == p.apn@
                },
            },
    {
        self.total_transactions = self.total_transactions + 1;
        let imsi = match find_user_name(&aar.avps) {
            Some(u) => u.clone(),
            None => {
                return S6bMessage::new_answer(aar, 5004);
            },
        };
        let anid = find_anid(&aar.avps);
        let sub = match self.subscribers.remove(imsi.as_str()) {
            Some(s) => s,
            None => {
                return S6bMessage::new_answer(aar, 5001);
            },
        };
        let anid_ok = match anid {
            Some(a) => sub.authorized_anid.len() == 0 || anid_in(&sub.authorized_anid, a),
            None => true,
        };
        if !anid_ok {
            self.subscribers.insert(imsi, sub);
            proof {
                assert(self.subscribers@ =~= old(self).subscribers@);
            }
            return S6bMessage::new_answer(aar, 5003);
        }
        let mut sub = sub;
        sub.status = Non3gppUserStatus::UserActive;
        let ip = sub.allocated_pgw_ip;
        let fqdn = sub.allocated_pgw_fqdn.clone();
        let apn = sub.apn.clone();
        self.subscribers.insert(imsi.clone(), sub);
        proof {
            assert(self.subscribers@ =~= old(self).subscribers@.insert(imsi@, with_status(old(self).subscribers@[imsi@], Non3gppUserStatus::UserActive)));
        }
        self.active_sessions.insert(aar.session_id.clone(), imsi);
        let mut aaa = S6bMessage::new_answer(aar, 2001);
        aaa.add_avp(S6bAvp::Non3gppUserStatus(Non3gppUserStatus::UserActive));
        aaa.add_avp(S6bAvp::Mip6AgentInfo(Mip6AgentInfo { pgw_ip: ip, pgw_fqdn: fqdn }));
        aaa.add_avp(S6bAvp::Apn(apn));
        aaa
    }

    /// Handles a Session-Termination-Request: a known session is removed, its subscriber (if
    /// still provisioned) becomes deregistered, and the answer carries 2001; an unknown session
    /// gets 5002.
    pub fn handle_str(&mut self, req: &S6bMessage) -> (r: S6bMessage)
        requires
            old(self).subscribers.wf(),
            old(self).active_sessions.wf(),
            old(self).total_transactions < u64::MAX,
        ensures
            final(self).subscribers.wf(),
            final(self).active_sessions.wf(),
            final(self).total_transactions == old(self).total_transactions + 1,
            final(self).server_realm == old(self).server_realm,
            final(self).active_sessions@ == old(self).active_sessions@.remove(req.session_id@),
            r.command_code == req.command_code,
            !r.is_request,
            r.application_id == req.application_id,
            r.session_id@ == req.session_id@,
            match map_get(old(self).active_sessions@, req.session_id@) {
                None => {
                    &&& r.avps@ == seq![S6bAvp::ResultCode(5002)]
                    &&& final(self).subscribers@ == old(self).subscribers@
                },
                Some(imsi) => {
                    &&& r.avps@ == seq![S6bAvp::ResultCode(2001)]
                    &&& final(self).subscribers@ == if old(self).subscribers@.dom().contains(imsi@) {
                        old(self).subscribers@.insert(imsi@, with_status(old(self).subscribers@[imsi@], Non3gppUserStatus::UserDeregistered))
                    } else {
                        old(self).subscribers@
                    }
                },
            },
    {
        self.total_transactions = self.total_transactions + 1;
        match self.active_sessions.remove(req.session_id.as_str()) {
            Some(imsi) => {
                match self.subscribers.remove(imsi.as_str()) {
                    Some(sub) => {
                        let mut sub = sub;
                        sub.status = Non3gppUserStatus::UserDeregistered;
                        self.subscribers.insert(imsi.clone(), sub);
                        proof {
                            assert(self.subscribers@ =~= old(self).subscribers@.insert(imsi@, with_status(old(self).subscribers@[imsi@], Non3gppUserStatus::UserDeregistered)));
                        }
                    },
                    None => {
                        proof {
                            assert(self.subscribers@ =~= old(self).subscribers@);
                        }
                    },
                }
                S6bMessage::new_answer(req, 2001)
            },
            None => S6bMessage::new_answer(req, 5002),
        }
    }
}

} // verus!
