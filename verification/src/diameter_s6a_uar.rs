//! S6a/S6d User-Authorization-Request / Answer (UAR / UAA, command 316): the HSS decides
//! whether a subscriber may attach in a visited PLMN.
use vstd::prelude::*;
use crate::text::{str_eq, first_index, lemma_first_index};

verus! {

pub const DIAMETER_APPLICATION_S6A: u32 = 16_777_251;
pub const DIAMETER_CMD_USER_AUTHORIZATION: u32 = 316;
pub const RESULT_CODE_SUCCESS: u32 = 2001;
pub const RESULT_CODE_USER_UNKNOWN: u32 = 5001;
pub const RESULT_CODE_ROAMING_NOT_ALLOWED: u32 = 5004;
pub const UAR_FLAG_EMERGENCY_ATTACH: u32 = 0x0000_0001;
pub const UAR_FLAG_SMS_IN_MME: u32 = 0x0000_0002;

#[derive(Debug, Clone, PartialEq, Eq)]
pub enum S6aUarAvp {
    SessionId(String),
    OriginHost(String),
    OriginRealm(String),
    DestinationHost(String),
    DestinationRealm(String),
    UserName(String),
    VisitedPlmnId([u8; 3]),
    UarFlags(u32),
    ResultCode(u32),
}

#[derive(Debug, Clone)]
pub struct S6aUarMessage {
    pub command_code: u32,
    pub application_id: u32,
    pub is_request: bool,
    pub session_id: String,
    pub avps: Vec<S6aUarAvp>,
}
/// The first User-Name.
pub open spec fn first_user_name(avps: Seq<S6aUarAvp>) -> Option<Seq<char>>
    decreases avps.len(),
{
    if avps.len() == 0 {
        None
    } else if let S6aUarAvp::UserName(s) = avps[0] {
        Some(s@)
    } else {
        first_user_name(avps.skip(1))
    }
}
/// The first Visited-PLMN-Id.
pub open spec fn first_plmn(avps: Seq<S6aUarAvp>) -> Option<[u8; 3]>
    decreases avps.len(),
{
    if avps.len() == 0 {
        None
    } else if let S6aUarAvp::VisitedPlmnId(s) = avps[0] {
        Some(s)
    } else {
        first_plmn(avps.skip(1))
    }
}
/// The first UAR-Flags value.
pub open spec fn first_flags(avps: Seq<S6aUarAvp>) -> Option<u32>
    decreases avps.len(),
{
    if avps.len() == 0 {
        None
    } else if let S6aUarAvp::UarFlags(s) = avps[0] {
        Some(s)
    } else {
        first_flags(avps.skip(1))
    }
}
/// The first Result-Code.
pub open spec fn first_result_code(avps: Seq<S6aUarAvp>) -> Option<u32>
    decreases avps.len(),
{
    if avps.len() == 0 {
        None
    } else if let S6aUarAvp::ResultCode(s) = avps[0] {
        Some(s)
    } else {
        first_result_code(avps.skip(1))
    }
}

/// The shape of a User-Authorization-Answer.
pub open spec fn is_uaa(r: S6aUarMessage, session_id: Seq<char>, host: Seq<char>, realm: Seq<char>, code: u32) -> bool {
    &&& r.command_code == DIAMETER_CMD_USER_AUTHORIZATION
    &&& r.application_id == DIAMETER_APPLICATION_S6A
    &&& !r.is_request
    &&& r.session_id@ == session_id
    &&& r.avps@.len() == 4
    &&& r.avps@[0] matches S6aUarAvp::SessionId(s) && s@ == session_id
    &&& r.avps@[1] matches S6aUarAvp::OriginHost(s) && s@ == host
    &&& r.avps@[2] matches S6aUarAvp::OriginRealm(s) && s@ == realm
    &&& r.avps@[3] == S6aUarAvp::ResultCode(code)
    &&& first_result_code(r.avps@) == Some(code)
}

impl S6aUarMessage {
    /// A User-Authorization-Request for `imsi` in `visited_plmn`.
    pub fn new_uar(
        session_id: &str,
        origin_host: &str,
        origin_realm: &str,
        dest_realm: &str,
        imsi: &str,
        visited_plmn: [u8; 3],
        flags: u32,
    ) -> (r: Self)
        ensures
            r.command_code == DIAMETER_CMD_USER_AUTHORIZATION,
            r.application_id == DIAMETER_APPLICATION_S6A,
            r.is_request,
            r.session_id@ == session_id@,
            r.avps@.len() == 7,
            r.avps@[0] matches S6aUarAvp::SessionId(s) && s@ == session_id@,
            r.avps@[1] matches S6aUarAvp::OriginHost(s) && s@ == origin_host@,
            r.avps@[2] matches S6aUarAvp::OriginRealm(s) && s@ == origin_realm@,
            r.avps@[3] matches S6aUarAvp::DestinationRealm(s) && s@ == dest_realm@,
            r.avps@[4] matches S6aUarAvp::UserName(s) && s@ == imsi@,
            r.avps@[5] == S6aUarAvp::VisitedPlmnId(visited_plmn),
            r.avps@[6] == S6aUarAvp::UarFlags(flags),
            first_user_name(r.avps@) == Some(imsi@),
            first_plmn(r.avps@) == Some(visited_plmn),
            first_flags(r.avps@) == Some(flags),
    {
        let r = Self {
            command_code: DIAMETER_CMD_USER_AUTHORIZATION,
            application_id: DIAMETER_APPLICATION_S6A,
            is_request: true,
            session_id: session_id.to_owned(),
            avps: vec![
                S6aUarAvp::SessionId(session_id.to_owned()),
                S6aUarAvp::OriginHost(origin_host.to_owned()),
                S6aUarAvp::OriginRealm(origin_realm.to_owned()),
                S6aUarAvp::DestinationRealm(dest_realm.to_owned()),
                S6aUarAvp::UserName(imsi.to_owned()),
                S6aUarAvp::VisitedPlmnId(visited_plmn),
                S6aUarAvp::UarFlags(flags),
            ],
        };
        proof {
            reveal_with_fuel(first_user_name, 6);
            reveal_with_fuel(first_plmn, 7);
            reveal_with_fuel(first_flags, 8);
        }
        r
    }

    /// A User-Authorization-Answer with `result_code`.
    pub fn new_uaa(session_id: &str, origin_host: &str, origin_realm: &str, result_code: u32) -> (r: Self)
        ensures
            is_uaa(r, session_id@, origin_host@, origin_realm@, result_code),
    {
        let r = Self {
            command_code: DIAMETER_CMD_USER_AUTHORIZATION,
            application_id: DIAMETER_APPLICATION_S6A,
            is_request: false,
            session_id: session_id.to_owned(),
            avps: vec![
                S6aUarAvp::SessionId(session_id.to_owned()),
                S6aUarAvp::OriginHost(origin_host.to_owned()),
                S6aUarAvp::OriginRealm(origin_realm.to_owned()),
                S6aUarAvp::ResultCode(result_code),
            ],
        };
        proof {
            reveal_with_fuel(first_result_code, 5);
        }
        r
    }

    /// The IMSI of the first User-Name.
    pub fn imsi(&self) -> (r: Option<&str>)
        ensures
            match r {
                Some(s) => first_user_name(self.avps@) == Some(s@),
                None => first_user_name(self.avps@) is None,
            },
    {
        let mut i: usize = 0;
        assert(self.avps@.skip(0) =~= self.avps@);
        while i < self.avps.len()
            invariant
                i <= self.avps@.len(),
                first_user_name(self.avps@) == first_user_name(self.avps@.skip(i as int)),
            decreases self.avps@.len() - i,
        {
            assert(self.avps@.skip(i as int)[0] == self.avps@[i as int]);
            assert(self.avps@.skip(i as int).skip(1) =~= self.avps@.skip(i + 1));
            if let S6aUarAvp::UserName(s) = &self.avps[i] {
                return Some(s.as_str());
            }
            i = i + 1;
        }
        None
    }
    /// The first Visited-PLMN-Id.
    pub fn visited_plmn(&self) -> (r: Option<[u8; 3]>)
        ensures
            r == first_plmn(self.avps@),
    {
        let mut i: usize = 0;
        assert(self.avps@.skip(0) =~= self.avps@);
        while i < self.avps.len()
            invariant
                i <= self.avps@.len(),
                first_plmn(self.avps@) == first_plmn(self.avps@.skip(i as int)),
            decreases self.avps@.len() - i,
        {
            assert(self.avps@.skip(i as int)[0] == self.avps@[i as int]);
            assert(self.avps@.skip(i as int).skip(1) =~= self.avps@.skip(i + 1));
            if let S6aUarAvp::VisitedPlmnId(s) = &self.avps[i] {
                return Some(*s);
            }
            i = i + 1;
        }
        None
    }
    /// The first UAR-Flags value.
    fn uar_flags_opt(&self) -> (r: Option<u32>)
        ensures
            r == first_flags(self.avps@),
    {
        let mut i: usize = 0;
        assert(self.avps@.skip(0) =~= self.avps@);
        while i < self.avps.len()
            invariant
                i <= self.avps@.len(),
                first_flags(self.avps@) == first_flags(self.avps@.skip(i as int)),
            decreases self.avps@.len() - i,
        {
            assert(self.avps@.skip(i as int)[0] == self.avps@[i as int]);
            assert(self.avps@.skip(i as int).skip(1) =~= self.avps@.skip(i + 1));
            if let S6aUarAvp::UarFlags(s) = &self.avps[i] {
                return Some(*s);
            }
            i = i + 1;
        }
        None
    }
    /// The first Result-Code.
    pub fn result_code(&self) -> (r: Option<u32>)
        ensures
            r == first_result_code(self.avps@),
    {
        let mut i: usize = 0;
        assert(self.avps@.skip(0) =~= self.avps@);
        while i < self.avps.len()
            invariant
                i <= self.avps@.len(),
                first_result_code(self.avps@) == first_result_code(self.avps@.skip(i as int)),
            decreases self.avps@.len() - i,
        {
            assert(self.avps@.skip(i as int)[0] == self.avps@[i as int]);
            assert(self.avps@.skip(i as int).skip(1) =~= self.avps@.skip(i + 1));
            if let S6aUarAvp::ResultCode(s) = &self.avps[i] {
                return Some(*s);
            }
            i = i + 1;
        }
        None
    }

    /// The first UAR-Flags value, or 0 when there is none.
    pub fn uar_flags(&self) -> (r: u32)
        ensures
            r == match first_flags(self.avps@) {
                Some(f) => f,
                None => 0,
            },
    {
        match self.uar_flags_opt() {
            Some(f) => f,
            None => 0,
        }
    }
}

#[derive(Debug, Clone)]
pub struct SubscriberAuthRule {
    pub imsi: String,
    pub is_roaming_allowed: bool,
    pub allowed_plmns: Vec<[u8; 3]>,
}

/// A rule as (IMSI, roaming allowed, allowed PLMNs).
pub open spec fn rule_view(r: SubscriberAuthRule) -> (Seq<char>, bool, Seq<[u8; 3]>) {
    (r.imsi@, r.is_roaming_allowed, r.allowed_plmns@)
}

pub open spec fn rules_view(v: Seq<SubscriberAuthRule>) -> Seq<(Seq<char>, bool, Seq<[u8; 3]>)> {
    v.map_values(|r: SubscriberAuthRule| rule_view(r))
}

pub open spec fn rule_imsis(v: Seq<SubscriberAuthRule>) -> Seq<Seq<char>> {
    v.map_values(|r: SubscriberAuthRule| r.imsi@)
}

/// The authorization result for a non-emergency request from a subscriber with `rule`, in
/// `vplmn`: unknown without a rule, refused when roaming is barred or the PLMN is not in a
/// non-empty allowed list, success otherwise.
pub open spec fn authorization(rule: Option<(Seq<char>, bool, Seq<[u8; 3]>)>, vplmn: [u8; 3]) -> u32 {
    match rule {
        None => RESULT_CODE_USER_UNKNOWN,
        Some(r) => if !r.1 {
            RESULT_CODE_ROAMING_NOT_ALLOWED
        } else if r.2.len() != 0 && !r.2.contains(vplmn) {
            RESULT_CODE_ROAMING_NOT_ALLOWED
        } else {
            RESULT_CODE_SUCCESS
        },
    }
}

pub struct S6aUarEngine {
    pub hss_id: String,
    pub realm: String,
    pub subscriber_rules: Vec<SubscriberAuthRule>,
    pub total_uar_processed: u64,
    pub total_authorized: u64,
    pub total_rejected: u64,
}

fn plmn_eq(a: [u8; 3], b: [u8; 3]) -> (r: bool)
    ensures
        r == (a == b),
{
    let r = a[0] == b[0] && a[1] == b[1] && a[2] == b[2];
    proof {
        if r {
            assert(a =~= b);
        }
    }
    r
}

fn plmn_in(v: &Vec<[u8; 3]>, p: [u8; 3]) -> (r: bool)
    ensures
        r == v@.contains(p),
{
    let mut i: usize = 0;
    while i < v.len()
        invariant
            i <= v@.len(),
            forall|j: int| 0 <= j < i ==> v@[j] != p,
        decreases v@.len() - i,
    {
        if plmn_eq(v[i], p) {
            assert(v@[i as int] == p);
            return true;
        }
        i = i + 1;
    }
    false
}

impl S6aUarEngine {
    pub fn new(hss_id: &str, realm: &str) -> (r: Self)
        ensures
            r.hss_id@ == hss_id@,
            r.realm@ == realm@,
            r.subscriber_rules@.len() == 0,
            r.total_uar_processed == 0,
            r.total_authorized == 0,
            r.total_rejected == 0,
    {
        Self {
            hss_id: hss_id.to_owned(),
            realm: realm.to_owned(),
            subscriber_rules: Vec::new(),
            total_uar_processed: 0,
            total_authorized: 0,
            total_rejected: 0,
        }
    }

    /// The position of the first record for `key`.
    fn position(&self, key: &str) -> (r: Option<usize>)
        ensures
            match r {
                Some(i) => first_index(rule_imsis(self.subscriber_rules@), key@) == Some(i as int) && i < self.subscriber_rules@.len(),
                None => first_index(rule_imsis(self.subscriber_rules@), key@) is None,
            },
    {
        let ghost kv = rule_imsis(self.subscriber_rules@);
        proof {
            lemma_first_index(kv, key@);
        }
        let mut i: usize = 0;
        while i < self.subscriber_rules.len()
            invariant
                i <= self.subscriber_rules@.len(),
                kv == rule_imsis(self.subscriber_rules@),
                kv.len() == self.subscriber_rules@.len(),
                forall|j: int| 0 <= j < i ==> #[trigger] kv[j] != key@,
                match first_index(kv, key@) {
                    Some(k) => 0 <= k < kv.len() && kv[k] == key@ && forall|j: int| 0 <= j < k ==> kv[j] != key@,
                    None => forall|j: int| 0 <= j < kv.len() ==> kv[j] != key@,
                },
            decreases self.subscriber_rules@.len() - i,
        {
            assert(kv[i as int] == self.subscriber_rules@[i as int].imsi@);
            if str_eq(self.subscriber_rules[i].imsi.as_str(), key) {
                proof {
                    let k = first_index(kv, key@);
                    if k is None {
                        assert(kv[i as int] != key@);
                    } else if k.unwrap() > i {
                        assert(kv[i as int] != key@);
                    }
                }
                return Some(i);
            }
            i = i + 1;
        }
        proof {
            if first_index(kv, key@) is Some {
                let k = first_index(kv, key@).unwrap();
                assert(kv[k] != key@);
            }
        }
        None
    }

    /// Stores `rule` in place of the first rule for the same IMSI, or appends it.
    pub fn add_subscriber_rule(&mut self, rule: SubscriberAuthRule)
        ensures
            final(self).subscriber_rules@ == match first_index(rule_imsis(old(self).subscriber_rules@), rule.imsi@) {
                Some(i) => old(self).subscriber_rules@.update(i, rule),
                None => old(self).subscriber_rules@.push(rule),
            },
            final(self).hss_id == old(self).hss_id,
            final(self).realm == old(self).realm,
            final(self).total_uar_processed == old(self).total_uar_processed,
            final(self).total_authorized == old(self).total_authorized,
            final(self).total_rejected == old(self).total_rejected,
    {
        match self.position(rule.imsi.as_str()) {
            Some(i) => {
                self.subscriber_rules.set(i, rule);
            },
            None => {
                self.subscriber_rules.push(rule);
            },
        }
    }

    /// Handles a UAR. Without a User-Name the answer is 5001; an emergency attach is always
    /// authorized; otherwise the first rule for the IMSI decides (see `authorization`), with the
    /// visited PLMN 00-00-00 when none is sent. Every answer counts as authorized or rejected.
    pub fn process_uar(&mut self, uar: &S6aUarMessage) -> (r: S6aUarMessage)
        requires
            old(self).total_uar_processed < u64::MAX,
            old(self).total_authorized < u64::MAX,
            old(self).total_rejected < u64::MAX,
        ensures
            final(self).total_uar_processed == old(self).total_uar_processed + 1,
            final(self).subscriber_rules@ == old(self).subscriber_rules@,
            final(self).hss_id == old(self).hss_id,
            final(self).realm == old(self).realm,
            ({
                let flags = match first_flags(uar.avps@) { Some(f) => f, None => 0u32 };
                let vplmn = match first_plmn(uar.avps@) { Some(p) => p, None => [0u8, 0u8, 0u8] };
                let code = match first_user_name(uar.avps@) {
                    None => RESULT_CODE_USER_UNKNOWN,
                    Some(imsi) => if flags & UAR_FLAG_EMERGENCY_ATTACH != 0 {
                        RESULT_CODE_SUCCESS
                    } else {
                        authorization(
                            match first_index(rule_imsis(old(self).subscriber_rules@), imsi) {
                                Some(i) => Some(rule_view(old(self).subscriber_rules@[i])),
                                None => None,
                            },
                            vplmn,
                        )
                    },
                };
                &&& is_uaa(r, uar.session_id@, old(self).hss_id@, old(self).realm@, code)
                &&& code == RESULT_CODE_SUCCESS ==> final(self).total_authorized == old(self).total_authorized + 1
                    && final(self).total_rejected == old(self).total_rejected
                &&& code != RESULT_CODE_SUCCESS ==> final(self).total_rejected == old(self).total_rejected + 1
                    && final(self).total_authorized == old(self).total_authorized
            }),
    {
        self.total_uar_processed = self.total_uar_processed + 1;
        let imsi = match uar.imsi() {
            Some(i) => i,
            None => {
                self.total_rejected = self.total_rejected + 1;
                return S6aUarMessage::new_uaa(uar.session_id.as_str(), self.hss_id.as_str(), self.realm.as_str(), RESULT_CODE_USER_UNKNOWN);
            },
        };
        let vplmn = match uar.visited_plmn() {
            Some(p) => p,
            None => [0u8, 0u8, 0u8],
        };
        let flags = uar.uar_flags();
        if (flags & UAR_FLAG_EMERGENCY_ATTACH) != 0 {
            self.total_authorized = self.total_authorized + 1;
            return S6aUarMessage::new_uaa(uar.session_id.as_str(), self.hss_id.as_str(), self.realm.as_str(), RESULT_CODE_SUCCESS);
        }
        let code: u32 = match self.position(imsi) {
            None => RESULT_CODE_USER_UNKNOWN,
            Some(i) => {
                let rule = &self.subscriber_rules[i];
                if !rule.is_roaming_allowed {
                    RESULT_CODE_ROAMING_NOT_ALLOWED
                } else if rule.allowed_plmns.len() != 0 && !plmn_in(&rule.allowed_plmns, vplmn) {
                    RESULT_CODE_ROAMING_NOT_ALLOWED
                } else {
                    RESULT_CODE_SUCCESS
                }
            },
        };
        if code == RESULT_CODE_SUCCESS {
            self.total_authorized = self.total_authorized + 1;
        } else {
            self.total_rejected = self.total_rejected + 1;
        }
        S6aUarMessage::new_uaa(uar.session_id.as_str(), self.hss_id.as_str(), self.realm.as_str(), code)
    }
}

} // verus!
