//! SGd (MME to SMSC): mobile-originated and mobile-terminated short message forwarding.
use vstd::prelude::*;
use std::collections::HashMap;

verus! {

broadcast use vstd::std_specs::hash::group_hash_axioms;

pub const DIAMETER_APPLICATION_SGD: u32 = 16777313;
pub const DIAMETER_CMD_MO_FORWARD_SM: u32 = 8388645;
pub const DIAMETER_CMD_MT_FORWARD_SM: u32 = 8388646;
pub const AVP_USER_NAME: u32 = 1;
pub const AVP_RESULT_CODE: u32 = 268;
pub const AVP_SC_ADDRESS: u32 = 3300;
pub const AVP_SM_RP_UI: u32 = 3301;
pub const AVP_SM_DELIVERY_OUTCOME: u32 = 3302;

#[derive(Debug, Clone, Copy, PartialEq, Eq, Structural)]
pub enum SmDeliveryOutcome {
    Success,
    AbsentSubscriber,
    UserBusy,
    MemoryCapacityExceeded,
}

#[derive(Debug, Clone, PartialEq, Eq)]
pub enum SgdAvp {
    UserName(String),
    ScAddress(String),
    SmRpUi(Vec<u8>),
    SmDeliveryOutcome(SmDeliveryOutcome),
    ResultCode(u32),
}

#[derive(Debug, Clone, PartialEq, Eq)]
pub struct SgdMessage {
    pub command_code: u32,
    pub is_request: bool,
    pub application_id: u32,
    pub session_id: String,
    pub avps: Vec<SgdAvp>,
}

/// A forward-SM request: User-Name, SC-Address and the TPDU.
pub open spec fn is_forward(r: SgdMessage, command: u32, session_id: Seq<char>, imsi: Seq<char>, sc: Seq<char>, tpdu: Seq<u8>) -> bool {
    &&& r.command_code == command
    &&& r.is_request
    &&& r.application_id == DIAMETER_APPLICATION_SGD
    &&& r.session_id@ == session_id
    &&& r.avps@.len() == 3
    &&& r.avps@[0] matches SgdAvp::UserName(u) && u@ == imsi
    &&& r.avps@[1] matches SgdAvp::ScAddress(s) && s@ == sc
    &&& r.avps@[2] matches SgdAvp::SmRpUi(t) && t@ == tpdu
}

/// An answer to `req` with `outcome` and `code`.
pub open spec fn is_answer(r: SgdMessage, req: SgdMessage, outcome: SmDeliveryOutcome, code: u32) -> bool {
    &&& r.command_code == req.command_code
    &&& !r.is_request
    &&& r.application_id == req.application_id
    &&& r.session_id@ == req.session_id@
    &&& r.avps@ == seq![SgdAvp::ResultCode(code), SgdAvp::SmDeliveryOutcome(outcome)]
}

impl SgdMessage {
    /// An MO-Forward-Short-Message request.
    pub fn new_ofr(session_id: &str, imsi: &str, sc_address: &str, tpdu: Vec<u8>) -> (r: Self)
        ensures
            is_forward(r, DIAMETER_CMD_MO_FORWARD_SM, session_id@, imsi@, sc_address@, tpdu@),
    {
        SgdMessage {
            command_code: DIAMETER_CMD_MO_FORWARD_SM,
            is_request: true,
            application_id: DIAMETER_APPLICATION_SGD,
            session_id: session_id.to_owned(),
            avps: vec![SgdAvp::UserName(imsi.to_owned()), SgdAvp::ScAddress(sc_address.to_owned()), SgdAvp::SmRpUi(tpdu)],
        }
    }

    /// An MT-Forward-Short-Message request.
    pub fn new_tfr(session_id: &str, imsi: &str, sc_address: &str, tpdu: Vec<u8>) -> (r: Self)
        ensures
            is_forward(r, DIAMETER_CMD_MT_FORWARD_SM, session_id@, imsi@, sc_address@, tpdu@),
    {
        SgdMessage {
            command_code: DIAMETER_CMD_MT_FORWARD_SM,
            is_request: true,
            application_id: DIAMETER_APPLICATION_SGD,
            session_id: session_id.to_owned(),
            avps: vec![SgdAvp::UserName(imsi.to_owned()), SgdAvp::ScAddress(sc_address.to_owned()), SgdAvp::SmRpUi(tpdu)],
        }
    }

    /// The answer to `req`.
    pub fn new_answer(req: &SgdMessage, outcome: SmDeliveryOutcome, result_code: u32) -> (r: Self)
        ensures
            is_answer(r, *req, outcome, result_code),
    {
        SgdMessage {
            command_code: req.command_code,
            is_request: false,
            application_id: req.application_id,
            session_id: req.session_id.clone(),
            avps: vec![SgdAvp::ResultCode(result_code), SgdAvp::SmDeliveryOutcome(outcome)],
        }
    }
}

/// The first User-Name, or the empty text.
pub open spec fn user_or_empty(avps: Seq<SgdAvp>) -> Seq<char>
    decreases avps.len(),
{
    if avps.len() == 0 {
        Seq::empty()
    } else if let SgdAvp::UserName(s) = avps[0] {
        s@
    } else {
        user_or_empty(avps.skip(1))
    }
}

/// The first SC-Address, or the empty text.
pub open spec fn sc_or_empty(avps: Seq<SgdAvp>) -> Seq<char>
    decreases avps.len(),
{
    if avps.len() == 0 {
        Seq::empty()
    } else if let SgdAvp::ScAddress(s) = avps[0] {
        s@
    } else {
        sc_or_empty(avps.skip(1))
    }
}

/// The first TPDU, or no octets.
pub open spec fn tpdu_or_empty(avps: Seq<SgdAvp>) -> Seq<u8>
    decreases avps.len(),
{
    if avps.len() == 0 {
        Seq::empty()
    } else if let SgdAvp::SmRpUi(t) = avps[0] {
        t@
    } else {
        tpdu_or_empty(avps.skip(1))
    }
}

fn find_user(avps: &Vec<SgdAvp>) -> (r: String)
    ensures
        r@ == user_or_empty(avps@),
{
    let mut i: usize = 0;
    assert(avps@.skip(0) =~= avps@);
    while i < avps.len()
        invariant
            i <= avps@.len(),
            user_or_empty(avps@) == user_or_empty(avps@.skip(i as int)),
        decreases avps@.len() - i,
    {
        assert(avps@.skip(i as int)[0] == avps@[i as int]);
        assert(avps@.skip(i as int).skip(1) =~= avps@.skip(i + 1));
        if let SgdAvp::UserName(s) = &avps[i] {
            return s.clone();
        }
        i = i + 1;
    }
    String::new()
}

fn find_sc(avps: &Vec<SgdAvp>) -> (r: String)
    ensures
        r@ == sc_or_empty(avps@),
{
    let mut i: usize = 0;
    assert(avps@.skip(0) =~= avps@);
    while i < avps.len()
        invariant
            i <= avps@.len(),
            sc_or_empty(avps@) == sc_or_empty(avps@.skip(i as int)),
        decreases avps@.len() - i,
    {
        assert(avps@.skip(i as int)[0] == avps@[i as int]);
        assert(avps@.skip(i as int).skip(1) =~= avps@.skip(i + 1));
        if let SgdAvp::ScAddress(s) = &avps[i] {
            return s.clone();
        }
        i = i + 1;
    }
    String::new()
}

fn find_tpdu(avps: &Vec<SgdAvp>) -> (r: Vec<u8>)
    ensures
        r@ == tpdu_or_empty(avps@),
{
    let mut i: usize = 0;
    assert(avps@.skip(0) =~= avps@);
    while i < avps.len()
        invariant
            i <= avps@.len(),
            tpdu_or_empty(avps@) == tpdu_or_empty(avps@.skip(i as int)),
        decreases avps@.len() - i,
    {
        assert(avps@.skip(i as int)[0] == avps@[i as int]);
        assert(avps@.skip(i as int).skip(1) =~= avps@.skip(i + 1));
        if let SgdAvp::SmRpUi(t) = &avps[i] {
            return t.clone();
        }
        i = i + 1;
    }
    Vec::new()
}

#[derive(Debug, Clone, PartialEq, Eq)]
pub struct DeliveredSms {
    pub message_id: u64,
    pub imsi: String,
    pub sc_address: String,
    pub tpdu: Vec<u8>,
    pub outcome: SmDeliveryOutcome,
}

#[derive(Debug, Clone)]
pub struct SmsSgdEngine {
    pub smsc_address: String,
    pub messages: HashMap<u64, DeliveredSms>,
    pub next_msg_id: u64,
    pub total_mo_sms: u64,
    pub total_mt_sms: u64,
}

impl SmsSgdEngine {
    pub fn new(smsc_address: &str) -> (r: Self)
        ensures
            r.smsc_address@ == smsc_address@,
            r.messages@ == Map::<u64, DeliveredSms>::empty(),
            r.next_msg_id == 1,
            r.total_mo_sms == 0,
            r.total_mt_sms == 0,
    {
        SmsSgdEngine {
            smsc_address: smsc_address.to_owned(),
            messages: HashMap::new(),
            next_msg_id: 1,
            total_mo_sms: 0,
            total_mt_sms: 0,
        }
    }

    /// Stores the mobile-originated message under the next message number (with the request's
    /// first User-Name, SC-Address and TPDU, each empty when missing) and answers success.
    pub fn handle_mo_forward_sm(&mut self, ofr: &SgdMessage) -> (r: SgdMessage)
        requires
            old(self).total_mo_sms < u64::MAX,
            old(self).next_msg_id < u64::MAX,
        ensures
            final(self).total_mo_sms == old(self).total_mo_sms + 1,
            final(self).total_mt_sms == old(self).total_mt_sms,
            final(self).next_msg_id == old(self).next_msg_id + 1,
            final(self).smsc_address == old(self).smsc_address,
            final(self).messages@.dom() == old(self).messages@.dom().insert(old(self).next_msg_id),
            forall|k: u64| k != old(self).next_msg_id ==> #[trigger] final(self).messages@[k] == old(self).messages@[k],
            ({
                let m = final(self).messages@[old(self).next_msg_id];
                &&& m.message_id == old(self).next_msg_id
                &&& m.imsi@ == user_or_empty(ofr.avps@)
                &&& m.sc_address@ == sc_or_empty(ofr.avps@)
                &&& m.tpdu@ == tpdu_or_empty(ofr.avps@)
                &&& m.outcome == SmDeliveryOutcome::Success
            }),
            is_answer(r, *ofr, SmDeliveryOutcome::Success, 2001),
    {
        self.total_mo_sms = self.total_mo_sms + 1;
        let imsi = find_user(&ofr.avps);
        let sc_address = find_sc(&ofr.avps);
        let tpdu = find_tpdu(&ofr.avps);
        let msg_id = self.next_msg_id;
        self.next_msg_id = self.next_msg_id + 1;
        self.messages.insert(msg_id, DeliveredSms { message_id: msg_id, imsi, sc_address, tpdu, outcome: SmDeliveryOutcome::Success });
        SgdMessage::new_answer(ofr, SmDeliveryOutcome::Success, 2001)
    }

    /// Answers a mobile-terminated message: success (2001) when the user is reachable, absent
    /// subscriber (5005) otherwise.
    pub fn handle_mt_forward_sm(&mut self, tfr: &SgdMessage, is_user_reachable: bool) -> (r: SgdMessage)
        requires
            old(self).total_mt_sms < u64::MAX,
        ensures
            final(self).total_mt_sms == old(self).total_mt_sms + 1,
            final(self).total_mo_sms == old(self).total_mo_sms,
            final(self).next_msg_id == old(self).next_msg_id,
            final(self).messages@ == old(self).messages@,
            is_answer(
                r,
                *tfr,
                if is_user_reachable { SmDeliveryOutcome::Success } else { SmDeliveryOutcome::AbsentSubscriber },
                if is_user_reachable { 2001u32 } else { 5005u32 },
            ),
    {
        self.total_mt_sms = self.total_mt_sms + 1;
        let outcome = if is_user_reachable { SmDeliveryOutcome::Success } else { SmDeliveryOutcome::AbsentSubscriber };
        let result_code: u32 = if is_user_reachable { 2001 } else { 5005 };
        SgdMessage::new_answer(tfr, outcome, result_code)
    }
}

} // verus!
