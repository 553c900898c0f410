//! Diameter Sh between IMS application servers and the HSS (3GPP TS 29.328 / 29.329),
//! Application ID 16777217: user data (command 306) and notification subscriptions
//! (command 308).
use vstd::prelude::*;
use crate::diameter::{
    AvpModel, DiameterAvp, DiameterHeader, DiameterMessage, mandatory_avp, DIAMETER_FLAG_MANDATORY,
    DIAMETER_FLAG_PROXIABLE, DIAMETER_FLAG_VENDOR_SPECIFIC, DIAMETER_SUCCESS,
};
use crate::diameter_gx::{gx_avp, VENDOR_3GPP};
use crate::table::StrTable;
use crate::text::{owned, str_eq, strings_view};
use crate::wire::u32_bytes;
use vstd::utf8::encode_utf8;

verus! {

pub const DIAMETER_APPLICATION_SH: u32 = 16777217;

pub const DIAMETER_CMD_USER_DATA: u32 = 306;
pub const DIAMETER_CMD_SUBSCRIBE_NOTIFICATIONS: u32 = 308;

pub const AVP_USER_IDENTITY: u32 = 701;
pub const AVP_USER_DATA: u32 = 702;
pub const AVP_DATA_REFERENCE: u32 = 703;
pub const AVP_SUBS_REQ_TYPE: u32 = 705;

pub const DATA_REF_REPOSITORY_DATA: u32 = 0;
pub const DATA_REF_IMS_PUBLIC_IDENTITY: u32 = 1;
pub const DATA_REF_IMS_USER_STATE: u32 = 11;

/// A subscriber's Sh profile.
#[derive(Debug, Clone, PartialEq, Eq)]
pub struct HssShSubscriberProfile {
    pub public_identity: String,
    pub repository_data: String,
    pub ims_user_state: String,
}

impl HssShSubscriberProfile {
    pub fn new(public_id: &str, repo_data: &str, user_state: &str) -> (r: Self)
        ensures
            r.public_identity@ == public_id@,
            r.repository_data@ == repo_data@,
            r.ims_user_state@ == user_state@,
    {
        HssShSubscriberProfile {
            public_identity: owned(public_id),
            repository_data: owned(repo_data),
            ims_user_state: owned(user_state),
        }
    }
}

/// The Sh side of the HSS: profiles by public identity, and the application servers
/// subscribed to each.
#[derive(Debug, Clone)]
pub struct HssShEngine {
    pub subscribers: StrTable<HssShSubscriberProfile>,
    pub subscriptions: StrTable<Vec<String>>,
    pub total_udr_count: usize,
    pub total_snr_count: usize,
}

/// The header of an Sh answer.
pub open spec fn sh_answer_header(command_code: u32) -> DiameterHeader {
    DiameterHeader {
        version: 1,
        length: 0,
        flags: DIAMETER_FLAG_PROXIABLE,
        command_code,
        application_id: DIAMETER_APPLICATION_SH,
        hop_by_hop_id: 1,
        end_to_end_id: 1,
    }
}

/// The data a reference selects: repository data (0), the user state (11), or else the
/// public identity.
pub open spec fn user_data(p: HssShSubscriberProfile, data_ref: u32) -> Seq<char> {
    if data_ref == DATA_REF_REPOSITORY_DATA {
        p.repository_data@
    } else if data_ref == DATA_REF_IMS_USER_STATE {
        p.ims_user_state@
    } else {
        p.public_identity@
    }
}

/// The servers subscribed after a request: subscribing adds the server unless it is
/// there; anything else takes it out.
pub open spec fn subscribed_after(list: Seq<Seq<char>>, as_id: Seq<char>, subs_type: u32) -> Seq<Seq<char>> {
    if subs_type == 0 {
        if list.contains(as_id) { list } else { list.push(as_id) }
    } else {
        list.filter(|s: Seq<char>| s != as_id)
    }
}

/// The servers subscribed for an identity (none: empty).
pub open spec fn servers_of(t: StrTable<Vec<String>>, id: Seq<char>) -> Seq<Seq<char>> {
    if t@.dom().contains(id) { strings_view(t@[id]@) } else { Seq::empty() }
}

fn without(list: &Vec<String>, as_id: &str) -> (r: Vec<String>)
    ensures
        strings_view(r@) == strings_view(list@).filter(|s: Seq<char>| s != as_id@),
{
    let ghost p = |s: Seq<char>| s != as_id@;
    let ghost sv = strings_view(list@);
    let mut out: Vec<String> = Vec::new();
    let mut i: usize = 0;
    while i < list.len()
        invariant
            i <= list@.len(),
            sv == strings_view(list@),
            p == (|s: Seq<char>| s != as_id@),
            strings_view(out@) == sv.take(i as int).filter(p),
        decreases list@.len() - i,
    {
        let ghost before = out@;
        proof {
            reveal(Seq::filter);
            assert(sv.take(i + 1).drop_last() =~= sv.take(i as int));
            assert(sv.take(i + 1).last() == list@[i as int]@);
        }
        if !str_eq(list[i].as_str(), as_id) {
            out.push(list[i].clone());
            assert(strings_view(out@) =~= strings_view(before).push(list@[i as int]@));
        }
        i = i + 1;
    }
    assert(sv.take(i as int) =~= sv);
    out
}

impl Default for HssShEngine {
    fn default() -> (r: Self)
        ensures
            r.subscribers.wf(),
            r.subscriptions.wf(),
            r.subscribers@ == Map::<Seq<char>, HssShSubscriberProfile>::empty(),
            r.subscriptions@ == Map::<Seq<char>, Vec<String>>::empty(),
            r.total_udr_count == 0,
            r.total_snr_count == 0,
    {
        HssShEngine::new()
    }
}

impl HssShEngine {
    pub fn new() -> (r: Self)
        ensures
            r.subscribers.wf(),
            r.subscriptions.wf(),
            r.subscribers@ == Map::<Seq<char>, HssShSubscriberProfile>::empty(),
            r.subscriptions@ == Map::<Seq<char>, Vec<String>>::empty(),
            r.total_udr_count == 0,
            r.total_snr_count == 0,
    {
        HssShEngine { subscribers: StrTable::new(), subscriptions: StrTable::new(), total_udr_count: 0, total_snr_count: 0 }
    }

    /// Stores a profile under its public identity.
    pub fn register_subscriber(&mut self, profile: HssShSubscriberProfile)
        requires
            old(self).subscribers.wf(),
        ensures
            final(self).subscribers.wf(),
            final(self).subscribers@ == old(self).subscribers@.insert(profile.public_identity@, profile),
            final(self).subscriptions == old(self).subscriptions,
            final(self).total_udr_count == old(self).total_udr_count,
            final(self).total_snr_count == old(self).total_snr_count,
    {
        let key = profile.public_identity.clone();
        self.subscribers.insert(key, profile);
    }

    /// Answers a User-Data-Request: for a known identity, success with the data the
    /// reference selects (see `user_data`); otherwise user unknown (5001).
    pub fn handle_udr(&mut self, public_id: &str, data_ref: u32) -> (r: DiameterMessage)
        requires
            old(self).subscribers.wf(),
            old(self).total_udr_count < usize::MAX,
        ensures
            final(self).total_udr_count == old(self).total_udr_count + 1,
            final(self).subscribers == old(self).subscribers,
            final(self).subscriptions == old(self).subscriptions,
            final(self).total_snr_count == old(self).total_snr_count,
            r.header == sh_answer_header(DIAMETER_CMD_USER_DATA),
            r@.avps == (if old(self).subscribers@.dom().contains(public_id@) {
                seq![
                    mandatory_avp(268, u32_bytes(DIAMETER_SUCCESS)),
                    gx_avp(AVP_USER_DATA, encode_utf8(user_data(old(self).subscribers@[public_id@], data_ref))),
                ]
            } else {
                seq![mandatory_avp(268, u32_bytes(5001))]
            }),
    {
        self.total_udr_count = self.total_udr_count + 1;
        let mut uda = DiameterMessage::new_answer(DIAMETER_CMD_USER_DATA, DIAMETER_APPLICATION_SH, 1, 1);
        match self.subscribers.get(public_id) {
            Some(sub) => {
                uda.add_avp(DiameterAvp::new_u32(268, DIAMETER_SUCCESS));
                let payload: &str = if data_ref == DATA_REF_REPOSITORY_DATA {
                    sub.repository_data.as_str()
                } else if data_ref == DATA_REF_IMS_USER_STATE {
                    sub.ims_user_state.as_str()
                } else {
                    sub.public_identity.as_str()
                };
                let flags = DIAMETER_FLAG_MANDATORY | DIAMETER_FLAG_VENDOR_SPECIFIC;
                assert(DIAMETER_FLAG_MANDATORY | DIAMETER_FLAG_VENDOR_SPECIFIC == 0xC0u8) by (bit_vector);
                uda.add_avp(DiameterAvp::new_vendor(AVP_USER_DATA, flags, VENDOR_3GPP, payload.as_bytes()));
                assert(uda@.avps =~= seq![
                    mandatory_avp(268, u32_bytes(DIAMETER_SUCCESS)),
                    gx_avp(AVP_USER_DATA, encode_utf8(user_data(*sub, data_ref))),
                ]);
            },
            None => {
                uda.add_avp(DiameterAvp::new_u32(268, 5001));
                assert(uda@.avps =~= seq![mandatory_avp(268, u32_bytes(5001))]);
            },
        }
        uda
    }

    /// Answers a Subscribe-Notifications-Request: for a known identity the servers
    /// subscribed to it change (see `subscribed_after`) and the answer is success;
    /// otherwise user unknown (5001), and the subscriptions stay.
    pub fn handle_snr(&mut self, as_id: &str, public_id: &str, subs_type: u32) -> (r: DiameterMessage)
        requires
            old(self).subscribers.wf(),
            old(self).subscriptions.wf(),
            old(self).total_snr_count < usize::MAX,
        ensures
            final(self).subscriptions.wf(),
            final(self).total_snr_count == old(self).total_snr_count + 1,
            final(self).subscribers == old(self).subscribers,
            final(self).total_udr_count == old(self).total_udr_count,
            r.header == sh_answer_header(DIAMETER_CMD_SUBSCRIBE_NOTIFICATIONS),
            !old(self).subscribers@.dom().contains(public_id@) ==> final(self).subscriptions == old(self).subscriptions
                && r@.avps == seq![mandatory_avp(268, u32_bytes(5001))],
            old(self).subscribers@.dom().contains(public_id@) ==> {
                &&& r@.avps == seq![mandatory_avp(268, u32_bytes(DIAMETER_SUCCESS))]
                &&& final(self).subscriptions@.dom() == old(self).subscriptions@.dom().insert(public_id@)
                &&& forall|k: Seq<char>| k != public_id@ ==> #[trigger] final(self).subscriptions@.get(k)
                    == old(self).subscriptions@.get(k)
                &&& servers_of(final(self).subscriptions, public_id@) == subscribed_after(
                    servers_of(old(self).subscriptions, public_id@),
                    as_id@,
                    subs_type,
                )
            },
    {
        self.total_snr_count = self.total_snr_count + 1;
        let mut sna = DiameterMessage::new_answer(DIAMETER_CMD_SUBSCRIBE_NOTIFICATIONS, DIAMETER_APPLICATION_SH, 1, 1);
        if self.subscribers.contains_key(public_id) {
            let list = match self.subscriptions.remove(public_id) {
                Some(l) => l,
                None => Vec::new(),
            };
            let ghost before = strings_view(list@);
            assert(before == servers_of(old(self).subscriptions, public_id@));
            let updated = if subs_type == 0 {
                if crate::text::contains_str(&list, as_id) {
                    list
                } else {
                    let mut l = list;
                    l.push(owned(as_id));
                    assert(strings_view(l@) =~= before.push(as_id@));
                    l
                }
            } else {
                without(&list, as_id)
            };
            self.subscriptions.insert(owned(public_id), updated);
            assert(self.subscriptions@.dom() =~= old(self).subscriptions@.dom().insert(public_id@));
            sna.add_avp(DiameterAvp::new_u32(268, DIAMETER_SUCCESS));
            assert(sna@.avps =~= seq![mandatory_avp(268, u32_bytes(DIAMETER_SUCCESS))]);
        } else {
            sna.add_avp(DiameterAvp::new_u32(268, 5001));
            assert(sna@.avps =~= seq![mandatory_avp(268, u32_bytes(5001))]);
        }
        sna
    }
}

/// Subscribing twice leaves one subscription, and unsubscribing then leaves none.
pub proof fn lemma_subscribe_idempotent(list: Seq<Seq<char>>, as_id: Seq<char>)
    ensures
        subscribed_after(subscribed_after(list, as_id, 0), as_id, 0) == subscribed_after(list, as_id, 0),
        !subscribed_after(list, as_id, 1).contains(as_id),
        subscribed_after(list, as_id, 0).contains(as_id),
{
    let once = subscribed_after(list, as_id, 0);
    if !list.contains(as_id) {
        assert(once[once.len() - 1] == as_id);
    }
    assert(once.contains(as_id));
    let gone = subscribed_after(list, as_id, 1);
    list.filter_lemma(|s: Seq<char>| s != as_id);
}

} // verus!
