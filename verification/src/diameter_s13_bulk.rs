//! S13' bulk blacklist push (command 326): a serving node's local IMEI blacklist kept in step
//! with the central EIR through add, remove and full-resync batches.
use vstd::prelude::*;
use crate::diameter::DIAMETER_SUCCESS;
use crate::text::{copy_strings, find_string, first_index, lemma_first_index, owned, owned_strings, strings_view};

verus! {

pub const DIAMETER_APPLICATION_S13: u32 = 16777252;
pub const DIAMETER_CMD_BULK_BLACKLIST_PUSH: u32 = 326;

pub const AVP_BULK_ACTION: u32 = 2401;
pub const AVP_BATCH_VERSION: u32 = 2402;
pub const AVP_IMEI_LIST: u32 = 2403;

#[derive(Debug, Clone, Copy, PartialEq, Eq, Structural)]
pub enum BulkBlacklistAction {
    Add,
    Remove,
    FullSyncReset,
}

impl BulkBlacklistAction {
    pub fn from_u32(val: u32) -> (r: Self)
        ensures
            r == (if val == 1 {
                BulkBlacklistAction::Remove
            } else if val == 2 {
                BulkBlacklistAction::FullSyncReset
            } else {
                BulkBlacklistAction::Add
            }),
    {
        match val {
            1 => BulkBlacklistAction::Remove,
            2 => BulkBlacklistAction::FullSyncReset,
            _ => BulkBlacklistAction::Add,
        }
    }
}

#[derive(Debug, Clone, PartialEq, Eq)]
pub struct S13BulkMessage {
    pub is_request: bool,
    pub session_id: String,
    pub origin_host: String,
    pub origin_realm: String,
    pub destination_realm: String,
    pub batch_version: u64,
    pub action: BulkBlacklistAction,
    pub imei_list: Vec<String>,
    pub result_code: Option<u32>,
}

impl S13BulkMessage {
    /// A Bulk-Blacklist-Request.
    pub fn new_bbr(
        session_id: &str,
        origin_host: &str,
        origin_realm: &str,
        destination_realm: &str,
        batch_version: u64,
        action: BulkBlacklistAction,
        imeis: &[&str],
    ) -> (r: Self)
        ensures
            r.is_request,
            r.session_id@ == session_id@,
            r.origin_host@ == origin_host@,
            r.origin_realm@ == origin_realm@,
            r.destination_realm@ == destination_realm@,
            r.batch_version == batch_version,
            r.action == action,
            strings_view(r.imei_list@) == imeis@.map_values(|s: &str| s@),
            r.result_code is None,
    {
        S13BulkMessage {
            is_request: true,
            session_id: owned(session_id),
            origin_host: owned(origin_host),
            origin_realm: owned(origin_realm),
            destination_realm: owned(destination_realm),
            batch_version,
            action,
            imei_list: owned_strings(imeis),
            result_code: None,
        }
    }

    /// A Bulk-Blacklist-Answer.
    pub fn new_bba(
        session_id: &str,
        origin_host: &str,
        origin_realm: &str,
        batch_version: u64,
        result_code: u32,
    ) -> (r: Self)
        ensures
            !r.is_request,
            r.session_id@ == session_id@,
            r.origin_host@ == origin_host@,
            r.origin_realm@ == origin_realm@,
            r.destination_realm@ == Seq::<char>::empty(),
            r.batch_version == batch_version,
            r.action == BulkBlacklistAction::Add,
            r.imei_list@.len() == 0,
            r.result_code == Some(result_code),
    {
        S13BulkMessage {
            is_request: false,
            session_id: owned(session_id),
            origin_host: owned(origin_host),
            origin_realm: owned(origin_realm),
            destination_realm: String::new(),
            batch_version,
            action: BulkBlacklistAction::Add,
            imei_list: Vec::new(),
            result_code: Some(result_code),
        }
    }
}

/// `cur` after adding each of `items` in turn that it does not hold yet.
pub open spec fn add_all(cur: Seq<Seq<char>>, items: Seq<Seq<char>>) -> Seq<Seq<char>>
    decreases items.len(),
{
    if items.len() == 0 {
        cur
    } else {
        let c = add_all(cur, items.drop_last());
        if c.contains(items.last()) {
            c
        } else {
            c.push(items.last())
        }
    }
}

/// `cur` after removing, for each of `items` in turn, its first occurrence.
pub open spec fn remove_all(cur: Seq<Seq<char>>, items: Seq<Seq<char>>) -> Seq<Seq<char>>
    decreases items.len(),
{
    if items.len() == 0 {
        cur
    } else {
        let c = remove_all(cur, items.drop_last());
        match first_index(c, items.last()) {
            Some(p) => c.remove(p),
            None => c,
        }
    }
}

proof fn lemma_add_all_grows(cur: Seq<Seq<char>>, items: Seq<Seq<char>>)
    ensures
        cur.len() <= add_all(cur, items).len() <= cur.len() + items.len(),
    decreases items.len(),
{
    if items.len() > 0 {
        lemma_add_all_grows(cur, items.drop_last());
    }
}

proof fn lemma_remove_all_shrinks(cur: Seq<Seq<char>>, items: Seq<Seq<char>>)
    ensures
        remove_all(cur, items).len() <= cur.len(),
    decreases items.len(),
{
    if items.len() > 0 {
        lemma_remove_all_shrinks(cur, items.drop_last());
        lemma_first_index(remove_all(cur, items.drop_last()), items.last());
    }
}

/// Local blacklist of a serving node, fed by bulk blacklist pushes.
pub struct S13BulkEngine {
    pub node_id: String,
    pub realm: String,
    pub current_version: u64,
    pub blacklisted_imeis: Vec<String>,
    pub total_bbr_processed: u64,
    pub total_additions: u64,
    pub total_removals: u64,
}

impl S13BulkEngine {
    pub fn new(node_id: &str, realm: &str) -> (r: Self)
        ensures
            r.node_id@ == node_id@,
            r.realm@ == realm@,
            r.current_version == 0,
            r.blacklisted_imeis@.len() == 0,
            r.total_bbr_processed == 0,
            r.total_additions == 0,
            r.total_removals == 0,
    {
        S13BulkEngine {
            node_id: owned(node_id),
            realm: owned(realm),
            current_version: 0,
            blacklisted_imeis: Vec::new(),
            total_bbr_processed: 0,
            total_additions: 0,
            total_removals: 0,
        }
    }

    /// Applies a batch: Add appends each IMEI not yet listed, Remove drops the first
    /// occurrence of each listed IMEI, FullSyncReset replaces the list (counting every entry
    /// as an addition); the batch version becomes current and a success answer returns.
    pub fn process_bbr(&mut self, bbr: &S13BulkMessage) -> (r: S13BulkMessage)
        requires
            old(self).total_bbr_processed < u64::MAX,
            old(self).total_additions + bbr.imei_list@.len() <= u64::MAX,
            old(self).total_removals + old(self).blacklisted_imeis@.len() <= u64::MAX,
        ensures
            final(self).total_bbr_processed == old(self).total_bbr_processed + 1,
            final(self).current_version == bbr.batch_version,
            final(self).node_id == old(self).node_id,
            final(self).realm == old(self).realm,
            match bbr.action {
                BulkBlacklistAction::Add => {
                    &&& strings_view(final(self).blacklisted_imeis@) == add_all(strings_view(old(self).blacklisted_imeis@), strings_view(bbr.imei_list@))
                    &&& final(self).total_additions == old(self).total_additions + final(self).blacklisted_imeis@.len() - old(self).blacklisted_imeis@.len()
                    &&& final(self).total_removals == old(self).total_removals
                },
                BulkBlacklistAction::Remove => {
                    &&& strings_view(final(self).blacklisted_imeis@) == remove_all(strings_view(old(self).blacklisted_imeis@), strings_view(bbr.imei_list@))
                    &&& final(self).total_removals == old(self).total_removals + old(self).blacklisted_imeis@.len() - final(self).blacklisted_imeis@.len()
                    &&& final(self).total_additions == old(self).total_additions
                },
                BulkBlacklistAction::FullSyncReset => {
                    &&& strings_view(final(self).blacklisted_imeis@) == strings_view(bbr.imei_list@)
                    &&& final(self).total_additions == old(self).total_additions + bbr.imei_list@.len()
                    &&& final(self).total_removals == old(self).total_removals
                },
            },
            !r.is_request,
            r.session_id@ == bbr.session_id@,
            r.origin_host@ == old(self).node_id@,
            r.origin_realm@ == old(self).realm@,
            r.batch_version == bbr.batch_version,
            r.result_code == Some(DIAMETER_SUCCESS),
            r.imei_list@.len() == 0,
    {
        self.total_bbr_processed = self.total_bbr_processed + 1;
        let ghost items = strings_view(bbr.imei_list@);
        let ghost start = strings_view(self.blacklisted_imeis@);
        match bbr.action {
            BulkBlacklistAction::Add => {
                let mut i: usize = 0;
                assert(items.subrange(0, 0) =~= Seq::<Seq<char>>::empty());
                while i < bbr.imei_list.len()
                    invariant
                        i <= bbr.imei_list@.len(),
                        items == strings_view(bbr.imei_list@),
                        strings_view(self.blacklisted_imeis@) == add_all(start, items.subrange(0, i as int)),
                        self.total_additions == old(self).total_additions + self.blacklisted_imeis@.len() - start.len(),
                        start.len() <= self.blacklisted_imeis@.len() <= start.len() + i,
                        start.len() == old(self).blacklisted_imeis@.len(),
                        old(self).total_additions + bbr.imei_list@.len() <= u64::MAX,
                        self.node_id == old(self).node_id,
                        self.realm == old(self).realm,
                        self.total_bbr_processed == old(self).total_bbr_processed + 1,
                        self.total_removals == old(self).total_removals,
                    decreases bbr.imei_list@.len() - i,
                {
                    let ghost before = strings_view(self.blacklisted_imeis@);
                    assert(items.subrange(0, i + 1).drop_last() =~= items.subrange(0, i as int));
                    assert(items.subrange(0, i + 1).last() == items[i as int]);
                    match find_string(&self.blacklisted_imeis, bbr.imei_list[i].as_str()) {
                        Some(_) => {
                            proof {
                                lemma_first_index(before, items[i as int]);
                            }
                        },
                        None => {
                            proof {
                                lemma_first_index(before, items[i as int]);
                            }
                            let c = bbr.imei_list[i].clone();
                            self.blacklisted_imeis.push(c);
                            self.total_additions = self.total_additions + 1;
                            assert(strings_view(self.blacklisted_imeis@) =~= before.push(items[i as int]));
                        },
                    }
                    i = i + 1;
                }
                assert(items.subrange(0, i as int) =~= items);
            },
            BulkBlacklistAction::Remove => {
                let mut i: usize = 0;
                assert(items.subrange(0, 0) =~= Seq::<Seq<char>>::empty());
                while i < bbr.imei_list.len()
                    invariant
                        i <= bbr.imei_list@.len(),
                        items == strings_view(bbr.imei_list@),
                        strings_view(self.blacklisted_imeis@) == remove_all(start, items.subrange(0, i as int)),
                        self.total_removals == old(self).total_removals + start.len() - self.blacklisted_imeis@.len(),
                        self.blacklisted_imeis@.len() <= start.len(),
                        start.len() == old(self).blacklisted_imeis@.len(),
                        self.node_id == old(self).node_id,
                        self.realm == old(self).realm,
                        self.total_bbr_processed == old(self).total_bbr_processed + 1,
                        self.total_additions == old(self).total_additions,
                        old(self).total_removals + start.len() <= u64::MAX,
                    decreases bbr.imei_list@.len() - i,
                {
                    let ghost before = strings_view(self.blacklisted_imeis@);
                    assert(items.subrange(0, i + 1).drop_last() =~= items.subrange(0, i as int));
                    proof {
                        lemma_first_index(before, items[i as int]);
                        assert(items.subrange(0, i + 1).last() == items[i as int]);
                        assert(strings_view(bbr.imei_list@)[i as int] == bbr.imei_list@[i as int]@);
                        assert(remove_all(start, items.subrange(0, i + 1)) == match first_index(before, items[i as int]) {
                            Some(p) => before.remove(p),
                            None => before,
                        });
                    }
                    let key = bbr.imei_list[i].as_str();
                    assert(key@ == items[i as int]);
                    match find_string(&self.blacklisted_imeis, key) {
                        Some(pos) => {
                            assert(first_index(before, items[i as int]) == Some(pos as int));
                            self.blacklisted_imeis.remove(pos);
                            assert(strings_view(self.blacklisted_imeis@) =~= before.remove(pos as int));
                            self.total_removals = self.total_removals + 1;
                        },
                        None => {
                            assert(first_index(before, items[i as int]) is None);
                        },
                    }
                    i = i + 1;
                }
                assert(items.subrange(0, i as int) =~= items);
            },
            BulkBlacklistAction::FullSyncReset => {
                self.blacklisted_imeis = copy_strings(&bbr.imei_list);
                self.total_additions = self.total_additions + bbr.imei_list.len() as u64;
            },
        }
        self.current_version = bbr.batch_version;
        S13BulkMessage::new_bba(
            bbr.session_id.as_str(),
            self.node_id.as_str(),
            self.realm.as_str(),
            self.current_version,
            DIAMETER_SUCCESS,
        )
    }

    /// Whether the IMEI is on the local blacklist.
    pub fn is_blacklisted(&self, imei: &str) -> (r: bool)
        ensures
            r == strings_view(self.blacklisted_imeis@).contains(imei@),
    {
        proof {
            lemma_first_index(strings_view(self.blacklisted_imeis@), imei@);
        }
        find_string(&self.blacklisted_imeis, imei).is_some()
    }
}

} // verus!
