//! 5G Direct Discovery Name Management Function (3GPP TS 29.579 / TS 23.304): announce and
//! monitor authorization for ProSe applications, ProSe Application Codes with ephemeral
//! tokens, match reports and revocation.
use vstd::prelude::*;
use crate::table::StrTable;
use crate::text::{owned, push_char};

verus! {

/// The characters of `s` before the first `c` (all of them where there is none).
pub open spec fn chars_before(s: Seq<char>, c: char) -> Seq<char> {
    s.take(char_index(s, c))
}

/// The position of the first `c` in `s`, or its length.
pub open spec fn char_index(s: Seq<char>, c: char) -> int
    decreases s.len(),
{
    if s.len() == 0 {
        0
    } else if s[0] == c {
        0
    } else {
        1 + char_index(s.skip(1), c)
    }
}

proof fn lemma_char_index(s: Seq<char>, c: char, k: int)
    requires
        0 <= k <= s.len(),
        forall|j: int| 0 <= j < k ==> s[j] != c,
        k == s.len() || s[k] == c,
    ensures
        char_index(s, c) == k,
    decreases s.len(),
{
    if s.len() > 0 && k > 0 {
        assert forall|j: int| 0 <= j < k - 1 implies s.skip(1)[j] != c by {
            assert(s.skip(1)[j] == s[j + 1]);
        }
        lemma_char_index(s.skip(1), c, k - 1);
    }
}

/// The characters of `s` before its first `c`.
fn prefix_before(s: &str, c: char) -> (r: String)
    ensures
        r@ == chars_before(s@, c),
{
    let mut out = String::new();
    let mut done = false;
    let ghost mut k: int = 0;
    for ch in it: s.chars()
        invariant
            it.seq() == s@,
            0 <= k <= it.index(),
            !done ==> k == it.index() && out@ == s@.take(k) && forall|j: int| 0 <= j < k ==> s@[j] != c,
            done ==> k < s@.len() && s@[k] == c && out@ == s@.take(k) && forall|j: int| 0 <= j < k ==> s@[j] != c,
    {
        if !done {
            if ch == c {
                done = true;
            } else {
                push_char(&mut out, ch);
                proof {
                    k = k + 1;
                    assert(out@ =~= s@.take(k));
                }
            }
        }
    }
    proof {
        lemma_char_index(s@, c, k);
    }
    out
}

/// The text with every `-` taken out.
fn without_dashes(s: &str) -> (r: String)
    ensures
        r@ == s@.filter(|ch: char| ch != '-'),
{
    let mut out = String::new();
    let ghost keep = |ch: char| ch != '-';
    for ch in it: s.chars()
        invariant
            it.seq() == s@,
            keep == (|ch: char| ch != '-'),
            out@ == s@.take(it.index() as int).filter(keep),
    {
        let ghost i = it.index();
        proof {
            assert(s@.take(i + 1).drop_last() =~= s@.take(i));
            reveal(Seq::filter);
        }
        if ch != '-' {
            push_char(&mut out, ch);
        }
        proof {
            assert(s@.take(i + 1).last() == ch);
        }
    }
    proof {
        assert(s@.take(s@.len() as int) =~= s@);
    }
    out
}

/// The lowercase hexadecimal digit for `d` (below 16).
pub open spec fn hex_char(d: u8) -> char {
    if d < 10 { (48 + d) as char } else { (87 + d) as char }
}

/// `n` as sixteen lowercase hexadecimal digits, most significant first.
pub open spec fn hex16(n: u64) -> Seq<char> {
    Seq::new(16, |i: int| hex_char(((n >> ((60 - 4 * i) as u64)) & 15u64) as u8))
}

fn hex_digit(d: u8) -> (r: char)
    requires
        d < 16,
    ensures
        r == hex_char(d),
{
    if d < 10 { (48 + d) as char } else { (87 + d) as char }
}

/// Sixteen lowercase hexadecimal digits of `n`.
fn hex_token(n: u64) -> (r: String)
    ensures
        r@ == hex16(n),
{
    let mut out = String::new();
    let mut i: u64 = 0;
    while i < 16
        invariant
            i <= 16,
            out@ == hex16(n).take(i as int),
        decreases 16 - i,
    {
        let sh: u64 = 60 - 4 * i;
        let v: u64 = n >> sh;
        assert(v & 15u64 < 16) by (bit_vector);
        let d = (v & 15u64) as u8;
        push_char(&mut out, hex_digit(d));
        i = i + 1;
        assert(out@ =~= hex16(n).take(i as int));
    }
    assert(hex16(n).take(16) =~= hex16(n));
    out
}

/// ProSe discovery role.
#[derive(Debug, Clone, Copy, PartialEq, Eq, Structural)]
pub enum ProSeDiscoveryRole {
    Announcing,
    Monitoring,
}

/// A ProSe Application Code: PLMN, application prefix and ephemeral token.
#[derive(Debug, Clone, PartialEq, Eq, Hash)]
pub struct ProSeAppCode {
    pub plmn_id: String,
    pub app_prefix: String,
    pub ephemeral_token: String,
}

/// The text of a code: `PAC-`, the PLMN without dashes, `-`, the prefix, `-`, the token.
pub open spec fn code_text(plmn: Seq<char>, prefix: Seq<char>, token: Seq<char>) -> Seq<char> {
    "PAC-"@ + plmn.filter(|ch: char| ch != '-') + "-"@ + prefix + "-"@ + token
}

impl ProSeAppCode {
    /// The text of the code (see `code_text`).
    pub fn to_hex_string(&self) -> (r: String)
        ensures
            r@ == code_text(self.plmn_id@, self.app_prefix@, self.ephemeral_token@),
    {
        let mut out = owned("PAC-");
        out.append(without_dashes(self.plmn_id.as_str()).as_str());
        out.append("-");
        out.append(self.app_prefix.as_str());
        out.append("-");
        out.append(self.ephemeral_token.as_str());
        out
    }
}

/// An authorized announcement.
#[derive(Debug, Clone, PartialEq, Eq)]
pub struct AnnouncementRecord {
    pub prose_app_id: String,
    pub announcing_supi: String,
    pub prose_app_code: ProSeAppCode,
    pub valid_until_epoch_s: u64,
}

/// An authorized monitor.
#[derive(Debug, Clone, PartialEq, Eq)]
pub struct MonitorRecord {
    pub prose_app_id: String,
    pub monitoring_supi: String,
    pub valid_until_epoch_s: u64,
}

/// The answer to a match report.
#[derive(Debug, Clone, PartialEq, Eq)]
pub struct MatchReportResult {
    pub prose_app_id: String,
    pub announcing_supi: String,
    pub validity_time_remaining_s: u64,
}

/// Why a discovery request is refused.
#[derive(Debug, Clone, PartialEq, Eq, Structural)]
pub enum DdnmfError {
    UnauthorizedAppId,
    UnauthorizedMonitor,
    ProSeCodeNotFound,
    ProSeCodeExpired,
    RevocationFailed,
}

/// The 5G DDNMF: permissions per SUPI, announcements by code text, and monitors by
/// application and then SUPI.
pub struct DdnmfEngine {
    pub ddnmf_id: String,
    pub plmn_id: String,
    pub next_token_counter: u64,
    pub active_announcements: StrTable<AnnouncementRecord>,
    pub authorized_monitors: StrTable<StrTable<MonitorRecord>>,
    pub supi_permissions: StrTable<Vec<String>>,
}

/// The tables of the engine are well formed.
pub open spec fn ddnmf_wf(e: DdnmfEngine) -> bool {
    &&& e.active_announcements.wf()
    &&& e.authorized_monitors.wf()
    &&& forall|k: Seq<char>| #[trigger] e.authorized_monitors@.dom().contains(k) ==> e.authorized_monitors@[k].wf()
    &&& e.supi_permissions.wf()
}

/// Whether `supi` may use `app`.
pub open spec fn permitted(e: DdnmfEngine, supi: Seq<char>, app: Seq<char>) -> bool {
    e.supi_permissions@.dom().contains(supi) && crate::text::strings_view(e.supi_permissions@[supi]@).contains(app)
}

/// The monitor record of `supi` for `app`, if any.
pub open spec fn monitor_of(e: DdnmfEngine, app: Seq<char>, supi: Seq<char>) -> Option<MonitorRecord> {
    if e.authorized_monitors@.dom().contains(app) && e.authorized_monitors@[app]@.dom().contains(supi) {
        Some(e.authorized_monitors@[app]@[supi])
    } else {
        None
    }
}

/// The outcome of a match report of `supi` for the code `code` at time `now`: the code
/// must be known and unexpired, and `supi` an unexpired monitor of its application; the
/// answer names the application and the announcer, and the time left.
pub open spec fn match_outcome(e: DdnmfEngine, supi: Seq<char>, code: Seq<char>, now: u64) -> Result<
    (Seq<char>, Seq<char>, u64),
    DdnmfError,
> {
    if !e.active_announcements@.dom().contains(code) {
        Err(DdnmfError::ProSeCodeNotFound)
    } else {
        let ann = e.active_announcements@[code];
        if now >= ann.valid_until_epoch_s {
            Err(DdnmfError::ProSeCodeExpired)
        } else {
            match monitor_of(e, ann.prose_app_id@, supi) {
                None => Err(DdnmfError::UnauthorizedMonitor),
                Some(m) => if now >= m.valid_until_epoch_s {
                    Err(DdnmfError::UnauthorizedMonitor)
                } else {
                    Ok((ann.prose_app_id@, ann.announcing_supi@, (ann.valid_until_epoch_s - now) as u64))
                },
            }
        }
    }
}

impl DdnmfEngine {
    pub fn new(ddnmf_id: &str, plmn_id: &str) -> (r: Self)
        ensures
            ddnmf_wf(r),
            r.ddnmf_id@ == ddnmf_id@,
            r.plmn_id@ == plmn_id@,
            r.next_token_counter == 1,
            r.active_announcements@ == Map::<Seq<char>, AnnouncementRecord>::empty(),
            r.authorized_monitors@ == Map::<Seq<char>, StrTable<MonitorRecord>>::empty(),
            r.supi_permissions@ == Map::<Seq<char>, Vec<String>>::empty(),
    {
        DdnmfEngine {
            ddnmf_id: owned(ddnmf_id),
            plmn_id: owned(plmn_id),
            next_token_counter: 1,
            active_announcements: StrTable::new(),
            authorized_monitors: StrTable::new(),
            supi_permissions: StrTable::new(),
        }
    }

    /// Lets `supi` use `prose_app_id` (added to its list).
    pub fn grant_permission(&mut self, supi: &str, prose_app_id: &str)
        requires
            ddnmf_wf(*old(self)),
        ensures
            ddnmf_wf(*final(self)),
            final(self).supi_permissions@.dom() == old(self).supi_permissions@.dom().insert(supi@),
            forall|k: Seq<char>| k != supi@ ==> #[trigger] final(self).supi_permissions@.get(k)
                == old(self).supi_permissions@.get(k),
            crate::text::strings_view(final(self).supi_permissions@[supi@]@) == (if old(self).supi_permissions@.dom().contains(
                supi@,
            ) {
                crate::text::strings_view(old(self).supi_permissions@[supi@]@)
            } else {
                Seq::empty()
            }).push(prose_app_id@),
            final(self).active_announcements == old(self).active_announcements,
            final(self).authorized_monitors == old(self).authorized_monitors,
            final(self).next_token_counter == old(self).next_token_counter,
            final(self).plmn_id == old(self).plmn_id,
            final(self).ddnmf_id == old(self).ddnmf_id,
    {
        let mut list = match self.supi_permissions.remove(supi) {
            Some(v) => v,
            None => Vec::new(),
        };
        let ghost before = list@;
        list.push(owned(prose_app_id));
        assert(crate::text::strings_view(list@) =~= crate::text::strings_view(before).push(prose_app_id@));
        self.supi_permissions.insert(owned(supi), list);
        assert(self.supi_permissions@.dom() =~= old(self).supi_permissions@.dom().insert(supi@));
    }

    fn is_permitted(&self, supi: &str, app: &str) -> (r: bool)
        requires
            ddnmf_wf(*self),
        ensures
            r == permitted(*self, supi@, app@),
    {
        match self.supi_permissions.get(supi) {
            Some(apps) => crate::text::contains_str(apps, app),
            None => false,
        }
    }

    /// Authorizes an announcement of a permitted application: a fresh code (this PLMN,
    /// the application's text before its first `.` in upper case, and the token counter in
    /// sixteen hexadecimal digits, after which it advances) is recorded under its text
    /// until `current_epoch_s + validity_duration_s`. Not permitted: an error, and nothing
    /// changes.
    pub fn authorize_announce(
        &mut self,
        announcing_supi: &str,
        prose_app_id: &str,
        validity_duration_s: u64,
        current_epoch_s: u64,
    ) -> (r: Result<ProSeAppCode, DdnmfError>)
        requires
            ddnmf_wf(*old(self)),
            permitted(*old(self), announcing_supi@, prose_app_id@) ==> old(self).next_token_counter < u64::MAX
                && current_epoch_s + validity_duration_s <= u64::MAX,
        ensures
            ddnmf_wf(*final(self)),
            !permitted(*old(self), announcing_supi@, prose_app_id@) ==> r == Err::<ProSeAppCode, DdnmfError>(
                DdnmfError::UnauthorizedAppId,
            ) && *final(self) == *old(self),
            permitted(*old(self), announcing_supi@, prose_app_id@) ==> (r matches Ok(pac) && {
                let text = code_text(pac.plmn_id@, pac.app_prefix@, pac.ephemeral_token@);
                let rec = final(self).active_announcements@[text];
                &&& pac.plmn_id@ == old(self).plmn_id@
                &&& pac.app_prefix@ == crate::text::uppercase(chars_before(prose_app_id@, '.'))
                &&& pac.ephemeral_token@ == hex16(old(self).next_token_counter)
                &&& final(self).next_token_counter == old(self).next_token_counter + 1
                &&& final(self).active_announcements@.dom() == old(self).active_announcements@.dom().insert(text)
                &&& forall|k: Seq<char>| k != text ==> #[trigger] final(self).active_announcements@.get(k)
                    == old(self).active_announcements@.get(k)
                &&& rec.prose_app_id@ == prose_app_id@
                &&& rec.announcing_supi@ == announcing_supi@
                &&& rec.prose_app_code.plmn_id@ == pac.plmn_id@
                &&& rec.prose_app_code.app_prefix@ == pac.app_prefix@
                &&& rec.prose_app_code.ephemeral_token@ == pac.ephemeral_token@
                &&& rec.valid_until_epoch_s == current_epoch_s + validity_duration_s
                &&& final(self).authorized_monitors == old(self).authorized_monitors
                &&& final(self).supi_permissions == old(self).supi_permissions
                &&& final(self).plmn_id == old(self).plmn_id
                &&& final(self).ddnmf_id == old(self).ddnmf_id
            }),
    {
        if !self.is_permitted(announcing_supi, prose_app_id) {
            return Err(DdnmfError::UnauthorizedAppId);
        }
        let token = hex_token(self.next_token_counter);
        self.next_token_counter = self.next_token_counter + 1;
        let head = prefix_before(prose_app_id, '.');
        let prefix = crate::text::to_uppercase(head.as_str());
        let pac = ProSeAppCode { plmn_id: self.plmn_id.clone(), app_prefix: prefix, ephemeral_token: token };
        let kept = ProSeAppCode {
            plmn_id: pac.plmn_id.clone(),
            app_prefix: pac.app_prefix.clone(),
            ephemeral_token: pac.ephemeral_token.clone(),
        };
        let record = AnnouncementRecord {
            prose_app_id: owned(prose_app_id),
            announcing_supi: owned(announcing_supi),
            prose_app_code: kept,
            valid_until_epoch_s: current_epoch_s + validity_duration_s,
        };
        let key = pac.to_hex_string();
        self.active_announcements.insert(key, record);
        assert(self.active_announcements@.dom() =~= old(self).active_announcements@.dom().insert(
            code_text(pac.plmn_id@, pac.app_prefix@, pac.ephemeral_token@),
        ));
        Ok(pac)
    }

    /// Authorizes a permitted `monitoring_supi` to monitor `prose_app_id` until
    /// `current_epoch_s + validity_duration_s`. Not permitted: an error, and nothing
    /// changes.
    pub fn authorize_monitor(
        &mut self,
        monitoring_supi: &str,
        prose_app_id: &str,
        validity_duration_s: u64,
        current_epoch_s: u64,
    ) -> (r: Result<(), DdnmfError>)
        requires
            ddnmf_wf(*old(self)),
            permitted(*old(self), monitoring_supi@, prose_app_id@) ==> current_epoch_s + validity_duration_s <= u64::MAX,
        ensures
            ddnmf_wf(*final(self)),
            !permitted(*old(self), monitoring_supi@, prose_app_id@) ==> r == Err::<(), DdnmfError>(
                DdnmfError::UnauthorizedAppId,
            ) && *final(self) == *old(self),
            permitted(*old(self), monitoring_supi@, prose_app_id@) ==> {
                &&& r is Ok
                &&& monitor_of(*final(self), prose_app_id@, monitoring_supi@) matches Some(m) && m.prose_app_id@
                    == prose_app_id@ && m.monitoring_supi@ == monitoring_supi@ && m.valid_until_epoch_s == current_epoch_s
                    + validity_duration_s
                &&& forall|a: Seq<char>, s: Seq<char>| (a != prose_app_id@ || s != monitoring_supi@) ==> #[trigger] monitor_of(
                    *final(self),
                    a,
                    s,
                ) == monitor_of(*old(self), a, s)
                &&& final(self).active_announcements == old(self).active_announcements
                &&& final(self).supi_permissions == old(self).supi_permissions
                &&& final(self).next_token_counter == old(self).next_token_counter
                &&& final(self).plmn_id == old(self).plmn_id
                &&& final(self).ddnmf_id == old(self).ddnmf_id
            },
    {
        if !self.is_permitted(monitoring_supi, prose_app_id) {
            return Err(DdnmfError::UnauthorizedAppId);
        }
        let record = MonitorRecord {
            prose_app_id: owned(prose_app_id),
            monitoring_supi: owned(monitoring_supi),
            valid_until_epoch_s: current_epoch_s + validity_duration_s,
        };
        let mut inner = match self.authorized_monitors.remove(prose_app_id) {
            Some(t) => t,
            None => StrTable::new(),
        };
        let ghost before = inner@;
        inner.insert(owned(monitoring_supi), record);
        self.authorized_monitors.insert(owned(prose_app_id), inner);
        assert forall|k: Seq<char>| #[trigger] self.authorized_monitors@.dom().contains(k) implies self.authorized_monitors@[
            k
        ].wf() by {
            if k != prose_app_id@ {
                assert(old(self).authorized_monitors@.dom().contains(k));
            }
        }
        assert forall|a: Seq<char>, s: Seq<char>| (a != prose_app_id@ || s != monitoring_supi@) implies #[trigger] monitor_of(
            *self,
            a,
            s,
        ) == monitor_of(*old(self), a, s) by {
            if a == prose_app_id@ {
                assert(self.authorized_monitors@[a]@ == before.insert(monitoring_supi@, record));
            }
        }
        Ok(())
    }

    /// Answers a match report (see `match_outcome`).
    pub fn match_report(&self, monitoring_supi: &str, prose_app_code_hex: &str, current_epoch_s: u64) -> (r: Result<
        MatchReportResult,
        DdnmfError,
    >)
        requires
            ddnmf_wf(*self),
        ensures
            match match_outcome(*self, monitoring_supi@, prose_app_code_hex@, current_epoch_s) {
                Ok((app, announcer, left)) => r matches Ok(m) && m.prose_app_id@ == app && m.announcing_supi@ == announcer
                    && m.validity_time_remaining_s == left,
                Err(e) => r == Err::<MatchReportResult, DdnmfError>(e),
            },
    {
        let ann = match self.active_announcements.get(prose_app_code_hex) {
            Some(a) => a,
            None => {
                return Err(DdnmfError::ProSeCodeNotFound);
            },
        };
        if current_epoch_s >= ann.valid_until_epoch_s {
            return Err(DdnmfError::ProSeCodeExpired);
        }
        let mon = match self.authorized_monitors.get(ann.prose_app_id.as_str()) {
            Some(t) => match t.get(monitoring_supi) {
                Some(m) => m,
                None => {
                    return Err(DdnmfError::UnauthorizedMonitor);
                },
            },
            None => {
                return Err(DdnmfError::UnauthorizedMonitor);
            },
        };
        if current_epoch_s >= mon.valid_until_epoch_s {
            return Err(DdnmfError::UnauthorizedMonitor);
        }
        Ok(
            MatchReportResult {
                prose_app_id: ann.prose_app_id.clone(),
                announcing_supi: ann.announcing_supi.clone(),
                validity_time_remaining_s: ann.valid_until_epoch_s - current_epoch_s,
            },
        )
    }

    /// Revokes the announcement under a code text at once; an unknown code is an error.
    pub fn revoke_announcement(&mut self, prose_app_code_hex: &str) -> (r: Result<(), DdnmfError>)
        requires
            ddnmf_wf(*old(self)),
        ensures
            ddnmf_wf(*final(self)),
            (r is Ok) == old(self).active_announcements@.dom().contains(prose_app_code_hex@),
            r matches Err(e) ==> e == DdnmfError::RevocationFailed,
            final(self).active_announcements@ == old(self).active_announcements@.remove(prose_app_code_hex@),
            final(self).authorized_monitors == old(self).authorized_monitors,
            final(self).supi_permissions == old(self).supi_permissions,
            final(self).next_token_counter == old(self).next_token_counter,
            final(self).plmn_id == old(self).plmn_id,
            final(self).ddnmf_id == old(self).ddnmf_id,
    {
        match self.active_announcements.remove(prose_app_code_hex) {
            Some(_) => Ok(()),
            None => Err(DdnmfError::RevocationFailed),
        }
    }
}

/// A code announced until some time and monitored by an authorized, unexpired monitor
/// of its application matches before that time, with the time left.
pub proof fn lemma_announced_code_matches(e: DdnmfEngine, supi: Seq<char>, code: Seq<char>, now: u64)
    requires
        e.active_announcements@.dom().contains(code),
        now < e.active_announcements@[code].valid_until_epoch_s,
        monitor_of(e, e.active_announcements@[code].prose_app_id@, supi) matches Some(m) && now < m.valid_until_epoch_s,
    ensures
        match_outcome(e, supi, code, now) == Ok::<(Seq<char>, Seq<char>, u64), DdnmfError>(
            (
                e.active_announcements@[code].prose_app_id@,
                e.active_announcements@[code].announcing_supi@,
                (e.active_announcements@[code].valid_until_epoch_s - now) as u64,
            ),
        ),
{
}

/// A code that is not (or no longer) announced matches nothing: the report is answered
/// with code not found, whoever sends it and whenever.
pub proof fn lemma_revoked_code_not_found(e: DdnmfEngine, supi: Seq<char>, code: Seq<char>, now: u64)
    requires
        !e.active_announcements@.dom().contains(code),
    ensures
        match_outcome(e, supi, code, now) == Err::<(Seq<char>, Seq<char>, u64), DdnmfError>(DdnmfError::ProSeCodeNotFound),
{
}

} // verus!
