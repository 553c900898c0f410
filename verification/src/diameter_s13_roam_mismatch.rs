//! Roaming plausibility for the EIR: the country a device's TAC was allocated to, against the
//! MCC of the network serving it.
use vstd::prelude::*;
use vstd::string::*;
use vstd::utf8::{encode_utf8, is_char_boundary};
use crate::text::{str_eq, strings_view, to_uppercase, uppercase, contains_str};
use crate::diameter_s13_imei_tamper::{digits, has_prefix};

verus! {

broadcast use vstd::string::is_ascii_spec_bytes;

#[derive(Debug, Clone, PartialEq, Eq)]
pub struct TacCountryMapping {
    pub tac_prefix: String,
    pub allocated_country_iso: String,
    pub allocated_mcc: String,
    pub risk_weight: u8,
}

#[derive(Debug, Clone, PartialEq, Eq)]
pub enum RoamingValidationVerdict {
    DomesticConformant { imei: String, tac: String, serving_mcc: String },
    AuthorizedInternationalRoaming { imei: String, tac: String, tac_origin_country: String, serving_mcc: String },
    SuspiciousCountryMismatch { imei: String, tac: String, tac_origin_country: String, serving_mcc: String, risk_score: u8 },
    BlacklistedCountryBlocked { imei: String, tac: String, tac_origin_country: String, serving_mcc: String },
    InvalidImeiFormat { input: String },
}

/// A mapping as (prefix, country, MCC, risk).
pub open spec fn mapping_view(m: TacCountryMapping) -> (Seq<char>, Seq<char>, Seq<char>, u8) {
    (m.tac_prefix@, m.allocated_country_iso@, m.allocated_mcc@, m.risk_weight)
}

pub open spec fn mappings_view(v: Seq<TacCountryMapping>) -> Seq<(Seq<char>, Seq<char>, Seq<char>, u8)> {
    v.map_values(|m: TacCountryMapping| mapping_view(m))
}

/// The first mapping with prefix `p`.
pub open spec fn prefix_pos(v: Seq<(Seq<char>, Seq<char>, Seq<char>, u8)>, p: Seq<char>) -> Option<int>
    decreases v.len(),
{
    if v.len() == 0 {
        None
    } else if v[0].0 == p {
        Some(0)
    } else {
        match prefix_pos(v.skip(1), p) {
            Some(i) => Some(i + 1),
            None => None,
        }
    }
}

proof fn lemma_prefix_pos(v: Seq<(Seq<char>, Seq<char>, Seq<char>, u8)>, p: Seq<char>)
    ensures
        match prefix_pos(v, p) {
            Some(i) => 0 <= i < v.len() && v[i].0 == p && forall|j: int| 0 <= j < i ==> v[j].0 != p,
            None => forall|j: int| 0 <= j < v.len() ==> v[j].0 != p,
        },
    decreases v.len(),
{
    if v.len() > 0 {
        lemma_prefix_pos(v.skip(1), p);
        assert forall|j: int| 1 <= j < v.len() implies v[j] == v.skip(1)[j - 1] by {}
    }
}

/// Among the first `n` mappings, the one whose prefix begins `tac` with the longest prefix
/// (in octets), the later one on ties.
pub open spec fn best_mapping(v: Seq<(Seq<char>, Seq<char>, Seq<char>, u8)>, tac: Seq<char>, n: int) -> Option<int>
    decreases n,
{
    if n <= 0 {
        None
    } else {
        let b = best_mapping(v, tac, n - 1);
        if has_prefix(tac, v[n - 1].0) && (b is None || encode_utf8(v[n - 1].0).len() >= encode_utf8(v[b.unwrap()].0).len()) {
            Some(n - 1)
        } else {
            b
        }
    }
}

proof fn lemma_best_mapping(v: Seq<(Seq<char>, Seq<char>, Seq<char>, u8)>, tac: Seq<char>, n: int)
    ensures
        best_mapping(v, tac, n) matches Some(i) ==> 0 <= i < n,
    decreases n,
{
    if n > 0 {
        lemma_best_mapping(v, tac, n - 1);
    }
}

/// The serving MCC: the first three octets of the PLMN, or all of it when shorter.
pub open spec fn is_mcc_of(mcc: Seq<char>, plmn: Seq<char>) -> bool {
    if encode_utf8(plmn).len() >= 3 {
        encode_utf8(mcc) == encode_utf8(plmn).subrange(0, 3)
    } else {
        mcc == plmn
    }
}

/// The outcome class of an evaluation: 0 invalid, 1 domestic, 2 authorized roaming,
/// 3 suspicious, 4 blocked.
pub open spec fn roaming_class(
    maps: Seq<(Seq<char>, Seq<char>, Seq<char>, u8)>,
    black: Seq<Seq<char>>,
    imei: Seq<char>,
    mcc: Seq<char>,
) -> int {
    if encode_utf8(imei).len() < 8 || !digits(imei) {
        0
    } else {
        let tac = imei.subrange(0, 8);
        let (country, allocated, risk) = match best_mapping(maps, tac, maps.len() as int) {
            Some(i) => (maps[i].1, maps[i].2, maps[i].3),
            None => ("UNKNOWN"@, "000"@, 50u8),
        };
        if black.contains(uppercase(country)) {
            4
        } else if mcc == allocated {
            1
        } else if risk > 60 {
            3
        } else {
            2
        }
    }
}

#[derive(Debug, Clone)]
pub struct S13RoamingMismatchEngine {
    pub country_mappings: Vec<TacCountryMapping>,
    pub blacklisted_origin_countries: Vec<String>,
    pub total_validations: u64,
    pub total_domestic_passes: u64,
    pub total_authorized_roaming: u64,
    pub total_suspicious_mismatches: u64,
    pub total_blocked_roamers: u64,
}

fn mcc_of(plmn: &str) -> (r: &str)
    requires
        encode_utf8(plmn@).len() >= 3 ==> is_char_boundary(encode_utf8(plmn@), 3),
    ensures
        is_mcc_of(r@, plmn@),
{
    if plmn.as_bytes().len() >= 3 {
        let (head, _tail) = plmn.split_at(3);
        assert(head.spec_bytes() == encode_utf8(head@));
        assert(plmn.spec_bytes() == encode_utf8(plmn@));
        head
    } else {
        plmn
    }
}

impl Default for S13RoamingMismatchEngine {
    fn default() -> (r: Self)
        ensures
            r.total_validations == 0,
            r.country_mappings@.len() == 6,
    {
        let r = Self::new();
        assert(mappings_view(r.country_mappings@).len() == 6);
        r
    }
}

impl S13RoamingMismatchEngine {
    /// An engine with the built-in TAC allocations (01 US, 35 UK, 86 CN, 49 DE, 44 GB, 99 TEST).
    pub fn new() -> (r: Self)
        ensures
            mappings_view(r.country_mappings@) == seq![
                ("01"@, "US"@, "310"@, 10u8),
                ("35"@, "UK"@, "234"@, 10u8),
                ("86"@, "CN"@, "460"@, 20u8),
                ("49"@, "DE"@, "262"@, 10u8),
                ("44"@, "GB"@, "234"@, 10u8),
                ("99"@, "TEST"@, "001"@, 80u8),
            ],
            r.blacklisted_origin_countries@.len() == 0,
            r.total_validations == 0,
            r.total_domestic_passes == 0,
            r.total_authorized_roaming == 0,
            r.total_suspicious_mismatches == 0,
            r.total_blocked_roamers == 0,
    {
        let mut engine = Self {
            country_mappings: Vec::new(),
            blacklisted_origin_countries: Vec::new(),
            total_validations: 0,
            total_domestic_passes: 0,
            total_authorized_roaming: 0,
            total_suspicious_mismatches: 0,
            total_blocked_roamers: 0,
        };
        proof {
            reveal_strlit("01");
            reveal_strlit("35");
            reveal_strlit("86");
            reveal_strlit("49");
            reveal_strlit("44");
            reveal_strlit("99");
        }
        assert(mappings_view(engine.country_mappings@) =~= Seq::<(Seq<char>, Seq<char>, Seq<char>, u8)>::empty());
        engine.add_tac_country_mapping("01", "US", "310", 10);
        assert(mappings_view(engine.country_mappings@) =~= seq![("01"@, "US"@, "310"@, 10u8)]);
        proof {
            lemma_prefix_pos(seq![("01"@, "US"@, "310"@, 10u8)], "35"@);
            assert("01"@ != "35"@) by { assert("01"@[0] != "35"@[0] || "01"@[1] != "35"@[1]); }
        }
        engine.add_tac_country_mapping("35", "UK", "234", 10);
        assert(mappings_view(engine.country_mappings@) =~= seq![("01"@, "US"@, "310"@, 10u8), ("35"@, "UK"@, "234"@, 10u8)]);
        proof {
            lemma_prefix_pos(seq![("01"@, "US"@, "310"@, 10u8), ("35"@, "UK"@, "234"@, 10u8)], "86"@);
            assert("01"@ != "86"@) by { assert("01"@[0] != "86"@[0] || "01"@[1] != "86"@[1]); }
            assert("35"@ != "86"@) by { assert("35"@[0] != "86"@[0] || "35"@[1] != "86"@[1]); }
        }
        engine.add_tac_country_mapping("86", "CN", "460", 20);
        assert(mappings_view(engine.country_mappings@) =~= seq![("01"@, "US"@, "310"@, 10u8), ("35"@, "UK"@, "234"@, 10u8), ("86"@, "CN"@, "460"@, 20u8)]);
        proof {
            lemma_prefix_pos(seq![("01"@, "US"@, "310"@, 10u8), ("35"@, "UK"@, "234"@, 10u8), ("86"@, "CN"@, "460"@, 20u8)], "49"@);
            assert("01"@ != "49"@) by { assert("01"@[0] != "49"@[0] || "01"@[1] != "49"@[1]); }
            assert("35"@ != "49"@) by { assert("35"@[0] != "49"@[0] || "35"@[1] != "49"@[1]); }
            assert("86"@ != "49"@) by { assert("86"@[0] != "49"@[0] || "86"@[1] != "49"@[1]); }
        }
        engine.add_tac_country_mapping("49", "DE", "262", 10);
        assert(mappings_view(engine.country_mappings@) =~= seq![("01"@, "US"@, "310"@, 10u8), ("35"@, "UK"@, "234"@, 10u8), ("86"@, "CN"@, "460"@, 20u8), ("49"@, "DE"@, "262"@, 10u8)]);
        proof {
            lemma_prefix_pos(seq![("01"@, "US"@, "310"@, 10u8), ("35"@, "UK"@, "234"@, 10u8), ("86"@, "CN"@, "460"@, 20u8), ("49"@, "DE"@, "262"@, 10u8)], "44"@);
            assert("01"@ != "44"@) by { assert("01"@[0] != "44"@[0] || "01"@[1] != "44"@[1]); }
            assert("35"@ != "44"@) by { assert("35"@[0] != "44"@[0] || "35"@[1] != "44"@[1]); }
            assert("86"@ != "44"@) by { assert("86"@[0] != "44"@[0] || "86"@[1] != "44"@[1]); }
            assert("49"@ != "44"@) by { assert("49"@[0] != "44"@[0] || "49"@[1] != "44"@[1]); }
        }
        engine.add_tac_country_mapping("44", "GB", "234", 10);
        assert(mappings_view(engine.country_mappings@) =~= seq![("01"@, "US"@, "310"@, 10u8), ("35"@, "UK"@, "234"@, 10u8), ("86"@, "CN"@, "460"@, 20u8), ("49"@, "DE"@, "262"@, 10u8), ("44"@, "GB"@, "234"@, 10u8)]);
        proof {
            lemma_prefix_pos(seq![("01"@, "US"@, "310"@, 10u8), ("35"@, "UK"@, "234"@, 10u8), ("86"@, "CN"@, "460"@, 20u8), ("49"@, "DE"@, "262"@, 10u8), ("44"@, "GB"@, "234"@, 10u8)], "99"@);
            assert("01"@ != "99"@) by { assert("01"@[0] != "99"@[0] || "01"@[1] != "99"@[1]); }
            assert("35"@ != "99"@) by { assert("35"@[0] != "99"@[0] || "35"@[1] != "99"@[1]); }
            assert("86"@ != "99"@) by { assert("86"@[0] != "99"@[0] || "86"@[1] != "99"@[1]); }
            assert("49"@ != "99"@) by { assert("49"@[0] != "99"@[0] || "49"@[1] != "99"@[1]); }
            assert("44"@ != "99"@) by { assert("44"@[0] != "99"@[0] || "44"@[1] != "99"@[1]); }
        }
        engine.add_tac_country_mapping("99", "TEST", "001", 80);
        assert(mappings_view(engine.country_mappings@) =~= seq![("01"@, "US"@, "310"@, 10u8), ("35"@, "UK"@, "234"@, 10u8), ("86"@, "CN"@, "460"@, 20u8), ("49"@, "DE"@, "262"@, 10u8), ("44"@, "GB"@, "234"@, 10u8), ("99"@, "TEST"@, "001"@, 80u8)]);
        assert(mappings_view(engine.country_mappings@) =~= seq![
            ("01"@, "US"@, "310"@, 10u8),
            ("35"@, "UK"@, "234"@, 10u8),
            ("86"@, "CN"@, "460"@, 20u8),
            ("49"@, "DE"@, "262"@, 10u8),
            ("44"@, "GB"@, "234"@, 10u8),
            ("99"@, "TEST"@, "001"@, 80u8),
        ]);
        engine
    }

    /// Replaces the country, MCC and risk of the first mapping with `tac_prefix`, or appends a
    /// new mapping.
    pub fn add_tac_country_mapping(&mut self, tac_prefix: &str, allocated_country_iso: &str, allocated_mcc: &str, risk_weight: u8)
        ensures
            mappings_view(final(self).country_mappings@) == match prefix_pos(mappings_view(old(self).country_mappings@), tac_prefix@) {
                Some(i) => mappings_view(old(self).country_mappings@).update(i, (tac_prefix@, allocated_country_iso@, allocated_mcc@, risk_weight)),
                None => mappings_view(old(self).country_mappings@).push((tac_prefix@, allocated_country_iso@, allocated_mcc@, risk_weight)),
            },
            final(self).blacklisted_origin_countries == old(self).blacklisted_origin_countries,
            final(self).total_validations == old(self).total_validations,
            final(self).total_domestic_passes == old(self).total_domestic_passes,
            final(self).total_authorized_roaming == old(self).total_authorized_roaming,
            final(self).total_suspicious_mismatches == old(self).total_suspicious_mismatches,
            final(self).total_blocked_roamers == old(self).total_blocked_roamers,
    {
        let ghost v = mappings_view(self.country_mappings@);
        proof {
            lemma_prefix_pos(v, tac_prefix@);
        }
        let mut i: usize = 0;
        while i < self.country_mappings.len()
            invariant
                i <= self.country_mappings@.len(),
                v == mappings_view(self.country_mappings@),
                forall|j: int| 0 <= j < i ==> #[trigger] v[j].0 != tac_prefix@,
                match prefix_pos(v, tac_prefix@) {
                    Some(k) => 0 <= k < v.len() && v[k].0 == tac_prefix@ && forall|j: int| 0 <= j < k ==> v[j].0 != tac_prefix@,
                    None => forall|j: int| 0 <= j < v.len() ==> v[j].0 != tac_prefix@,
                },
                self.blacklisted_origin_countries == old(self).blacklisted_origin_countries,
                self.country_mappings == old(self).country_mappings,
                self.total_validations == old(self).total_validations,
                self.total_domestic_passes == old(self).total_domestic_passes,
                self.total_authorized_roaming == old(self).total_authorized_roaming,
                self.total_suspicious_mismatches == old(self).total_suspicious_mismatches,
                self.total_blocked_roamers == old(self).total_blocked_roamers,
            decreases self.country_mappings@.len() - i,
        {
            assert(v[i as int] == mapping_view(self.country_mappings@[i as int]));
            if str_eq(self.country_mappings[i].tac_prefix.as_str(), tac_prefix) {
                proof {
                    let k = prefix_pos(v, tac_prefix@);
                    if k is None {
                    } else if k.unwrap() > i {
                    }
                }
                let p = self.country_mappings[i].tac_prefix.clone();
                self.country_mappings.set(i, TacCountryMapping {
                    tac_prefix: p,
                    allocated_country_iso: allocated_country_iso.to_owned(),
                    allocated_mcc: allocated_mcc.to_owned(),
                    risk_weight,
                });
                assert(mappings_view(self.country_mappings@) =~= v.update(i as int, (tac_prefix@, allocated_country_iso@, allocated_mcc@, risk_weight)));
                return;
            }
            i = i + 1;
        }
        proof {
            if prefix_pos(v, tac_prefix@) is Some {
                let k = prefix_pos(v, tac_prefix@).unwrap();
                assert(v[k].0 != tac_prefix@);
            }
        }
        self.country_mappings.push(TacCountryMapping {
            tac_prefix: tac_prefix.to_owned(),
            allocated_country_iso: allocated_country_iso.to_owned(),
            allocated_mcc: allocated_mcc.to_owned(),
            risk_weight,
        });
        assert(mappings_view(self.country_mappings@) =~= v.push((tac_prefix@, allocated_country_iso@, allocated_mcc@, risk_weight)));
    }

    /// Adds the upper-cased country to the blacklist unless it is there.
    pub fn add_blacklisted_origin_country(&mut self, country_iso: &str)
        ensures
            strings_view(final(self).blacklisted_origin_countries@) == if strings_view(old(self).blacklisted_origin_countries@).contains(uppercase(country_iso@)) {
                strings_view(old(self).blacklisted_origin_countries@)
            } else {
                strings_view(old(self).blacklisted_origin_countries@).push(uppercase(country_iso@))
            },
            final(self).country_mappings == old(self).country_mappings,
            final(self).total_validations == old(self).total_validations,
    {
        let iso = to_uppercase(country_iso);
        if !contains_str(&self.blacklisted_origin_countries, iso.as_str()) {
            let ghost b0 = strings_view(self.blacklisted_origin_countries@);
            let ghost u = iso@;
            self.blacklisted_origin_countries.push(iso);
            assert(strings_view(self.blacklisted_origin_countries@) =~= b0.push(u));
        }
    }

    fn best(&self, tac: &str) -> (r: Option<usize>)
        requires
            tac.is_ascii(),
        ensures
            match r {
                Some(i) => best_mapping(mappings_view(self.country_mappings@), tac@, self.country_mappings@.len() as int) == Some(i as int),
                None => best_mapping(mappings_view(self.country_mappings@), tac@, self.country_mappings@.len() as int) is None,
            },
    {
        let ghost v = mappings_view(self.country_mappings@);
        let mut best: Option<usize> = None;
        let mut best_len: usize = 0;
        let mut i: usize = 0;
        while i < self.country_mappings.len()
            invariant
                i <= self.country_mappings@.len(),
                v == mappings_view(self.country_mappings@),
                tac.is_ascii(),
                match best {
                    Some(b) => best_mapping(v, tac@, i as int) == Some(b as int) && b < i && best_len == encode_utf8(v[b as int].0).len(),
                    None => best_mapping(v, tac@, i as int) is None,
                },
            decreases self.country_mappings@.len() - i,
        {
            let m = &self.country_mappings[i];
            assert(v[i as int] == mapping_view(self.country_mappings@[i as int]));
            if crate::diameter_s13_imei_tamper::prefix_of_ascii(tac, m.tac_prefix.as_str()) {
                let l = m.tac_prefix.as_str().as_bytes().len();
                if best.is_none() || l >= best_len {
                    best = Some(i);
                    best_len = l;
                }
            }
            i = i + 1;
        }
        best
    }

    /// Evaluates a device: an IMEI shorter than eight octets or with non-digits is invalid;
    /// otherwise its TAC picks the best mapping (see `best_mapping`; UNKNOWN/000/50 when none),
    /// and the verdict is blocked (blacklisted country, upper-cased), domestic (serving MCC
    /// equals the allocated one), suspicious (risk above 60) or authorized roaming.
    pub fn evaluate_roaming_equipment(&mut self, imei: &str, serving_plmn: &str) -> (r: RoamingValidationVerdict)
        requires
            encode_utf8(serving_plmn@).len() >= 3 ==> is_char_boundary(encode_utf8(serving_plmn@), 3),
            old(self).total_validations < u64::MAX,
            old(self).total_domestic_passes < u64::MAX,
            old(self).total_authorized_roaming < u64::MAX,
            old(self).total_suspicious_mismatches < u64::MAX,
            old(self).total_blocked_roamers < u64::MAX,
        ensures
            final(self).total_validations == old(self).total_validations + 1,
            final(self).country_mappings == old(self).country_mappings,
            final(self).blacklisted_origin_countries == old(self).blacklisted_origin_countries,
            ({
                let maps = mappings_view(old(self).country_mappings@);
                let black = strings_view(old(self).blacklisted_origin_countries@);
                let class = roaming_class(maps, black, imei@, choose|m: Seq<char>| is_mcc_of(m, serving_plmn@));
                let tac = imei@.subrange(0, 8);
                let country = match best_mapping(maps, tac, maps.len() as int) {
                    Some(i) => maps[i].1,
                    None => "UNKNOWN"@,
                };
                &&& class == 0 ==> (r matches RoamingValidationVerdict::InvalidImeiFormat { input } && input@ == imei@)
                &&& class == 1 ==> (r matches RoamingValidationVerdict::DomesticConformant { imei: i, tac: t, serving_mcc }
                    && i@ == imei@ && t@ == tac && is_mcc_of(serving_mcc@, serving_plmn@))
                &&& class == 2 ==> (r matches RoamingValidationVerdict::AuthorizedInternationalRoaming { imei: i, tac: t, tac_origin_country, serving_mcc }
                    && i@ == imei@ && t@ == tac && tac_origin_country@ == country && is_mcc_of(serving_mcc@, serving_plmn@))
                &&& class == 3 ==> (r matches RoamingValidationVerdict::SuspiciousCountryMismatch { imei: i, tac: t, tac_origin_country, serving_mcc, risk_score }
                    && i@ == imei@ && t@ == tac && tac_origin_country@ == country && is_mcc_of(serving_mcc@, serving_plmn@)
                    && risk_score == maps[best_mapping(maps, tac, maps.len() as int).unwrap()].3)
                &&& class == 4 ==> (r matches RoamingValidationVerdict::BlacklistedCountryBlocked { imei: i, tac: t, tac_origin_country, serving_mcc }
                    && i@ == imei@ && t@ == tac && tac_origin_country@ == country && is_mcc_of(serving_mcc@, serving_plmn@))
                &&& final(self).total_domestic_passes == old(self).total_domestic_passes + if class == 1 { 1int } else { 0int }
                &&& final(self).total_authorized_roaming == old(self).total_authorized_roaming + if class == 2 { 1int } else { 0int }
                &&& final(self).total_suspicious_mismatches == old(self).total_suspicious_mismatches + if class == 3 { 1int } else { 0int }
                &&& final(self).total_blocked_roamers == old(self).total_blocked_roamers + if class == 4 { 1int } else { 0int }
            }),
    {
        self.total_validations = self.total_validations + 1;
        let mcc = mcc_of(serving_plmn);
        proof {
            assert(is_mcc_of(mcc@, serving_plmn@));
            let c = choose|m: Seq<char>| is_mcc_of(m, serving_plmn@);
            assert(is_mcc_of(c, serving_plmn@));
            if encode_utf8(serving_plmn@).len() >= 3 {
                vstd::utf8::encode_utf8_decode_utf8(c);
                vstd::utf8::encode_utf8_decode_utf8(mcc@);
            }
            assert(c == mcc@);
        }
        let digits_ok = crate::diameter_s13_imei_tamper::all_digit_chars_pub(imei);
        assert(imei.spec_bytes() == encode_utf8(imei@));
        if imei.as_bytes().len() < 8 || !digits_ok {
            return RoamingValidationVerdict::InvalidImeiFormat { input: imei.to_owned() };
        }
        assert(imei.spec_bytes().len() == imei@.len());
        let tac = imei.substring_ascii(0, 8);
        let ghost maps = mappings_view(self.country_mappings@);
        proof {
            lemma_best_mapping(maps, tac@, maps.len() as int);
        }
        let (country_iso, allocated_mcc, risk) = match self.best(tac) {
            Some(i) => {
                let m = &self.country_mappings[i];
                assert(maps[i as int] == mapping_view(self.country_mappings@[i as int]));
                (m.allocated_country_iso.clone(), m.allocated_mcc.clone(), m.risk_weight)
            },
            None => ("UNKNOWN".to_owned(), "000".to_owned(), 50u8),
        };
        let upper = to_uppercase(country_iso.as_str());
        if contains_str(&self.blacklisted_origin_countries, upper.as_str()) {
            self.total_blocked_roamers = self.total_blocked_roamers + 1;
            return RoamingValidationVerdict::BlacklistedCountryBlocked {
                imei: imei.to_owned(),
                tac: tac.to_owned(),
                tac_origin_country: country_iso,
                serving_mcc: mcc.to_owned(),
            };
        }
        if str_eq(mcc, allocated_mcc.as_str()) {
            self.total_domestic_passes = self.total_domestic_passes + 1;
            RoamingValidationVerdict::DomesticConformant { imei: imei.to_owned(), tac: tac.to_owned(), serving_mcc: mcc.to_owned() }
        } else if risk > 60 {
            self.total_suspicious_mismatches = self.total_suspicious_mismatches + 1;
            RoamingValidationVerdict::SuspiciousCountryMismatch {
                imei: imei.to_owned(),
                tac: tac.to_owned(),
                tac_origin_country: country_iso,
                serving_mcc: mcc.to_owned(),
                risk_score: risk,
            }
        } else {
            self.total_authorized_roaming = self.total_authorized_roaming + 1;
            RoamingValidationVerdict::AuthorizedInternationalRoaming {
                imei: imei.to_owned(),
                tac: tac.to_owned(),
                tac_origin_country: country_iso,
                serving_mcc: mcc.to_owned(),
            }
        }
    }

    /// Zeroes the counters.
    pub fn reset(&mut self)
        ensures
            final(self).total_validations == 0,
            final(self).total_domestic_passes == 0,
            final(self).total_authorized_roaming == 0,
            final(self).total_suspicious_mismatches == 0,
            final(self).total_blocked_roamers == 0,
            final(self).country_mappings == old(self).country_mappings,
            final(self).blacklisted_origin_countries == old(self).blacklisted_origin_countries,
    {
        self.total_validations = 0;
        self.total_domestic_passes = 0;
        self.total_authorized_roaming = 0;
        self.total_suspicious_mismatches = 0;
        self.total_blocked_roamers = 0;
    }
}

} // verus!
