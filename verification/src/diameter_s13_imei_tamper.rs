//! IMEI / IMEI-SV integrity checks for the EIR: Luhn check digits, dummy serial patterns and
//! manufacturer software-version ranges.
use vstd::prelude::*;
use vstd::string::*;
use vstd::utf8::is_ascii_chars;
use crate::text::{concat, decimal, dec_chars};

verus! {

broadcast use vstd::string::is_ascii_spec_bytes;

pub const IMEI_LENGTH: usize = 15;
pub const IMEI_SV_LENGTH: usize = 16;

#[derive(Debug, Clone, PartialEq, Eq)]
pub enum ImeiValidationVerdict {
    ValidImei { imei: String, tac: String, snr: String, check_digit: u8 },
    ValidImeiSv { imei_sv: String, tac: String, snr: String, svn: String },
    InvalidLength { input: String, length: usize },
    InvalidCharacters { input: String },
    LuhnChecksumFailed { imei: String, expected_cd: u8, actual_cd: u8 },
    HardwareTamperedCloned { imei: String, reason: String },
}

#[derive(Debug, Clone)]
pub struct ManufacturerProfile {
    pub tac_prefix: String,
    pub manufacturer: String,
    pub min_allowed_svn: u8,
    pub max_allowed_svn: u8,
}

/// Whether every character is a decimal digit.
pub open spec fn digits(s: Seq<char>) -> bool {
    forall|i: int| 0 <= i < s.len() ==> '0' <= #[trigger] s[i] <= '9'
}

/// The value of a digit character.
pub open spec fn dval(c: char) -> int {
    c as int - 48
}

/// The Luhn contribution of position `i`: every second digit is doubled and its digits added.
pub open spec fn luhn_term(s: Seq<char>, i: int) -> int {
    if i % 2 == 1 {
        (2 * dval(s[i])) / 10 + (2 * dval(s[i])) % 10
    } else {
        dval(s[i])
    }
}

/// The Luhn sum of the first `n` digits.
pub open spec fn luhn_sum(s: Seq<char>, n: int) -> int
    decreases n,
{
    if n <= 0 {
        0
    } else {
        luhn_sum(s, n - 1) + luhn_term(s, n - 1)
    }
}

/// The Luhn check digit of a 14-digit payload.
pub open spec fn luhn_digit(s: Seq<char>) -> int {
    (10 - luhn_sum(s, 14) % 10) % 10
}

/// Whether every character equals the first.
pub open spec fn all_same(s: Seq<char>) -> bool {
    forall|i: int| 0 <= i < s.len() ==> #[trigger] s[i] == s[0]
}

/// Whether `p` is a prefix of `s`.
pub open spec fn has_prefix(s: Seq<char>, p: Seq<char>) -> bool {
    p.len() <= s.len() && s.subrange(0, p.len() as int) == p
}

/// A serial number that is a prohibited dummy: one repeated character, or starting 0123456789.
pub open spec fn dummy(s: Seq<char>) -> bool {
    all_same(s) || has_prefix(s, "0123456789"@)
}

/// The value of a two-digit text.
pub open spec fn two_digit_value(s: Seq<char>) -> int {
    dval(s[0]) * 10 + dval(s[1])
}

/// The first profile whose TAC prefix begins `s`.
pub open spec fn first_profile(v: Seq<ManufacturerProfile>, s: Seq<char>) -> Option<int>
    decreases v.len(),
{
    if v.len() == 0 {
        None
    } else if has_prefix(s, v[0].tac_prefix@) {
        Some(0)
    } else {
        match first_profile(v.skip(1), s) {
            Some(i) => Some(i + 1),
            None => None,
        }
    }
}

proof fn lemma_first_profile(v: Seq<ManufacturerProfile>, s: Seq<char>)
    ensures
        match first_profile(v, s) {
            Some(i) => 0 <= i < v.len() && has_prefix(s, v[i].tac_prefix@) && forall|j: int| 0 <= j < i ==> !has_prefix(s, v[j].tac_prefix@),
            None => forall|j: int| 0 <= j < v.len() ==> !has_prefix(s, v[j].tac_prefix@),
        },
    decreases v.len(),
{
    if v.len() > 0 {
        lemma_first_profile(v.skip(1), s);
        assert forall|j: int| 1 <= j < v.len() implies v[j] == v.skip(1)[j - 1] by {}
    }
}

/// The reason given for a software version out of a profile's range.
pub open spec fn svn_reason(svn: u8, p: ManufacturerProfile) -> Seq<char> {
    "Software Version Number (SVN "@ + dec_chars(svn as nat) + ") out of valid range ("@ + dec_chars(p.min_allowed_svn as nat)
        + ".."@ + dec_chars(p.max_allowed_svn as nat) + ") for manufacturer "@ + p.manufacturer@
}

/// Whether every character of `s` is a decimal digit.
fn all_digit_chars(s: &str) -> (r: bool)
    ensures
        r == digits(s@),
        r ==> s.is_ascii(),
{
    if !s.is_ascii() {
        proof {
            if digits(s@) {
                assert forall|i: int| 0 <= i < s@.len() implies '\0' <= #[trigger] s@[i] <= '\u{7f}' by {
                    assert('0' <= s@[i] <= '9');
                }
            }
        }
        return false;
    }
    let n = s.as_bytes().len();
    assert(s.spec_bytes().len() == s@.len());
    let mut i: usize = 0;
    while i < n
        invariant
            s.is_ascii(),
            n == s@.len(),
            i <= n,
            forall|j: int| 0 <= j < i ==> '0' <= #[trigger] s@[j] <= '9',
        decreases n - i,
    {
        let b = s.get_ascii(i);
        if b < 48 || b > 57 {
            return false;
        }
        i = i + 1;
    }
    true
}

/// Whether `p` begins the ASCII text `s`.
fn starts_with_ascii(s: &str, p: &str) -> (r: bool)
    requires
        s.is_ascii(),
    ensures
        r == has_prefix(s@, p@),
{
    if !p.is_ascii() {
        proof {
            if has_prefix(s@, p@) {
                assert forall|i: int| 0 <= i < p@.len() implies '\0' <= #[trigger] p@[i] <= '\u{7f}' by {
                    assert(p@[i] == s@.subrange(0, p@.len() as int)[i]);
                    assert('\0' <= s@[i] <= '\u{7f}');
                }
                assert(is_ascii_chars(p@));
            }
        }
        return false;
    }
    let pn = p.as_bytes().len();
    let sn = s.as_bytes().len();
    assert(s.spec_bytes().len() == s@.len());
    assert(p.spec_bytes().len() == p@.len());
    if pn > sn {
        return false;
    }
    let mut i: usize = 0;
    while i < pn
        invariant
            s.is_ascii(),
            p.is_ascii(),
            pn == p@.len(),
            sn == s@.len(),
            pn <= sn,
            i <= pn,
            forall|j: int| 0 <= j < i ==> #[trigger] s@[j] == p@[j],
        decreases pn - i,
    {
        if s.get_ascii(i) != p.get_ascii(i) {
            proof {
                assert(s@.subrange(0, pn as int)[i as int] == s@[i as int]);
            }
            return false;
        }
        i = i + 1;
    }
    assert(s@.subrange(0, pn as int) =~= p@);
    true
}

/// Whether every character of `s` is a decimal digit.
pub fn all_digit_chars_pub(s: &str) -> (r: bool)
    ensures
        r == digits(s@),
        r ==> s.is_ascii(),
{
    all_digit_chars(s)
}

/// Whether `p` begins the ASCII text `s`.
pub fn prefix_of_ascii(s: &str, p: &str) -> (r: bool)
    requires
        s.is_ascii(),
    ensures
        r == has_prefix(s@, p@),
{
    starts_with_ascii(s, p)
}

fn is_dummy_pattern(s: &str) -> (r: bool)
    requires
        s.is_ascii(),
        s@.len() > 0,
    ensures
        r == dummy(s@),
{
    let n = s.as_bytes().len();
    assert(s.spec_bytes().len() == s@.len());
    let first = s.get_ascii(0);
    let mut same = true;
    let mut i: usize = 0;
    while i < n
        invariant
            s.is_ascii(),
            n == s@.len(),
            n > 0,
            first == s@[0] as u8,
            i <= n,
            same == forall|j: int| 0 <= j < i ==> #[trigger] s@[j] == s@[0],
        decreases n - i,
    {
        let b = s.get_ascii(i);
        if b != first {
            same = false;
        }
        i = i + 1;
    }
    if same {
        return true;
    }
    starts_with_ascii(s, "0123456789")
}

fn find_profile(v: &Vec<ManufacturerProfile>, s: &str) -> (r: Option<usize>)
    requires
        s.is_ascii(),
    ensures
        match r {
            Some(i) => first_profile(v@, s@) == Some(i as int) && i < v@.len(),
            None => first_profile(v@, s@) is None,
        },
{
    proof {
        lemma_first_profile(v@, s@);
    }
    let mut i: usize = 0;
    while i < v.len()
        invariant
            i <= v@.len(),
            s.is_ascii(),
            forall|j: int| 0 <= j < i ==> !has_prefix(s@, #[trigger] v@[j].tac_prefix@),
            match first_profile(v@, s@) {
                Some(k) => 0 <= k < v@.len() && has_prefix(s@, v@[k].tac_prefix@)
                    && forall|j: int| 0 <= j < k ==> !has_prefix(s@, v@[j].tac_prefix@),
                None => forall|j: int| 0 <= j < v@.len() ==> !has_prefix(s@, v@[j].tac_prefix@),
            },
        decreases v@.len() - i,
    {
        if starts_with_ascii(s, v[i].tac_prefix.as_str()) {
            proof {
                let k = first_profile(v@, s@);
                if k is None {
                } else if k.unwrap() > i {
                }
            }
            return Some(i);
        }
        i = i + 1;
    }
    proof {
        if first_profile(v@, s@) is Some {
            let k = first_profile(v@, s@).unwrap();
            assert(!has_prefix(s@, v@[k].tac_prefix@));
        }
    }
    None
}

#[derive(Debug, Clone)]
pub struct S13ImeiTamperEngine {
    pub manufacturer_profiles: Vec<ManufacturerProfile>,
    pub total_validations: u64,
    pub total_valid_imeis: u64,
    pub total_valid_imeisv: u64,
    pub total_luhn_failures: u64,
    pub total_tampered_cloned: u64,
}

/// A profile as (prefix, manufacturer, lowest SVN, highest SVN).
pub open spec fn profile_view(p: ManufacturerProfile) -> (Seq<char>, Seq<char>, u8, u8) {
    (p.tac_prefix@, p.manufacturer@, p.min_allowed_svn, p.max_allowed_svn)
}

pub open spec fn profiles_view(v: Seq<ManufacturerProfile>) -> Seq<(Seq<char>, Seq<char>, u8, u8)> {
    v.map_values(|p: ManufacturerProfile| profile_view(p))
}

/// The counters of an engine.
pub open spec fn counters(e: S13ImeiTamperEngine) -> (u64, u64, u64, u64, u64) {
    (e.total_validations, e.total_valid_imeis, e.total_valid_imeisv, e.total_luhn_failures, e.total_tampered_cloned)
}

/// The verdict on a 15-digit IMEI, and which counter grows: 1 valid, 3 Luhn failure, 4 tampered.
pub open spec fn imei15_verdict(s: Seq<char>) -> int {
    if dummy(s) {
        4
    } else if dval(s[14]) != luhn_digit(s.subrange(0, 14)) {
        3
    } else {
        1
    }
}

impl Default for S13ImeiTamperEngine {
    fn default() -> (r: Self)
        ensures
            r.total_validations == 0,
            r.manufacturer_profiles@.len() == 3,
    {
        let r = Self::new();
        assert(profiles_view(r.manufacturer_profiles@).len() == 3);
        r
    }
}

impl S13ImeiTamperEngine {
    /// An engine with the three built-in profiles (prefixes 35, 86 and 01, SVN 1 to 99).
    pub fn new() -> (r: Self)
        ensures
            counters(r) == (0u64, 0u64, 0u64, 0u64, 0u64),
            profiles_view(r.manufacturer_profiles@) == seq![
                ("35"@, "Apple iPhone / Global Devices"@, 1u8, 99u8),
                ("86"@, "Samsung / Qualcomm OEM"@, 1u8, 99u8),
                ("01"@, "Google Pixel / Test Platform"@, 1u8, 99u8),
            ],
    {
        let mut engine = Self {
            manufacturer_profiles: Vec::new(),
            total_validations: 0,
            total_valid_imeis: 0,
            total_valid_imeisv: 0,
            total_luhn_failures: 0,
            total_tampered_cloned: 0,
        };
        engine.add_manufacturer_profile("35", "Apple iPhone / Global Devices", 1, 99);
        engine.add_manufacturer_profile("86", "Samsung / Qualcomm OEM", 1, 99);
        engine.add_manufacturer_profile("01", "Google Pixel / Test Platform", 1, 99);
        assert(profiles_view(engine.manufacturer_profiles@) =~= seq![
            ("35"@, "Apple iPhone / Global Devices"@, 1u8, 99u8),
            ("86"@, "Samsung / Qualcomm OEM"@, 1u8, 99u8),
            ("01"@, "Google Pixel / Test Platform"@, 1u8, 99u8),
        ]);
        engine
    }

    /// Appends a manufacturer profile.
    pub fn add_manufacturer_profile(&mut self, tac_prefix: &str, manufacturer: &str, min_allowed_svn: u8, max_allowed_svn: u8)
        ensures
            profiles_view(final(self).manufacturer_profiles@) == profiles_view(old(self).manufacturer_profiles@).push(
                (tac_prefix@, manufacturer@, min_allowed_svn, max_allowed_svn),
            ),
            counters(*final(self)) == counters(*old(self)),
    {
        let ghost p0 = profiles_view(self.manufacturer_profiles@);
        self.manufacturer_profiles.push(ManufacturerProfile {
            tac_prefix: tac_prefix.to_owned(),
            manufacturer: manufacturer.to_owned(),
            min_allowed_svn,
            max_allowed_svn,
        });
        assert(profiles_view(self.manufacturer_profiles@) =~= p0.push((tac_prefix@, manufacturer@, min_allowed_svn, max_allowed_svn)));
    }

    /// The Luhn check digit of a 14-digit payload; none unless the payload is exactly 14
    /// decimal digits.
    pub fn calculate_luhn_check_digit(payload_14: &str) -> (r: Option<u8>)
        ensures
            match r {
                Some(d) => digits(payload_14@) && payload_14@.len() == 14 && d == luhn_digit(payload_14@),
                None => !(digits(payload_14@) && payload_14@.len() == 14),
            },
    {
        if !all_digit_chars(payload_14) {
            return None;
        }
        assert(payload_14.spec_bytes().len() == payload_14@.len());
        if payload_14.as_bytes().len() != 14 {
            return None;
        }
        let mut sum: u32 = 0;
        let mut idx: usize = 0;
        while idx < 14
            invariant
                payload_14.is_ascii(),
                payload_14@.len() == 14,
                digits(payload_14@),
                idx <= 14,
                sum == luhn_sum(payload_14@, idx as int),
                sum <= 9 * idx,
            decreases 14 - idx,
        {
            let digit = (payload_14.get_ascii(idx) - 48) as u32;
            assert('0' <= payload_14@[idx as int] <= '9');
            if idx % 2 == 1 {
                let doubled = digit * 2;
                sum = sum + (doubled / 10) + (doubled % 10);
            } else {
                sum = sum + digit;
            }
            idx = idx + 1;
        }
        Some(((10 - (sum % 10)) % 10) as u8)
    }

    /// Classifies an equipment identity: non-digits are invalid characters; 15 digits are an
    /// IMEI (dummy serials tampered, then the Luhn check); 16 digits are an IMEI-SV (dummy
    /// serials tampered, then the first matching manufacturer's SVN range); other lengths are
    /// invalid.
    pub fn validate_equipment_id(&mut self, input: &str) -> (r: ImeiValidationVerdict)
        requires
            old(self).total_validations < u64::MAX,
            old(self).total_valid_imeis < u64::MAX,
            old(self).total_valid_imeisv < u64::MAX,
            old(self).total_luhn_failures < u64::MAX,
            old(self).total_tampered_cloned < u64::MAX,
        ensures
            final(self).total_validations == old(self).total_validations + 1,
            final(self).manufacturer_profiles == old(self).manufacturer_profiles,
            ({
                let s = input@;
                if !digits(s) {
                    &&& r matches ImeiValidationVerdict::InvalidCharacters { input: i } && i@ == s
                    &&& final(self).total_valid_imeis == old(self).total_valid_imeis
                    &&& final(self).total_valid_imeisv == old(self).total_valid_imeisv
                    &&& final(self).total_luhn_failures == old(self).total_luhn_failures
                    &&& final(self).total_tampered_cloned == old(self).total_tampered_cloned
                } else if s.len() == 15 {
                    &&& final(self).total_valid_imeisv == old(self).total_valid_imeisv
                    &&& final(self).total_valid_imeis == old(self).total_valid_imeis + if imei15_verdict(s) == 1 { 1int } else { 0int }
                    &&& final(self).total_luhn_failures == old(self).total_luhn_failures + if imei15_verdict(s) == 3 { 1int } else { 0int }
                    &&& final(self).total_tampered_cloned == old(self).total_tampered_cloned + if imei15_verdict(s) == 4 { 1int } else { 0int }
                    &&& if dummy(s) {
                        r matches ImeiValidationVerdict::HardwareTamperedCloned { imei, reason } && imei@ == s
                            && reason@ == "Prohibited dummy / repetitive serial pattern detected"@
                    } else if dval(s[14]) != luhn_digit(s.subrange(0, 14)) {
                        r matches ImeiValidationVerdict::LuhnChecksumFailed { imei, expected_cd, actual_cd } && imei@ == s
                            && expected_cd == luhn_digit(s.subrange(0, 14)) && actual_cd == dval(s[14])
                    } else {
                        r matches ImeiValidationVerdict::ValidImei { imei, tac, snr, check_digit } && imei@ == s
                            && tac@ == s.subrange(0, 8) && snr@ == s.subrange(8, 14) && check_digit == dval(s[14])
                    }
                } else if s.len() == 16 {
                    let svn = two_digit_value(s.subrange(14, 16));
                    let prof = first_profile(old(self).manufacturer_profiles@, s);
                    let out_of_range = prof matches Some(k) && (svn < old(self).manufacturer_profiles@[k].min_allowed_svn
                        || svn > old(self).manufacturer_profiles@[k].max_allowed_svn);
                    &&& final(self).total_valid_imeis == old(self).total_valid_imeis
                    &&& final(self).total_luhn_failures == old(self).total_luhn_failures
                    &&& if dummy(s.subrange(0, 14)) {
                        &&& r matches ImeiValidationVerdict::HardwareTamperedCloned { imei, reason } && imei@ == s
                            && reason@ == "Prohibited dummy / repetitive serial pattern in IMEI-SV"@
                        &&& final(self).total_tampered_cloned == old(self).total_tampered_cloned + 1
                        &&& final(self).total_valid_imeisv == old(self).total_valid_imeisv
                    } else if out_of_range {
                        &&& r matches ImeiValidationVerdict::HardwareTamperedCloned { imei, reason } && imei@ == s
                            && reason@ == svn_reason(svn as u8, old(self).manufacturer_profiles@[prof.unwrap()])
                        &&& final(self).total_tampered_cloned == old(self).total_tampered_cloned + 1
                        &&& final(self).total_valid_imeisv == old(self).total_valid_imeisv
                    } else {
                        &&& r matches ImeiValidationVerdict::ValidImeiSv { imei_sv, tac, snr, svn: v } && imei_sv@ == s
                            && tac@ == s.subrange(0, 8) && snr@ == s.subrange(8, 14) && v@ == s.subrange(14, 16)
                        &&& final(self).total_tampered_cloned == old(self).total_tampered_cloned
                        &&& final(self).total_valid_imeisv == old(self).total_valid_imeisv + 1
                    }
                } else {
                    &&& r matches ImeiValidationVerdict::InvalidLength { input: i, length } && i@ == s && length == s.len()
                    &&& final(self).total_valid_imeis == old(self).total_valid_imeis
                    &&& final(self).total_valid_imeisv == old(self).total_valid_imeisv
                    &&& final(self).total_luhn_failures == old(self).total_luhn_failures
                    &&& final(self).total_tampered_cloned == old(self).total_tampered_cloned
                }
            }),
    {
        self.total_validations = self.total_validations + 1;
        if !all_digit_chars(input) {
            return ImeiValidationVerdict::InvalidCharacters { input: input.to_owned() };
        }
        let len = input.as_bytes().len();
        assert(input.spec_bytes().len() == input@.len());
        if len == IMEI_LENGTH {
            self.validate_imei_15(input)
        } else if len == IMEI_SV_LENGTH {
            self.validate_imeisv_16(input)
        } else {
            ImeiValidationVerdict::InvalidLength { input: input.to_owned(), length: len }
        }
    }

    fn validate_imei_15(&mut self, imei: &str) -> (r: ImeiValidationVerdict)
        requires
            imei.is_ascii(),
            digits(imei@),
            imei@.len() == 15,
            old(self).total_valid_imeis < u64::MAX,
            old(self).total_luhn_failures < u64::MAX,
            old(self).total_tampered_cloned < u64::MAX,
        ensures
            final(self).total_validations == old(self).total_validations,
            final(self).total_valid_imeisv == old(self).total_valid_imeisv,
            final(self).manufacturer_profiles == old(self).manufacturer_profiles,
            ({
                let s = imei@;
                &&& final(self).total_valid_imeis == old(self).total_valid_imeis + if imei15_verdict(s) == 1 { 1int } else { 0int }
                &&& final(self).total_luhn_failures == old(self).total_luhn_failures + if imei15_verdict(s) == 3 { 1int } else { 0int }
                &&& final(self).total_tampered_cloned == old(self).total_tampered_cloned + if imei15_verdict(s) == 4 { 1int } else { 0int }
                &&& if dummy(s) {
                    r matches ImeiValidationVerdict::HardwareTamperedCloned { imei: i, reason } && i@ == s
                        && reason@ == "Prohibited dummy / repetitive serial pattern detected"@
                } else if dval(s[14]) != luhn_digit(s.subrange(0, 14)) {
                    r matches ImeiValidationVerdict::LuhnChecksumFailed { imei: i, expected_cd, actual_cd } && i@ == s
                        && expected_cd == luhn_digit(s.subrange(0, 14)) && actual_cd == dval(s[14])
                } else {
                    r matches ImeiValidationVerdict::ValidImei { imei: i, tac, snr, check_digit } && i@ == s
                        && tac@ == s.subrange(0, 8) && snr@ == s.subrange(8, 14) && check_digit == dval(s[14])
                }
            }),
    {
        if is_dummy_pattern(imei) {
            self.total_tampered_cloned = self.total_tampered_cloned + 1;
            return ImeiValidationVerdict::HardwareTamperedCloned {
                imei: imei.to_owned(),
                reason: "Prohibited dummy / repetitive serial pattern detected".to_owned(),
            };
        }
        let payload_14 = imei.substring_ascii(0, 14);
        assert('0' <= imei@[14] <= '9');
        let actual_cd = imei.get_ascii(14) - 48;
        let expected_cd = match Self::calculate_luhn_check_digit(payload_14) {
            Some(cd) => cd,
            None => {
                return ImeiValidationVerdict::InvalidCharacters { input: imei.to_owned() };
            },
        };
        if actual_cd != expected_cd {
            self.total_luhn_failures = self.total_luhn_failures + 1;
            return ImeiValidationVerdict::LuhnChecksumFailed { imei: imei.to_owned(), expected_cd, actual_cd };
        }
        self.total_valid_imeis = self.total_valid_imeis + 1;
        ImeiValidationVerdict::ValidImei {
            imei: imei.to_owned(),
            tac: imei.substring_ascii(0, 8).to_owned(),
            snr: imei.substring_ascii(8, 14).to_owned(),
            check_digit: actual_cd,
        }
    }

    fn validate_imeisv_16(&mut self, imei_sv: &str) -> (r: ImeiValidationVerdict)
        requires
            imei_sv.is_ascii(),
            digits(imei_sv@),
            imei_sv@.len() == 16,
            old(self).total_valid_imeisv < u64::MAX,
            old(self).total_tampered_cloned < u64::MAX,
        ensures
            final(self).total_validations == old(self).total_validations,
            final(self).total_valid_imeis == old(self).total_valid_imeis,
            final(self).total_luhn_failures == old(self).total_luhn_failures,
            final(self).manufacturer_profiles == old(self).manufacturer_profiles,
            ({
                let s = imei_sv@;
                let svn = two_digit_value(s.subrange(14, 16));
                let prof = first_profile(old(self).manufacturer_profiles@, s);
                let out_of_range = prof matches Some(k) && (svn < old(self).manufacturer_profiles@[k].min_allowed_svn
                    || svn > old(self).manufacturer_profiles@[k].max_allowed_svn);
                if dummy(s.subrange(0, 14)) {
                    &&& r matches ImeiValidationVerdict::HardwareTamperedCloned { imei, reason } && imei@ == s
                        && reason@ == "Prohibited dummy / repetitive serial pattern in IMEI-SV"@
                    &&& final(self).total_tampered_cloned == old(self).total_tampered_cloned + 1
                    &&& final(self).total_valid_imeisv == old(self).total_valid_imeisv
                } else if out_of_range {
                    &&& r matches ImeiValidationVerdict::HardwareTamperedCloned { imei, reason } && imei@ == s
                        && reason@ == svn_reason(svn as u8, old(self).manufacturer_profiles@[prof.unwrap()])
                    &&& final(self).total_tampered_cloned == old(self).total_tampered_cloned + 1
                    &&& final(self).total_valid_imeisv == old(self).total_valid_imeisv
                } else {
                    &&& r matches ImeiValidationVerdict::ValidImeiSv { imei_sv: i, tac, snr, svn: v } && i@ == s
                        && tac@ == s.subrange(0, 8) && snr@ == s.subrange(8, 14) && v@ == s.subrange(14, 16)
                    &&& final(self).total_tampered_cloned == old(self).total_tampered_cloned
                    &&& final(self).total_valid_imeisv == old(self).total_valid_imeisv + 1
                }
            }),
    {
        let head = imei_sv.substring_ascii(0, 14);
        if is_dummy_pattern(head) {
            self.total_tampered_cloned = self.total_tampered_cloned + 1;
            return ImeiValidationVerdict::HardwareTamperedCloned {
                imei: imei_sv.to_owned(),
                reason: "Prohibited dummy / repetitive serial pattern in IMEI-SV".to_owned(),
            };
        }
        assert('0' <= imei_sv@[14] <= '9');
        assert('0' <= imei_sv@[15] <= '9');
        let svn_val: u8 = (imei_sv.get_ascii(14) - 48) * 10 + (imei_sv.get_ascii(15) - 48);
        assert(svn_val == two_digit_value(imei_sv@.subrange(14, 16)));
        match find_profile(&self.manufacturer_profiles, imei_sv) {
            Some(i) => {
                let prof = &self.manufacturer_profiles[i];
                if svn_val < prof.min_allowed_svn || svn_val > prof.max_allowed_svn {
                    self.total_tampered_cloned = self.total_tampered_cloned + 1;
                    let prof = &self.manufacturer_profiles[i];
                    let a = concat("Software Version Number (SVN ", decimal(svn_val as u64).as_str());
                    let b = concat(a.as_str(), ") out of valid range (");
                    let c = concat(b.as_str(), decimal(prof.min_allowed_svn as u64).as_str());
                    let d = concat(c.as_str(), "..");
                    let e = concat(d.as_str(), decimal(prof.max_allowed_svn as u64).as_str());
                    let f = concat(e.as_str(), ") for manufacturer ");
                    let reason = concat(f.as_str(), prof.manufacturer.as_str());
                    return ImeiValidationVerdict::HardwareTamperedCloned { imei: imei_sv.to_owned(), reason };
                }
            },
            None => {},
        }
        self.total_valid_imeisv = self.total_valid_imeisv + 1;
        ImeiValidationVerdict::ValidImeiSv {
            imei_sv: imei_sv.to_owned(),
            tac: imei_sv.substring_ascii(0, 8).to_owned(),
            snr: imei_sv.substring_ascii(8, 14).to_owned(),
            svn: imei_sv.substring_ascii(14, 16).to_owned(),
        }
    }
}

} // verus!
