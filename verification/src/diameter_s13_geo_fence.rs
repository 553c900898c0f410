//! Location plausibility for the EIR: allowed PLMNs, restricted tracking areas, and
//! impossible-travel detection from the distance between tracking-area centres.
use vstd::prelude::*;
use crate::text::{str_eq, strings_view};

verus! {

pub const DIAMETER_APPLICATION_S13: u32 = 16777252;
pub const DIAMETER_COMMAND_ECR: u32 = 324;
pub const DIAMETER_SUCCESS: u32 = 2001;
pub const DIAMETER_AUTHORIZATION_REJECTED: u32 = 5004;

#[derive(Debug, Clone, PartialEq, Eq)]
pub enum GeoVerdict {
    LegitimateLocation { tac: u32, plmn_id: String, result_code: u32 },
    RestrictedZoneViolation { tac: u32, plmn_id: String, reason: String, result_code: u32 },
    ImpossibleTravelFraud {
        imei: String,
        previous_tac: u32,
        current_tac: u32,
        elapsed_secs: u64,
        calculated_speed_kmh: u64,
        max_allowed_speed_kmh: u64,
        result_code: u32,
    },
    UnauthorizedPlmn { plmn_id: String, result_code: u32 },
}

#[derive(Debug, Clone, Copy, PartialEq, Eq, Structural)]
pub struct GeoCoord {
    pub lat_microdeg: i32,
    pub lon_microdeg: i32,
}

/// Whether `r` is the integer square root of `v`.
pub open spec fn is_isqrt(r: int, v: int) -> bool {
    0 <= r && r * r <= v && v < (r + 1) * (r + 1)
}

/// The integer square root of `v`.
pub open spec fn isqrt(v: int) -> int {
    choose|r: int| is_isqrt(r, v)
}

proof fn lemma_isqrt_unique(a: int, b: int, v: int)
    requires
        is_isqrt(a, v),
        is_isqrt(b, v),
    ensures
        a == b,
{
    if a < b {
        assert((a + 1) * (a + 1) <= b * b) by (nonlinear_arith)
            requires a + 1 <= b, 0 <= a;
    } else if b < a {
        assert((b + 1) * (b + 1) <= a * a) by (nonlinear_arith)
            requires b + 1 <= a, 0 <= b;
    }
}

proof fn lemma_isqrt_is(r: int, v: int)
    requires
        is_isqrt(r, v),
    ensures
        isqrt(v) == r,
{
    assert(is_isqrt(r, v));
    let c = isqrt(v);
    lemma_isqrt_unique(c, r, v);
}

/// One Newton step never goes below the root: (x + v/x)/2 + 1 squared exceeds v.
proof fn lemma_newton_above(x: int, v: int)
    requires
        x > 0,
        v >= 0,
    ensures
        ({
            let m = (x + v / x) / 2 + 1;
            m * m > v
        }),
{
    let q = v / x;
    let m = (x + q) / 2 + 1;
    assert(v < x * (q + 1)) by (nonlinear_arith)
        requires q == v / x, x > 0, v >= 0;
    assert(2 * m >= x + q + 1);
    assert((x + q + 1) * (x + q + 1) >= 4 * x * (q + 1)) by (nonlinear_arith)
        requires x > 0, q >= 0;
    assert(4 * (m * m) >= (x + q + 1) * (x + q + 1)) by (nonlinear_arith)
        requires 2 * m >= x + q + 1, x + q + 1 > 0;
    assert(4 * x * (q + 1) == 4 * (x * (q + 1))) by (nonlinear_arith);
    assert(4 * (m * m) > 4 * v);
}

/// When the Newton step does not descend, `x` is at most the root.
proof fn lemma_newton_stop(x: int, v: int)
    requires
        x > 0,
        v >= 0,
        (x + v / x) / 2 >= x,
    ensures
        x * x <= v,
{
    let q = v / x;
    if x * x > v {
        assert(q < x) by (nonlinear_arith)
            requires q == v / x, x > 0, x * x > v, v >= 0;
    }
}

/// The integer square root, by Newton's iteration from v/2.
fn integer_sqrt(val: u64) -> (r: u64)
    requires
        val < 0x8000_0000_0000_0000,
    ensures
        is_isqrt(r as int, val as int),
{
    if val == 0 {
        assert(is_isqrt(0, 0)) by (nonlinear_arith);
        return 0;
    }
    let mut x0 = val / 2;
    if x0 == 0 {
        assert(is_isqrt(1, val as int)) by (nonlinear_arith)
            requires val == 1;
        return 1;
    }
    assert((x0 + 1) * (x0 + 1) > val) by (nonlinear_arith)
        requires x0 == val / 2, x0 >= 1;
    proof {
        lemma_newton_above(x0 as int, val as int);
    }
    let mut x1 = (x0 + val / x0) / 2;
    while x1 < x0
        invariant
            x0 > 0,
            val > 0,
            val < 0x8000_0000_0000_0000,
            x0 <= val,
            (x0 + 1) * (x0 + 1) > val,
            x1 == (x0 + val / x0) / 2,
            (x1 + 1) * (x1 + 1) > val,
        decreases x0,
    {
        assert(x1 > 0) by (nonlinear_arith)
            requires (x1 + 1) * (x1 + 1) > val, val > 0, x1 >= 0;
        x0 = x1;
        proof {
            lemma_newton_above(x0 as int, val as int);
        }
        x1 = (x0 + val / x0) / 2;
    }
    proof {
        lemma_newton_stop(x0 as int, val as int);
    }
    x0
}

/// The distance in km between two coordinates: each axis difference in micro-degrees scaled by
/// 111 km per degree and rounded down, then the integer square root of the sum of squares.
pub open spec fn distance(a: GeoCoord, b: GeoCoord) -> int {
    let d_lat = if a.lat_microdeg >= b.lat_microdeg { a.lat_microdeg - b.lat_microdeg } else { b.lat_microdeg - a.lat_microdeg };
    let d_lon = if a.lon_microdeg >= b.lon_microdeg { a.lon_microdeg - b.lon_microdeg } else { b.lon_microdeg - a.lon_microdeg };
    let lat_km = (d_lat * 111) / 1_000_000;
    let lon_km = (d_lon * 111) / 1_000_000;
    isqrt(lat_km * lat_km + lon_km * lon_km)
}

/// Whether the coordinate differences fit in 32 bits.
pub open spec fn coords_close(a: GeoCoord, b: GeoCoord) -> bool {
    i32::MIN <= a.lat_microdeg - b.lat_microdeg <= i32::MAX && i32::MIN <= a.lon_microdeg - b.lon_microdeg <= i32::MAX
}

impl GeoCoord {
    pub fn new(lat_microdeg: i32, lon_microdeg: i32) -> (r: Self)
        ensures
            r == (GeoCoord { lat_microdeg, lon_microdeg }),
    {
        Self { lat_microdeg, lon_microdeg }
    }

    pub fn distance_km(&self, other: &GeoCoord) -> (r: u64)
        requires
            coords_close(*self, *other),
        ensures
            r == distance(*self, *other),
            r <= 1_000_000,
    {
        let dl = self.lat_microdeg - other.lat_microdeg;
        let dn = self.lon_microdeg - other.lon_microdeg;
        let d_lat: i64 = if dl >= 0 { dl as i64 } else { -(dl as i64) };
        let d_lon: i64 = if dn >= 0 { dn as i64 } else { -(dn as i64) };
        let lat_km = (d_lat * 111) / 1_000_000;
        let lon_km = (d_lon * 111) / 1_000_000;
        assert(lat_km <= 476_741) by (nonlinear_arith)
            requires lat_km == (d_lat * 111) / 1_000_000, 0 <= d_lat <= 0x8000_0000;
        assert(lon_km <= 476_741) by (nonlinear_arith)
            requires lon_km == (d_lon * 111) / 1_000_000, 0 <= d_lon <= 0x8000_0000;
        assert(0 <= lat_km * lat_km <= 476_741 * 476_741) by (nonlinear_arith)
            requires 0 <= lat_km <= 476_741;
        assert(0 <= lon_km * lon_km <= 476_741 * 476_741) by (nonlinear_arith)
            requires 0 <= lon_km <= 476_741;
        let dist_sq = (lat_km * lat_km) + (lon_km * lon_km);
        let r = integer_sqrt(dist_sq as u64);
        proof {
            lemma_isqrt_is(r as int, dist_sq as int);
            if r > 1_000_000 {
                assert(r * r > 1_000_000 * 1_000_000) by (nonlinear_arith)
                    requires r > 1_000_000;
            }
        }
        r
    }
}

#[derive(Debug, Clone, PartialEq, Eq)]
pub struct TrackingAreaProfile {
    pub tac: u32,
    pub plmn_id: String,
    pub center_coord: GeoCoord,
    pub is_restricted: bool,
}

#[derive(Debug, Clone, PartialEq, Eq)]
pub struct DeviceLocationHistory {
    pub imei: String,
    pub last_tac: u32,
    pub last_coord: GeoCoord,
    pub last_timestamp_secs: u64,
}

/// A tracking area as (TAC, PLMN, centre, restricted).
pub open spec fn area_view(t: TrackingAreaProfile) -> (u32, Seq<char>, GeoCoord, bool) {
    (t.tac, t.plmn_id@, t.center_coord, t.is_restricted)
}

pub open spec fn areas_view(v: Seq<TrackingAreaProfile>) -> Seq<(u32, Seq<char>, GeoCoord, bool)> {
    v.map_values(|t: TrackingAreaProfile| area_view(t))
}

/// A history entry as (IMEI, TAC, coordinate, time).
pub open spec fn hist_view(h: DeviceLocationHistory) -> (Seq<char>, u32, GeoCoord, u64) {
    (h.imei@, h.last_tac, h.last_coord, h.last_timestamp_secs)
}

pub open spec fn hists_view(v: Seq<DeviceLocationHistory>) -> Seq<(Seq<char>, u32, GeoCoord, u64)> {
    v.map_values(|h: DeviceLocationHistory| hist_view(h))
}

/// The first tracking area with `tac` in `plmn`.
pub open spec fn area_pos(v: Seq<(u32, Seq<char>, GeoCoord, bool)>, tac: u32, plmn: Seq<char>) -> Option<int>
    decreases v.len(),
{
    if v.len() == 0 {
        None
    } else if v[0].0 == tac && v[0].1 == plmn {
        Some(0)
    } else {
        match area_pos(v.skip(1), tac, plmn) {
            Some(i) => Some(i + 1),
            None => None,
        }
    }
}

proof fn lemma_area_pos(v: Seq<(u32, Seq<char>, GeoCoord, bool)>, tac: u32, plmn: Seq<char>)
    ensures
        match area_pos(v, tac, plmn) {
            Some(i) => 0 <= i < v.len() && v[i].0 == tac && v[i].1 == plmn
                && forall|j: int| 0 <= j < i ==> !(v[j].0 == tac && v[j].1 == plmn),
            None => forall|j: int| 0 <= j < v.len() ==> !(v[j].0 == tac && v[j].1 == plmn),
        },
    decreases v.len(),
{
    if v.len() > 0 {
        lemma_area_pos(v.skip(1), tac, plmn);
        assert forall|j: int| 1 <= j < v.len() implies v[j] == v.skip(1)[j - 1] by {}
    }
}

/// The first history entry for `imei`.
pub open spec fn hist_pos(v: Seq<(Seq<char>, u32, GeoCoord, u64)>, imei: Seq<char>) -> Option<int>
    decreases v.len(),
{
    if v.len() == 0 {
        None
    } else if v[0].0 == imei {
        Some(0)
    } else {
        match hist_pos(v.skip(1), imei) {
            Some(i) => Some(i + 1),
            None => None,
        }
    }
}

proof fn lemma_hist_pos(v: Seq<(Seq<char>, u32, GeoCoord, u64)>, imei: Seq<char>)
    ensures
        match hist_pos(v, imei) {
            Some(i) => 0 <= i < v.len() && v[i].0 == imei && forall|j: int| 0 <= j < i ==> v[j].0 != imei,
            None => forall|j: int| 0 <= j < v.len() ==> v[j].0 != imei,
        },
    decreases v.len(),
{
    if v.len() > 0 {
        lemma_hist_pos(v.skip(1), imei);
        assert forall|j: int| 1 <= j < v.len() implies v[j] == v.skip(1)[j - 1] by {}
    }
}

#[derive(Debug, Clone)]
pub struct S13GeoFenceEngine {
    pub allowed_plmns: Vec<String>,
    pub tracking_areas: Vec<TrackingAreaProfile>,
    pub location_history: Vec<DeviceLocationHistory>,
    pub max_travel_speed_kmh: u64,
    pub total_inspections: u64,
    pub total_legitimate: u64,
    pub total_zone_violations: u64,
    pub total_travel_anomalies: u64,
}

/// The centre used for `tac` in `plmn`: the first matching area's, else 0,0.
pub open spec fn area_coord(e: S13GeoFenceEngine, tac: u32, plmn: Seq<char>) -> GeoCoord {
    let areas = areas_view(e.tracking_areas@);
    match area_pos(areas, tac, plmn) {
        Some(i) => areas[i].2,
        None => GeoCoord { lat_microdeg: 0, lon_microdeg: 0 },
    }
}

/// Whether the distance between the device's last position and the reported area can be
/// computed: the coordinate differences fit in 32 bits whenever time has advanced.
pub open spec fn travel_computable(e: S13GeoFenceEngine, imei: Seq<char>, tac: u32, plmn: Seq<char>, now: u64) -> bool {
    let hist = hists_view(e.location_history@);
    match hist_pos(hist, imei) {
        Some(k) => now > hist[k].3 ==> coords_close(hist[k].2, area_coord(e, tac, plmn)),
        None => true,
    }
}

impl S13GeoFenceEngine {
    pub fn new(max_travel_speed_kmh: u64) -> (r: Self)
        ensures
            r.allowed_plmns@.len() == 0,
            r.tracking_areas@.len() == 0,
            r.location_history@.len() == 0,
            r.max_travel_speed_kmh == max_travel_speed_kmh,
            r.total_inspections == 0,
            r.total_legitimate == 0,
            r.total_zone_violations == 0,
            r.total_travel_anomalies == 0,
    {
        Self {
            allowed_plmns: Vec::new(),
            tracking_areas: Vec::new(),
            location_history: Vec::new(),
            max_travel_speed_kmh,
            total_inspections: 0,
            total_legitimate: 0,
            total_zone_violations: 0,
            total_travel_anomalies: 0,
        }
    }

    fn plmn_allowed(&self, plmn_id: &str) -> (r: bool)
        ensures
            r == strings_view(self.allowed_plmns@).contains(plmn_id@),
    {
        let mut i: usize = 0;
        while i < self.allowed_plmns.len()
            invariant
                i <= self.allowed_plmns@.len(),
                forall|j: int| 0 <= j < i ==> #[trigger] strings_view(self.allowed_plmns@)[j] != plmn_id@,
            decreases self.allowed_plmns@.len() - i,
        {
            if str_eq(self.allowed_plmns[i].as_str(), plmn_id) {
                assert(strings_view(self.allowed_plmns@)[i as int] == plmn_id@);
                return true;
            }
            i = i + 1;
        }
        false
    }

    /// Adds `plmn_id` to the allowed PLMNs unless it is already there.
    pub fn add_allowed_plmn(&mut self, plmn_id: &str)
        ensures
            strings_view(final(self).allowed_plmns@) == if strings_view(old(self).allowed_plmns@).contains(plmn_id@) {
                strings_view(old(self).allowed_plmns@)
            } else {
                strings_view(old(self).allowed_plmns@).push(plmn_id@)
            },
            final(self).tracking_areas == old(self).tracking_areas,
            final(self).location_history == old(self).location_history,
    {
        if !self.plmn_allowed(plmn_id) {
            let ghost s0 = strings_view(self.allowed_plmns@);
            self.allowed_plmns.push(plmn_id.to_owned());
            assert(strings_view(self.allowed_plmns@) =~= s0.push(plmn_id@));
        }
    }

    fn find_area(&self, tac: u32, plmn_id: &str) -> (r: Option<usize>)
        ensures
            match r {
                Some(i) => area_pos(areas_view(self.tracking_areas@), tac, plmn_id@) == Some(i as int) && i < self.tracking_areas@.len(),
                None => area_pos(areas_view(self.tracking_areas@), tac, plmn_id@) is None,
            },
    {
        let ghost v = areas_view(self.tracking_areas@);
        proof {
            lemma_area_pos(v, tac, plmn_id@);
        }
        let mut i: usize = 0;
        while i < self.tracking_areas.len()
            invariant
                i <= self.tracking_areas@.len(),
                v == areas_view(self.tracking_areas@),
                forall|j: int| 0 <= j < i ==> !(#[trigger] v[j].0 == tac && v[j].1 == plmn_id@),
                match area_pos(v, tac, plmn_id@) {
                    Some(k) => 0 <= k < v.len() && v[k].0 == tac && v[k].1 == plmn_id@
                        && forall|j: int| 0 <= j < k ==> !(v[j].0 == tac && v[j].1 == plmn_id@),
                    None => forall|j: int| 0 <= j < v.len() ==> !(v[j].0 == tac && v[j].1 == plmn_id@),
                },
            decreases self.tracking_areas@.len() - i,
        {
            assert(v[i as int] == area_view(self.tracking_areas@[i as int]));
            if self.tracking_areas[i].tac == tac && str_eq(self.tracking_areas[i].plmn_id.as_str(), plmn_id) {
                proof {
                    let k = area_pos(v, tac, plmn_id@);
                    if k is None {
                    } else if k.unwrap() > i {
                    }
                }
                return Some(i);
            }
            i = i + 1;
        }
        None
    }

    fn find_history(&self, imei: &str) -> (r: Option<usize>)
        ensures
            match r {
                Some(i) => hist_pos(hists_view(self.location_history@), imei@) == Some(i as int) && i < self.location_history@.len(),
                None => hist_pos(hists_view(self.location_history@), imei@) is None,
            },
    {
        let ghost v = hists_view(self.location_history@);
        proof {
            lemma_hist_pos(v, imei@);
        }
        let mut i: usize = 0;
        while i < self.location_history.len()
            invariant
                i <= self.location_history@.len(),
                v == hists_view(self.location_history@),
                forall|j: int| 0 <= j < i ==> #[trigger] v[j].0 != imei@,
                match hist_pos(v, imei@) {
                    Some(k) => 0 <= k < v.len() && v[k].0 == imei@ && forall|j: int| 0 <= j < k ==> v[j].0 != imei@,
                    None => forall|j: int| 0 <= j < v.len() ==> v[j].0 != imei@,
                },
            decreases self.location_history@.len() - i,
        {
            assert(v[i as int] == hist_view(self.location_history@[i as int]));
            if str_eq(self.location_history[i].imei.as_str(), imei) {
                proof {
                    let k = hist_pos(v, imei@);
                    if k is None {
                    } else if k.unwrap() > i {
                    }
                }
                return Some(i);
            }
            i = i + 1;
        }
        None
    }

    /// Sets the centre and restriction of the first area with `tac` in `plmn_id`, or adds it.
    pub fn register_tracking_area(&mut self, tac: u32, plmn_id: &str, lat_microdeg: i32, lon_microdeg: i32, is_restricted: bool)
        ensures
            areas_view(final(self).tracking_areas@) == match area_pos(areas_view(old(self).tracking_areas@), tac, plmn_id@) {
                Some(i) => areas_view(old(self).tracking_areas@).update(i, (tac, plmn_id@, GeoCoord { lat_microdeg, lon_microdeg }, is_restricted)),
                None => areas_view(old(self).tracking_areas@).push((tac, plmn_id@, GeoCoord { lat_microdeg, lon_microdeg }, is_restricted)),
            },
            final(self).allowed_plmns == old(self).allowed_plmns,
            final(self).location_history == old(self).location_history,
            final(self).max_travel_speed_kmh == old(self).max_travel_speed_kmh,
            final(self).total_inspections == old(self).total_inspections,
            final(self).total_legitimate == old(self).total_legitimate,
            final(self).total_zone_violations == old(self).total_zone_violations,
            final(self).total_travel_anomalies == old(self).total_travel_anomalies,
    {
        let ghost v0 = areas_view(self.tracking_areas@);
        proof {
            lemma_area_pos(v0, tac, plmn_id@);
        }
        let c = GeoCoord::new(lat_microdeg, lon_microdeg);
        match self.find_area(tac, plmn_id) {
            Some(i) => {
                let p = self.tracking_areas[i].plmn_id.clone();
                self.tracking_areas.set(i, TrackingAreaProfile { tac, plmn_id: p, center_coord: c, is_restricted });
                assert(areas_view(self.tracking_areas@) =~= v0.update(i as int, (tac, plmn_id@, c, is_restricted)));
            },
            None => {
                self.tracking_areas.push(TrackingAreaProfile { tac, plmn_id: plmn_id.to_owned(), center_coord: c, is_restricted });
                assert(areas_view(self.tracking_areas@) =~= v0.push((tac, plmn_id@, c, is_restricted)));
            },
        }
    }

    /// Judges a reported location. Outside the allowed PLMNs (when any are set): unauthorized.
    /// In a restricted tracking area: a zone violation. When the device moved from its last
    /// recorded area faster than allowed (distance·3600 / seconds elapsed): impossible travel.
    /// Otherwise the location is legitimate and recorded (an unknown area counts as 0,0, not
    /// restricted).
    pub fn inspect_equipment_location(&mut self, imei: &str, tac: u32, plmn_id: &str, timestamp_secs: u64) -> (r: GeoVerdict)
        requires
            travel_computable(*old(self), imei@, tac, plmn_id@, timestamp_secs),
            old(self).total_inspections < u64::MAX,
            old(self).total_legitimate < u64::MAX,
            old(self).total_zone_violations < u64::MAX,
            old(self).total_travel_anomalies < u64::MAX,
        ensures
            final(self).total_inspections == old(self).total_inspections + 1,
            final(self).allowed_plmns == old(self).allowed_plmns,
            final(self).tracking_areas == old(self).tracking_areas,
            final(self).max_travel_speed_kmh == old(self).max_travel_speed_kmh,
            ({
                let areas = areas_view(old(self).tracking_areas@);
                let (coord, restricted) = match area_pos(areas, tac, plmn_id@) {
                    Some(i) => (areas[i].2, areas[i].3),
                    None => (GeoCoord { lat_microdeg: 0, lon_microdeg: 0 }, false),
                };
                let hist = hists_view(old(self).location_history@);
                if old(self).allowed_plmns@.len() != 0 && !strings_view(old(self).allowed_plmns@).contains(plmn_id@) {
                    &&& r matches GeoVerdict::UnauthorizedPlmn { plmn_id: p, result_code } && p@ == plmn_id@ && result_code == DIAMETER_AUTHORIZATION_REJECTED
                    &&& final(self).total_zone_violations == old(self).total_zone_violations + 1
                    &&& final(self).location_history == old(self).location_history
                } else if restricted {
                    &&& r matches GeoVerdict::RestrictedZoneViolation { tac: t, plmn_id: p, reason, result_code }
                        && t == tac && p@ == plmn_id@ && reason@ == "TAC marked as restricted/prohibited security zone"@
                        && result_code == DIAMETER_AUTHORIZATION_REJECTED
                    &&& final(self).total_zone_violations == old(self).total_zone_violations + 1
                    &&& final(self).location_history == old(self).location_history
                } else {
                    match hist_pos(hist, imei@) {
                        Some(k) => {
                            let prev = hist[k];
                            let elapsed = timestamp_secs - prev.3;
                            let speed = (distance(prev.2, coord) * 3600) / elapsed;
                            if timestamp_secs > prev.3 && speed > old(self).max_travel_speed_kmh {
                                &&& r matches GeoVerdict::ImpossibleTravelFraud { imei: i, previous_tac, current_tac, elapsed_secs, calculated_speed_kmh, max_allowed_speed_kmh, result_code }
                                    && i@ == imei@ && previous_tac == prev.1 && current_tac == tac && elapsed_secs == elapsed
                                    && calculated_speed_kmh == speed && max_allowed_speed_kmh == old(self).max_travel_speed_kmh
                                    && result_code == DIAMETER_AUTHORIZATION_REJECTED
                                &&& final(self).total_travel_anomalies == old(self).total_travel_anomalies + 1
                                &&& final(self).location_history == old(self).location_history
                            } else {
                                &&& r matches GeoVerdict::LegitimateLocation { tac: t, plmn_id: p, result_code } && t == tac && p@ == plmn_id@ && result_code == DIAMETER_SUCCESS
                                &&& final(self).total_legitimate == old(self).total_legitimate + 1
                                &&& hists_view(final(self).location_history@) == hist.update(k, (prev.0, tac, coord, timestamp_secs))
                            }
                        },
                        None => {
                            &&& r matches GeoVerdict::LegitimateLocation { tac: t, plmn_id: p, result_code } && t == tac && p@ == plmn_id@ && result_code == DIAMETER_SUCCESS
                            &&& final(self).total_legitimate == old(self).total_legitimate + 1
                            &&& hists_view(final(self).location_history@) == hist.push((imei@, tac, coord, timestamp_secs))
                        },
                    }
                }
            }),
    {
        self.total_inspections = self.total_inspections + 1;
        if self.allowed_plmns.len() != 0 && !self.plmn_allowed(plmn_id) {
            self.total_zone_violations = self.total_zone_violations + 1;
            return GeoVerdict::UnauthorizedPlmn { plmn_id: plmn_id.to_owned(), result_code: DIAMETER_AUTHORIZATION_REJECTED };
        }
        let ghost areas = areas_view(self.tracking_areas@);
        proof {
            lemma_area_pos(areas, tac, plmn_id@);
        }
        let (coord, is_restricted) = match self.find_area(tac, plmn_id) {
            Some(i) => {
                assert(areas[i as int] == area_view(self.tracking_areas@[i as int]));
                (self.tracking_areas[i].center_coord, self.tracking_areas[i].is_restricted)
            },
            None => (GeoCoord::new(0, 0), false),
        };
        assert(coord == area_coord(*old(self), tac, plmn_id@));
        if is_restricted {
            self.total_zone_violations = self.total_zone_violations + 1;
            return GeoVerdict::RestrictedZoneViolation {
                tac,
                plmn_id: plmn_id.to_owned(),
                reason: "TAC marked as restricted/prohibited security zone".to_owned(),
                result_code: DIAMETER_AUTHORIZATION_REJECTED,
            };
        }
        let ghost hist = hists_view(self.location_history@);
        proof {
            lemma_hist_pos(hist, imei@);
        }
        match self.find_history(imei) {
            Some(pos) => {
                let prev = &self.location_history[pos];
                assert(hist[pos as int] == hist_view(self.location_history@[pos as int]));
                if timestamp_secs > prev.last_timestamp_secs {
                    assert(coords_close(prev.last_coord, coord));
                    let elapsed_secs = timestamp_secs - prev.last_timestamp_secs;
                    let distance_km = prev.last_coord.distance_km(&coord);
                    let speed_kmh = (distance_km * 3600) / elapsed_secs;
                    if speed_kmh > self.max_travel_speed_kmh {
                        self.total_travel_anomalies = self.total_travel_anomalies + 1;
                        return GeoVerdict::ImpossibleTravelFraud {
                            imei: imei.to_owned(),
                            previous_tac: prev.last_tac,
                            current_tac: tac,
                            elapsed_secs,
                            calculated_speed_kmh: speed_kmh,
                            max_allowed_speed_kmh: self.max_travel_speed_kmh,
                            result_code: DIAMETER_AUTHORIZATION_REJECTED,
                        };
                    }
                }
                let k = self.location_history[pos].imei.clone();
                self.location_history.set(pos, DeviceLocationHistory { imei: k, last_tac: tac, last_coord: coord, last_timestamp_secs: timestamp_secs });
                assert(hists_view(self.location_history@) =~= hist.update(pos as int, (hist[pos as int].0, tac, coord, timestamp_secs)));
            },
            None => {
                self.location_history.push(DeviceLocationHistory { imei: imei.to_owned(), last_tac: tac, last_coord: coord, last_timestamp_secs: timestamp_secs });
                assert(hists_view(self.location_history@) =~= hist.push((imei@, tac, coord, timestamp_secs)));
            },
        }
        self.total_legitimate = self.total_legitimate + 1;
        GeoVerdict::LegitimateLocation { tac, plmn_id: plmn_id.to_owned(), result_code: DIAMETER_SUCCESS }
    }

    /// Forgets every device's history.
    pub fn purge_history(&mut self)
        ensures
            final(self).location_history@.len() == 0,
            final(self).allowed_plmns == old(self).allowed_plmns,
            final(self).tracking_areas == old(self).tracking_areas,
            final(self).max_travel_speed_kmh == old(self).max_travel_speed_kmh,
            final(self).total_inspections == old(self).total_inspections,
    {
        self.location_history.clear();
    }
}

} // verus!
