//! Diameter SLg: location services between the GMLC and the MME/SGSN (3GPP TS 29.172 /
//! TS 23.271), Application ID 16777255.
//!
//! Provide-Location-Request/Answer (command 8388620), Location-Report-Request/Answer
//! (command 8388621), and a GMLC engine that tracks immediate, emergency and periodic
//! deferred location sessions.
use vstd::prelude::*;
use crate::diameter::{AvpModel, DiameterAvp, DiameterHeader, DiameterMessage, mandatory_avp, DIAMETER_SUCCESS};
use crate::diameter_gx::text_avp_of;
use crate::table::{StrTable, count_entries, count_matching};
use crate::text::{concat, decimal, dec_chars, owned};
use crate::wire::{push_u16, push_u32, u16_bytes, u32_bytes};

verus! {

pub const DIAMETER_APPLICATION_SLG: u32 = 16777255;

pub const DIAMETER_CMD_PROVIDE_LOCATION: u32 = 8388620;
pub const DIAMETER_CMD_LOCATION_REPORT: u32 = 8388621;

pub const AVP_SLG_LOCATION_TYPE: u32 = 2500;
pub const AVP_LCS_EPS_CLIENT_NAME: u32 = 2501;
pub const AVP_LCS_REQUESTOR_NAME: u32 = 2502;
pub const AVP_LCS_PRIORITY: u32 = 2503;
pub const AVP_LCS_QOS: u32 = 2504;
pub const AVP_HORIZONTAL_ACCURACY: u32 = 2505;
pub const AVP_VERTICAL_ACCURACY: u32 = 2506;
pub const AVP_VELOCITY_REQUESTED: u32 = 2508;
pub const AVP_LCS_REFERENCE_NUMBER: u32 = 2580;
pub const AVP_DEFERRED_LOCATION_TYPE: u32 = 2532;
pub const AVP_GERANPOSITIONING_DATA: u32 = 2510;
pub const AVP_UTRANPOSITIONING_DATA: u32 = 2511;
pub const AVP_LOCATION_ESTIMATE: u32 = 2516;
pub const AVP_ACCURACY_FULFILMENT_INDICATOR: u32 = 2513;
pub const AVP_AGE_OF_LOCATION_ESTIMATE: u32 = 2514;
pub const AVP_VELOCITY_ESTIMATE: u32 = 2515;
pub const AVP_EUTRAN_POSITIONING_DATA: u32 = 2517;
pub const AVP_ECGI: u32 = 2518;
pub const AVP_LOCATION_EVENT: u32 = 2519;
pub const AVP_PSEUDONYM_INDICATOR: u32 = 2520;
pub const AVP_LCS_SERVICE_TYPE_ID: u32 = 2521;
pub const AVP_LCS_PRIVACY_CHECK_SESSION: u32 = 2522;
pub const AVP_LCS_PRIVACY_CHECK_NON_SESSION: u32 = 2523;
pub const AVP_IMEI: u32 = 2524;
pub const AVP_PERIODIC_LDR_INFORMATION: u32 = 2540;
pub const AVP_REPORTING_AMOUNT: u32 = 2541;
pub const AVP_REPORTING_INTERVAL: u32 = 2542;

pub const AVP_SESSION_ID: u32 = 263;
pub const AVP_ORIGIN_HOST: u32 = 264;
pub const AVP_ORIGIN_REALM: u32 = 296;
pub const AVP_DESTINATION_REALM: u32 = 283;
pub const AVP_DESTINATION_HOST: u32 = 293;
pub const AVP_RESULT_CODE: u32 = 268;
pub const AVP_AUTH_SESSION_STATE: u32 = 277;
pub const AVP_USER_NAME: u32 = 1;

/// Deferred-Location-Type bits (AVP 2532).
pub const DEFERRED_UE_AVAILABLE: u32 = 0x01;
pub const DEFERRED_ENTERING_INTO_AREA: u32 = 0x02;
pub const DEFERRED_LEAVING_FROM_AREA: u32 = 0x04;
pub const DEFERRED_BEING_INSIDE_AREA: u32 = 0x08;
pub const DEFERRED_PERIODIC_LDR: u32 = 0x10;
pub const DEFERRED_MOTION_EVENT: u32 = 0x20;

/// SLg-Location-Type (AVP 2500).
#[derive(Debug, Clone, Copy, PartialEq, Eq, Hash, Structural)]
pub enum SlgLocationType {
    CurrentLocation,
    CurrentOrLastKnownLocation,
    InitialLocation,
    ActivateDeferredLocation,
    CancelDeferredLocation,
    NotificationVerificationOnly,
}

/// The code of a location type.
pub open spec fn location_type_code(t: SlgLocationType) -> u32 {
    match t {
        SlgLocationType::CurrentLocation => 0,
        SlgLocationType::CurrentOrLastKnownLocation => 1,
        SlgLocationType::InitialLocation => 2,
        SlgLocationType::ActivateDeferredLocation => 3,
        SlgLocationType::CancelDeferredLocation => 4,
        SlgLocationType::NotificationVerificationOnly => 5,
    }
}

/// The location type of a code; codes above 4 mean notification only.
pub open spec fn location_type_of(v: u32) -> SlgLocationType {
    if v == 0 {
        SlgLocationType::CurrentLocation
    } else if v == 1 {
        SlgLocationType::CurrentOrLastKnownLocation
    } else if v == 2 {
        SlgLocationType::InitialLocation
    } else if v == 3 {
        SlgLocationType::ActivateDeferredLocation
    } else if v == 4 {
        SlgLocationType::CancelDeferredLocation
    } else {
        SlgLocationType::NotificationVerificationOnly
    }
}

impl SlgLocationType {
    pub fn from_u32(v: u32) -> (r: Self)
        ensures
            r == location_type_of(v),
    {
        match v {
            0 => SlgLocationType::CurrentLocation,
            1 => SlgLocationType::CurrentOrLastKnownLocation,
            2 => SlgLocationType::InitialLocation,
            3 => SlgLocationType::ActivateDeferredLocation,
            4 => SlgLocationType::CancelDeferredLocation,
            _ => SlgLocationType::NotificationVerificationOnly,
        }
    }

    pub fn as_u32(self) -> (r: u32)
        ensures
            r == location_type_code(self),
    {
        match self {
            SlgLocationType::CurrentLocation => 0,
            SlgLocationType::CurrentOrLastKnownLocation => 1,
            SlgLocationType::InitialLocation => 2,
            SlgLocationType::ActivateDeferredLocation => 3,
            SlgLocationType::CancelDeferredLocation => 4,
            SlgLocationType::NotificationVerificationOnly => 5,
        }
    }
}

/// Every location type survives its code.
pub proof fn lemma_location_type_roundtrip(t: SlgLocationType)
    ensures
        location_type_of(location_type_code(t)) == t,
{
}

/// Deferred-Location-Type (AVP 2532): a set of event bits.
#[derive(Debug, Clone, Copy, PartialEq, Eq, Hash, Structural)]
pub struct DeferredLocationType(pub u32);

impl DeferredLocationType {
    /// Whether any bit of `flag` is set.
    pub fn has_flag(&self, flag: Self) -> (r: bool)
        ensures
            r == (self.0 & flag.0 != 0),
    {
        (self.0 & flag.0) != 0
    }
}

/// LCS-Priority (AVP 2503).
#[derive(Debug, Clone, Copy, PartialEq, Eq, Structural)]
pub enum LcsPriority {
    HighestPriority,
    NormalPriority,
}

pub open spec fn priority_code(p: LcsPriority) -> u32 {
    match p {
        LcsPriority::HighestPriority => 0,
        LcsPriority::NormalPriority => 1,
    }
}

impl LcsPriority {
    /// 0 is the highest priority; anything else is normal.
    pub fn from_u32(v: u32) -> (r: Self)
        ensures
            r == (if v == 0 { LcsPriority::HighestPriority } else { LcsPriority::NormalPriority }),
    {
        if v == 0 { LcsPriority::HighestPriority } else { LcsPriority::NormalPriority }
    }

    pub fn as_u32(self) -> (r: u32)
        ensures
            r == priority_code(self),
    {
        match self {
            LcsPriority::HighestPriority => 0,
            LcsPriority::NormalPriority => 1,
        }
    }
}

/// Accuracy-Fulfilment-Indicator (AVP 2513).
#[derive(Debug, Clone, Copy, PartialEq, Eq, Structural)]
pub enum AccuracyFulfilmentIndicator {
    RequestedAccuracyFulfilled,
    RequestedAccuracyNotFulfilled,
}

pub open spec fn accuracy_code(a: AccuracyFulfilmentIndicator) -> u32 {
    match a {
        AccuracyFulfilmentIndicator::RequestedAccuracyFulfilled => 0,
        AccuracyFulfilmentIndicator::RequestedAccuracyNotFulfilled => 1,
    }
}

impl AccuracyFulfilmentIndicator {
    /// 0 means fulfilled; anything else, not fulfilled.
    pub fn from_u32(v: u32) -> (r: Self)
        ensures
            r == (if v == 0 {
                AccuracyFulfilmentIndicator::RequestedAccuracyFulfilled
            } else {
                AccuracyFulfilmentIndicator::RequestedAccuracyNotFulfilled
            }),
    {
        if v == 0 {
            AccuracyFulfilmentIndicator::RequestedAccuracyFulfilled
        } else {
            AccuracyFulfilmentIndicator::RequestedAccuracyNotFulfilled
        }
    }

    pub fn as_u32(self) -> (r: u32)
        ensures
            r == accuracy_code(self),
    {
        match self {
            AccuracyFulfilmentIndicator::RequestedAccuracyFulfilled => 0,
            AccuracyFulfilmentIndicator::RequestedAccuracyNotFulfilled => 1,
        }
    }
}

/// Location-Event (AVP 2519).
#[derive(Debug, Clone, Copy, PartialEq, Eq, Structural)]
pub enum LocationEvent {
    EmergencyCallOrigination,
    EmergencyCallRelease,
    MoLr,
    EmergencyCallHandover,
    DeferredMtLrResponse,
    DeferredMoLrTttpInitiation,
    DelayedLocationReporting,
}

pub open spec fn event_code(e: LocationEvent) -> u32 {
    match e {
        LocationEvent::EmergencyCallOrigination => 0,
        LocationEvent::EmergencyCallRelease => 1,
        LocationEvent::MoLr => 2,
        LocationEvent::EmergencyCallHandover => 3,
        LocationEvent::DeferredMtLrResponse => 4,
        LocationEvent::DeferredMoLrTttpInitiation => 5,
        LocationEvent::DelayedLocationReporting => 6,
    }
}

/// The event of a code; codes above 5 mean delayed reporting.
pub open spec fn event_of(v: u32) -> LocationEvent {
    if v == 0 {
        LocationEvent::EmergencyCallOrigination
    } else if v == 1 {
        LocationEvent::EmergencyCallRelease
    } else if v == 2 {
        LocationEvent::MoLr
    } else if v == 3 {
        LocationEvent::EmergencyCallHandover
    } else if v == 4 {
        LocationEvent::DeferredMtLrResponse
    } else if v == 5 {
        LocationEvent::DeferredMoLrTttpInitiation
    } else {
        LocationEvent::DelayedLocationReporting
    }
}

impl LocationEvent {
    pub fn from_u32(v: u32) -> (r: Self)
        ensures
            r == event_of(v),
    {
        match v {
            0 => LocationEvent::EmergencyCallOrigination,
            1 => LocationEvent::EmergencyCallRelease,
            2 => LocationEvent::MoLr,
            3 => LocationEvent::EmergencyCallHandover,
            4 => LocationEvent::DeferredMtLrResponse,
            5 => LocationEvent::DeferredMoLrTttpInitiation,
            _ => LocationEvent::DelayedLocationReporting,
        }
    }

    pub fn as_u32(self) -> (r: u32)
        ensures
            r == event_code(self),
    {
        match self {
            LocationEvent::EmergencyCallOrigination => 0,
            LocationEvent::EmergencyCallRelease => 1,
            LocationEvent::MoLr => 2,
            LocationEvent::EmergencyCallHandover => 3,
            LocationEvent::DeferredMtLrResponse => 4,
            LocationEvent::DeferredMoLrTttpInitiation => 5,
            LocationEvent::DelayedLocationReporting => 6,
        }
    }
}

/// Every location event survives its code.
pub proof fn lemma_event_roundtrip(e: LocationEvent)
    ensures
        event_of(event_code(e)) == e,
{
}

/// LCS response time category.
#[derive(Debug, Clone, Copy, PartialEq, Eq, Structural)]
pub enum LcsResponseTime {
    LowDelay,
    DelayTolerant,
}

impl LcsResponseTime {
    /// 0 is low delay; anything else tolerates delay.
    pub fn from_u32(v: u32) -> (r: Self)
        ensures
            r == (if v == 0 { LcsResponseTime::LowDelay } else { LcsResponseTime::DelayTolerant }),
    {
        if v == 0 { LcsResponseTime::LowDelay } else { LcsResponseTime::DelayTolerant }
    }
}

/// LCS quality of service.
#[derive(Debug, Clone, Copy, PartialEq, Eq, Structural)]
pub struct LcsQos {
    pub horizontal_accuracy: Option<u32>,
    pub vertical_accuracy: Option<u32>,
    pub velocity_requested: bool,
    pub response_time_category: LcsResponseTime,
}

/// 50 m horizontal accuracy, no vertical accuracy or velocity, low delay.
pub open spec fn default_qos() -> LcsQos {
    LcsQos {
        horizontal_accuracy: Some(50),
        vertical_accuracy: None,
        velocity_requested: false,
        response_time_category: LcsResponseTime::LowDelay,
    }
}

impl Default for LcsQos {
    fn default() -> (r: Self)
        ensures
            r == default_qos(),
    {
        LcsQos {
            horizontal_accuracy: Some(50),
            vertical_accuracy: None,
            velocity_requested: false,
            response_time_category: LcsResponseTime::LowDelay,
        }
    }
}

/// A location estimate: a geographical shape (latitudes and longitudes in units of
/// 1/2^23 degree), or raw shape octets.
#[derive(Debug, Clone, PartialEq, Eq)]
pub enum LocationEstimate {
    EllipsoidPoint { latitude: i32, longitude: i32 },
    EllipsoidPointUncertaintyCircle { latitude: i32, longitude: i32, uncertainty_radius_m: u32 },
    EllipsoidPointAltitudeUncertainty {
        latitude: i32,
        longitude: i32,
        altitude_m: i16,
        uncertainty_semi_major_m: u32,
        uncertainty_semi_minor_m: u32,
        orientation_major_axis_deg: u16,
        uncertainty_altitude_m: u32,
        confidence_pct: u8,
    },
    Raw(Vec<u8>),
}

/// The content of a location estimate, raw octets taken as a sequence.
pub enum LocationModel {
    EllipsoidPoint { latitude: i32, longitude: i32 },
    EllipsoidPointUncertaintyCircle { latitude: i32, longitude: i32, uncertainty_radius_m: u32 },
    EllipsoidPointAltitudeUncertainty {
        latitude: i32,
        longitude: i32,
        altitude_m: i16,
        uncertainty_semi_major_m: u32,
        uncertainty_semi_minor_m: u32,
        orientation_major_axis_deg: u16,
        uncertainty_altitude_m: u32,
        confidence_pct: u8,
    },
    Raw(Seq<u8>),
}

impl View for LocationEstimate {
    type V = LocationModel;

    open spec fn view(&self) -> LocationModel {
        match *self {
            LocationEstimate::EllipsoidPoint { latitude, longitude } => LocationModel::EllipsoidPoint { latitude, longitude },
            LocationEstimate::EllipsoidPointUncertaintyCircle { latitude, longitude, uncertainty_radius_m } =>
                LocationModel::EllipsoidPointUncertaintyCircle { latitude, longitude, uncertainty_radius_m },
            LocationEstimate::EllipsoidPointAltitudeUncertainty {
                latitude,
                longitude,
                altitude_m,
                uncertainty_semi_major_m,
                uncertainty_semi_minor_m,
                orientation_major_axis_deg,
                uncertainty_altitude_m,
                confidence_pct,
            } => LocationModel::EllipsoidPointAltitudeUncertainty {
                latitude,
                longitude,
                altitude_m,
                uncertainty_semi_major_m,
                uncertainty_semi_minor_m,
                orientation_major_axis_deg,
                uncertainty_altitude_m,
                confidence_pct,
            },
            LocationEstimate::Raw(v) => LocationModel::Raw(v@),
        }
    }
}

/// The content of an optional location estimate.
pub open spec fn opt_location(o: Option<LocationEstimate>) -> Option<LocationModel> {
    match o {
        Some(l) => Some(l@),
        None => None,
    }
}

/// The octets of a Location-Estimate AVP: latitude and longitude, big-endian, then the
/// uncertainty radius for a circle or the altitude for an ellipsoid; raw shapes as they are.
pub open spec fn location_bytes(l: LocationModel) -> Seq<u8> {
    match l {
        LocationModel::EllipsoidPoint { latitude, longitude } => u32_bytes(latitude as u32) + u32_bytes(longitude as u32),
        LocationModel::EllipsoidPointUncertaintyCircle { latitude, longitude, uncertainty_radius_m } =>
            u32_bytes(latitude as u32) + u32_bytes(longitude as u32) + u32_bytes(uncertainty_radius_m),
        LocationModel::EllipsoidPointAltitudeUncertainty { latitude, longitude, altitude_m, .. } =>
            u32_bytes(latitude as u32) + u32_bytes(longitude as u32) + u16_bytes(altitude_m as u16),
        LocationModel::Raw(raw) => raw,
    }
}

fn copy_bytes(v: &Vec<u8>) -> (r: Vec<u8>)
    ensures
        r@ == v@,
{
    let mut out: Vec<u8> = Vec::new();
    let mut i: usize = 0;
    while i < v.len()
        invariant
            i <= v@.len(),
            out@ == v@.take(i as int),
        decreases v@.len() - i,
    {
        out.push(v[i]);
        i = i + 1;
        assert(out@ =~= v@.take(i as int));
    }
    assert(v@.take(i as int) =~= v@);
    out
}

/// A copy of optional octets.
fn copy_opt_bytes(o: &Option<Vec<u8>>) -> (r: Option<Vec<u8>>)
    ensures
        opt_bytes(r) == opt_bytes(*o),
{
    match o {
        Some(v) => Some(copy_bytes(v)),
        None => None,
    }
}

/// Optional octets taken as a sequence.
pub open spec fn opt_bytes(o: Option<Vec<u8>>) -> Option<Seq<u8>> {
    match o {
        Some(v) => Some(v@),
        None => None,
    }
}

impl LocationEstimate {
    /// A copy of this estimate.
    pub fn copy(&self) -> (r: Self)
        ensures
            r@ == self@,
    {
        match self {
            LocationEstimate::EllipsoidPoint { latitude, longitude } =>
                LocationEstimate::EllipsoidPoint { latitude: *latitude, longitude: *longitude },
            LocationEstimate::EllipsoidPointUncertaintyCircle { latitude, longitude, uncertainty_radius_m } =>
                LocationEstimate::EllipsoidPointUncertaintyCircle {
                    latitude: *latitude,
                    longitude: *longitude,
                    uncertainty_radius_m: *uncertainty_radius_m,
                },
            LocationEstimate::EllipsoidPointAltitudeUncertainty {
                latitude,
                longitude,
                altitude_m,
                uncertainty_semi_major_m,
                uncertainty_semi_minor_m,
                orientation_major_axis_deg,
                uncertainty_altitude_m,
                confidence_pct,
            } => LocationEstimate::EllipsoidPointAltitudeUncertainty {
                latitude: *latitude,
                longitude: *longitude,
                altitude_m: *altitude_m,
                uncertainty_semi_major_m: *uncertainty_semi_major_m,
                uncertainty_semi_minor_m: *uncertainty_semi_minor_m,
                orientation_major_axis_deg: *orientation_major_axis_deg,
                uncertainty_altitude_m: *uncertainty_altitude_m,
                confidence_pct: *confidence_pct,
            },
            LocationEstimate::Raw(v) => LocationEstimate::Raw(copy_bytes(v)),
        }
    }

    /// The octets of the Location-Estimate AVP for this estimate.
    pub fn encode(&self) -> (r: Vec<u8>)
        ensures
            r@ == location_bytes(self@),
    {
        let mut v: Vec<u8> = Vec::new();
        match self {
            LocationEstimate::EllipsoidPoint { latitude, longitude } => {
                push_u32(&mut v, *latitude as u32);
                push_u32(&mut v, *longitude as u32);
            },
            LocationEstimate::EllipsoidPointUncertaintyCircle { latitude, longitude, uncertainty_radius_m } => {
                push_u32(&mut v, *latitude as u32);
                push_u32(&mut v, *longitude as u32);
                push_u32(&mut v, *uncertainty_radius_m);
            },
            LocationEstimate::EllipsoidPointAltitudeUncertainty { latitude, longitude, altitude_m, .. } => {
                push_u32(&mut v, *latitude as u32);
                push_u32(&mut v, *longitude as u32);
                push_u16(&mut v, *altitude_m as u16);
            },
            LocationEstimate::Raw(raw) => {
                v = copy_bytes(raw);
            },
        }
        assert(v@ =~= location_bytes(self@));
        v
    }
}

/// A copy of an optional estimate.
fn copy_opt_location(o: &Option<LocationEstimate>) -> (r: Option<LocationEstimate>)
    ensures
        opt_location(r) == opt_location(*o),
{
    match o {
        Some(l) => Some(l.copy()),
        None => None,
    }
}

/// Periodic-LDR-Information (AVP 2540).
#[derive(Debug, Clone, Copy, PartialEq, Eq, Structural)]
pub struct PeriodicLdrInformation {
    pub reporting_amount: u32,
    pub reporting_interval_sec: u32,
}

// ---------------------------------------------------------------------------
// Messages
// ---------------------------------------------------------------------------

/// The header of an SLg message: version 1, no identifiers yet.
pub open spec fn slg_header(flags: u8, command_code: u32) -> DiameterHeader {
    DiameterHeader {
        version: 1,
        length: 0,
        flags,
        command_code,
        application_id: DIAMETER_APPLICATION_SLG,
        hop_by_hop_id: 0,
        end_to_end_id: 0,
    }
}

/// A mandatory Unsigned32 AVP.
pub open spec fn u32_avp(code: u32, v: u32) -> AvpModel {
    mandatory_avp(code, u32_bytes(v))
}

/// A text AVP if the text is there.
pub open spec fn opt_text_avps(code: u32, o: Option<String>) -> Seq<AvpModel> {
    match o {
        Some(s) => seq![text_avp_of(code, s@)],
        None => Seq::empty(),
    }
}

/// An Unsigned32 AVP if the value is there.
pub open spec fn opt_u32_avps(code: u32, o: Option<u32>) -> Seq<AvpModel> {
    match o {
        Some(v) => seq![u32_avp(code, v)],
        None => Seq::empty(),
    }
}

/// An octet-string AVP if the octets are there.
pub open spec fn opt_bytes_avps(code: u32, o: Option<Seq<u8>>) -> Seq<AvpModel> {
    match o {
        Some(b) => seq![mandatory_avp(code, b)],
        None => Seq::empty(),
    }
}

/// A Location-Estimate AVP if there is an estimate.
pub open spec fn opt_location_avps(o: Option<LocationModel>) -> Seq<AvpModel> {
    match o {
        Some(l) => seq![mandatory_avp(AVP_LOCATION_ESTIMATE, location_bytes(l))],
        None => Seq::empty(),
    }
}

/// An Accuracy-Fulfilment-Indicator AVP if there is one.
pub open spec fn opt_accuracy_avps(o: Option<AccuracyFulfilmentIndicator>) -> Seq<AvpModel> {
    match o {
        Some(a) => seq![u32_avp(AVP_ACCURACY_FULFILMENT_INDICATOR, accuracy_code(a))],
        None => Seq::empty(),
    }
}

/// Reporting-Amount and Reporting-Interval AVPs if periodic reporting is asked for.
pub open spec fn periodic_avps(o: Option<PeriodicLdrInformation>) -> Seq<AvpModel> {
    match o {
        Some(p) => seq![
            u32_avp(AVP_REPORTING_AMOUNT, p.reporting_amount),
            u32_avp(AVP_REPORTING_INTERVAL, p.reporting_interval_sec),
        ],
        None => Seq::empty(),
    }
}

/// The bits of an optional Deferred-Location-Type.
pub open spec fn opt_deferred(o: Option<DeferredLocationType>) -> Option<u32> {
    match o {
        Some(d) => Some(d.0),
        None => None,
    }
}

fn add_opt_text(m: &mut DiameterMessage, code: u32, o: &Option<String>)
    ensures
        final(m).header == old(m).header,
        final(m)@.avps == old(m)@.avps + opt_text_avps(code, *o),
{
    match o {
        Some(s) => m.add_avp(DiameterAvp::new_utf8(code, s.as_str())),
        None => {},
    }
    assert(m@.avps =~= old(m)@.avps + opt_text_avps(code, *o));
}

fn add_opt_u32(m: &mut DiameterMessage, code: u32, o: Option<u32>)
    ensures
        final(m).header == old(m).header,
        final(m)@.avps == old(m)@.avps + opt_u32_avps(code, o),
{
    match o {
        Some(v) => m.add_avp(DiameterAvp::new_u32(code, v)),
        None => {},
    }
    assert(m@.avps =~= old(m)@.avps + opt_u32_avps(code, o));
}

fn add_opt_bytes(m: &mut DiameterMessage, code: u32, o: &Option<Vec<u8>>)
    ensures
        final(m).header == old(m).header,
        final(m)@.avps == old(m)@.avps + opt_bytes_avps(code, opt_bytes(*o)),
{
    match o {
        Some(v) => m.add_avp(DiameterAvp::new(code, v.as_slice())),
        None => {},
    }
    assert(m@.avps =~= old(m)@.avps + opt_bytes_avps(code, opt_bytes(*o)));
}

fn add_opt_location(m: &mut DiameterMessage, o: &Option<LocationEstimate>)
    ensures
        final(m).header == old(m).header,
        final(m)@.avps == old(m)@.avps + opt_location_avps(opt_location(*o)),
{
    match o {
        Some(l) => {
            let raw = l.encode();
            m.add_avp(DiameterAvp::new(AVP_LOCATION_ESTIMATE, raw.as_slice()));
        },
        None => {},
    }
    assert(m@.avps =~= old(m)@.avps + opt_location_avps(opt_location(*o)));
}

fn add_opt_accuracy(m: &mut DiameterMessage, o: Option<AccuracyFulfilmentIndicator>)
    ensures
        final(m).header == old(m).header,
        final(m)@.avps == old(m)@.avps + opt_accuracy_avps(o),
{
    match o {
        Some(a) => m.add_avp(DiameterAvp::new_u32(AVP_ACCURACY_FULFILMENT_INDICATOR, a.as_u32())),
        None => {},
    }
    assert(m@.avps =~= old(m)@.avps + opt_accuracy_avps(o));
}

fn empty_message(flags: u8, command_code: u32) -> (r: DiameterMessage)
    ensures
        r.header == slg_header(flags, command_code),
        r@.avps == Seq::<AvpModel>::empty(),
{
    let r = DiameterMessage {
        header: DiameterHeader {
            version: 1,
            length: 0,
            flags,
            command_code,
            application_id: DIAMETER_APPLICATION_SLG,
            hop_by_hop_id: 0,
            end_to_end_id: 0,
        },
        avps: Vec::new(),
    };
    assert(r@.avps =~= Seq::<AvpModel>::empty());
    r
}

/// Provide-Location-Request (GMLC to MME/SGSN).
#[derive(Debug, Clone, PartialEq, Eq)]
pub struct ProvideLocationRequest {
    pub session_id: String,
    pub origin_host: String,
    pub origin_realm: String,
    pub destination_realm: String,
    pub destination_host: Option<String>,
    pub imsi: String,
    pub msisdn: Option<String>,
    pub imei: Option<String>,
    pub location_type: SlgLocationType,
    pub lcs_eps_client_name: Option<String>,
    pub lcs_requestor_name: Option<String>,
    pub lcs_priority: LcsPriority,
    pub lcs_qos: LcsQos,
    pub deferred_location_type: Option<DeferredLocationType>,
    pub lcs_reference_number: Option<u32>,
    pub periodic_ldr: Option<PeriodicLdrInformation>,
    pub lcs_service_type_id: Option<u32>,
}

/// The optional AVPs of a Provide-Location-Request, in order, each where its field is there.
pub open spec fn plr_optional_avps(p: ProvideLocationRequest) -> Seq<AvpModel> {
    opt_text_avps(AVP_LCS_EPS_CLIENT_NAME, p.lcs_eps_client_name)
        + opt_text_avps(AVP_LCS_REQUESTOR_NAME, p.lcs_requestor_name)
        + opt_text_avps(AVP_DESTINATION_HOST, p.destination_host)
        + opt_u32_avps(AVP_HORIZONTAL_ACCURACY, p.lcs_qos.horizontal_accuracy)
        + opt_u32_avps(AVP_VERTICAL_ACCURACY, p.lcs_qos.vertical_accuracy)
        + opt_u32_avps(AVP_DEFERRED_LOCATION_TYPE, opt_deferred(p.deferred_location_type))
        + opt_u32_avps(AVP_LCS_REFERENCE_NUMBER, p.lcs_reference_number)
        + periodic_avps(p.periodic_ldr)
        + opt_u32_avps(AVP_LCS_SERVICE_TYPE_ID, p.lcs_service_type_id)
}

/// The AVPs of a Provide-Location-Request, in order: the identities, the stateless
/// session flag, the IMSI, type and priority, then the optional ones.
pub open spec fn plr_avps(p: ProvideLocationRequest) -> Seq<AvpModel> {
    seq![
        text_avp_of(AVP_SESSION_ID, p.session_id@),
        text_avp_of(AVP_ORIGIN_HOST, p.origin_host@),
        text_avp_of(AVP_ORIGIN_REALM, p.origin_realm@),
        text_avp_of(AVP_DESTINATION_REALM, p.destination_realm@),
        u32_avp(AVP_AUTH_SESSION_STATE, 1),
        text_avp_of(AVP_USER_NAME, p.imsi@),
        u32_avp(AVP_SLG_LOCATION_TYPE, location_type_code(p.location_type)),
        u32_avp(AVP_LCS_PRIORITY, priority_code(p.lcs_priority)),
    ] + plr_optional_avps(p)
}

proof fn lemma_assoc(a: Seq<AvpModel>, b: Seq<AvpModel>, c: Seq<AvpModel>)
    ensures
        a + b + c == a + (b + c),
{
    assert(a + b + c =~= a + (b + c));
}

fn add_periodic(m: &mut DiameterMessage, o: Option<PeriodicLdrInformation>)
    ensures
        final(m).header == old(m).header,
        final(m)@.avps == old(m)@.avps + periodic_avps(o),
{
    match o {
        Some(q) => {
            m.add_avp(DiameterAvp::new_u32(AVP_REPORTING_AMOUNT, q.reporting_amount));
            m.add_avp(DiameterAvp::new_u32(AVP_REPORTING_INTERVAL, q.reporting_interval_sec));
        },
        None => {},
    }
    assert(m@.avps =~= old(m)@.avps + periodic_avps(o));
}

fn add_plr_options(m: &mut DiameterMessage, p: &ProvideLocationRequest)
    ensures
        final(m).header == old(m).header,
        final(m)@.avps == old(m)@.avps + plr_optional_avps(*p),
{
    let ghost a0 = m@.avps;
    let ghost x1 = opt_text_avps(AVP_LCS_EPS_CLIENT_NAME, p.lcs_eps_client_name);
    let ghost x2 = opt_text_avps(AVP_LCS_REQUESTOR_NAME, p.lcs_requestor_name);
    let ghost x3 = opt_text_avps(AVP_DESTINATION_HOST, p.destination_host);
    let ghost x4 = opt_u32_avps(AVP_HORIZONTAL_ACCURACY, p.lcs_qos.horizontal_accuracy);
    let ghost x5 = opt_u32_avps(AVP_VERTICAL_ACCURACY, p.lcs_qos.vertical_accuracy);
    let ghost x6 = opt_u32_avps(AVP_DEFERRED_LOCATION_TYPE, opt_deferred(p.deferred_location_type));
    let ghost x7 = opt_u32_avps(AVP_LCS_REFERENCE_NUMBER, p.lcs_reference_number);
    let ghost x8 = periodic_avps(p.periodic_ldr);
    let ghost x9 = opt_u32_avps(AVP_LCS_SERVICE_TYPE_ID, p.lcs_service_type_id);
    add_opt_text(m, AVP_LCS_EPS_CLIENT_NAME, &p.lcs_eps_client_name);
    add_opt_text(m, AVP_LCS_REQUESTOR_NAME, &p.lcs_requestor_name);
    proof { lemma_assoc(a0, x1, x2); }
    add_opt_text(m, AVP_DESTINATION_HOST, &p.destination_host);
    proof { lemma_assoc(a0, x1 + x2, x3); }
    add_opt_u32(m, AVP_HORIZONTAL_ACCURACY, p.lcs_qos.horizontal_accuracy);
    proof { lemma_assoc(a0, x1 + x2 + x3, x4); }
    add_opt_u32(m, AVP_VERTICAL_ACCURACY, p.lcs_qos.vertical_accuracy);
    proof { lemma_assoc(a0, x1 + x2 + x3 + x4, x5); }
    let deferred = match p.deferred_location_type {
        Some(d) => Some(d.0),
        None => None,
    };
    add_opt_u32(m, AVP_DEFERRED_LOCATION_TYPE, deferred);
    proof { lemma_assoc(a0, x1 + x2 + x3 + x4 + x5, x6); }
    add_opt_u32(m, AVP_LCS_REFERENCE_NUMBER, p.lcs_reference_number);
    proof { lemma_assoc(a0, x1 + x2 + x3 + x4 + x5 + x6, x7); }
    add_periodic(m, p.periodic_ldr);
    proof { lemma_assoc(a0, x1 + x2 + x3 + x4 + x5 + x6 + x7, x8); }
    add_opt_u32(m, AVP_LCS_SERVICE_TYPE_ID, p.lcs_service_type_id);
    proof { lemma_assoc(a0, x1 + x2 + x3 + x4 + x5 + x6 + x7 + x8, x9); }
}

impl ProvideLocationRequest {
    /// A request of normal priority and default quality of service, with no optional field.
    pub fn new(
        session_id: &str,
        imsi: &str,
        location_type: SlgLocationType,
        origin_host: &str,
        origin_realm: &str,
        destination_realm: &str,
    ) -> (r: Self)
        ensures
            r.session_id@ == session_id@,
            r.origin_host@ == origin_host@,
            r.origin_realm@ == origin_realm@,
            r.destination_realm@ == destination_realm@,
            r.destination_host is None,
            r.imsi@ == imsi@,
            r.msisdn is None,
            r.imei is None,
            r.location_type == location_type,
            r.lcs_eps_client_name is None,
            r.lcs_requestor_name is None,
            r.lcs_priority == LcsPriority::NormalPriority,
            r.lcs_qos == default_qos(),
            r.deferred_location_type is None,
            r.lcs_reference_number is None,
            r.periodic_ldr is None,
            r.lcs_service_type_id is None,
    {
        ProvideLocationRequest {
            session_id: owned(session_id),
            origin_host: owned(origin_host),
            origin_realm: owned(origin_realm),
            destination_realm: owned(destination_realm),
            destination_host: None,
            imsi: owned(imsi),
            msisdn: None,
            imei: None,
            location_type,
            lcs_eps_client_name: None,
            lcs_requestor_name: None,
            lcs_priority: LcsPriority::NormalPriority,
            lcs_qos: LcsQos::default(),
            deferred_location_type: None,
            lcs_reference_number: None,
            periodic_ldr: None,
            lcs_service_type_id: None,
        }
    }

    /// The request as a Diameter message (request and proxiable flags, identifiers 0).
    pub fn to_diameter_message(&self) -> (r: DiameterMessage)
        ensures
            r.header == slg_header(0xC0, DIAMETER_CMD_PROVIDE_LOCATION),
            r@.avps == plr_avps(*self),
    {
        let mut m = empty_message(0xC0, DIAMETER_CMD_PROVIDE_LOCATION);
        m.add_avp(DiameterAvp::new_utf8(AVP_SESSION_ID, self.session_id.as_str()));
        m.add_avp(DiameterAvp::new_utf8(AVP_ORIGIN_HOST, self.origin_host.as_str()));
        m.add_avp(DiameterAvp::new_utf8(AVP_ORIGIN_REALM, self.origin_realm.as_str()));
        m.add_avp(DiameterAvp::new_utf8(AVP_DESTINATION_REALM, self.destination_realm.as_str()));
        m.add_avp(DiameterAvp::new_u32(AVP_AUTH_SESSION_STATE, 1));
        m.add_avp(DiameterAvp::new_utf8(AVP_USER_NAME, self.imsi.as_str()));
        m.add_avp(DiameterAvp::new_u32(AVP_SLG_LOCATION_TYPE, self.location_type.as_u32()));
        m.add_avp(DiameterAvp::new_u32(AVP_LCS_PRIORITY, self.lcs_priority.as_u32()));
        let ghost base = m@.avps;
        add_plr_options(&mut m, self);
        assert(m@.avps =~= plr_avps(*self));
        m
    }
}

/// Provide-Location-Answer (MME/SGSN to GMLC).
#[derive(Debug, Clone, PartialEq, Eq)]
pub struct ProvideLocationAnswer {
    pub session_id: String,
    pub result_code: u32,
    pub origin_host: String,
    pub origin_realm: String,
    pub location_estimate: Option<LocationEstimate>,
    pub accuracy_fulfilment: Option<AccuracyFulfilmentIndicator>,
    pub age_of_location_estimate_sec: Option<u32>,
    pub velocity_estimate: Option<Vec<u8>>,
    pub eutran_positioning_data: Option<Vec<u8>>,
    pub ecgi: Option<Vec<u8>>,
    pub lcs_reference_number: Option<u32>,
}

/// The AVPs of a Provide-Location-Answer: identities and result, then each optional
/// field that is there.
pub open spec fn pla_avps(p: ProvideLocationAnswer) -> Seq<AvpModel> {
    seq![
        text_avp_of(AVP_SESSION_ID, p.session_id@),
        u32_avp(AVP_RESULT_CODE, p.result_code),
        text_avp_of(AVP_ORIGIN_HOST, p.origin_host@),
        text_avp_of(AVP_ORIGIN_REALM, p.origin_realm@),
    ] + opt_location_avps(opt_location(p.location_estimate)) + opt_accuracy_avps(p.accuracy_fulfilment)
        + opt_u32_avps(AVP_AGE_OF_LOCATION_ESTIMATE, p.age_of_location_estimate_sec) + opt_bytes_avps(
        AVP_VELOCITY_ESTIMATE,
        opt_bytes(p.velocity_estimate),
    ) + opt_bytes_avps(AVP_EUTRAN_POSITIONING_DATA, opt_bytes(p.eutran_positioning_data)) + opt_bytes_avps(
        AVP_ECGI,
        opt_bytes(p.ecgi),
    ) + opt_u32_avps(AVP_LCS_REFERENCE_NUMBER, p.lcs_reference_number)
}

impl ProvideLocationAnswer {
    /// A successful answer carrying `location`, accuracy fulfilled, age 0.
    pub fn success(session_id: &str, origin_host: &str, origin_realm: &str, location: LocationEstimate) -> (r: Self)
        ensures
            r.session_id@ == session_id@,
            r.result_code == DIAMETER_SUCCESS,
            r.origin_host@ == origin_host@,
            r.origin_realm@ == origin_realm@,
            r.location_estimate == Some(location),
            r.accuracy_fulfilment == Some(AccuracyFulfilmentIndicator::RequestedAccuracyFulfilled),
            r.age_of_location_estimate_sec == Some(0u32),
            r.velocity_estimate is None,
            r.eutran_positioning_data is None,
            r.ecgi is None,
            r.lcs_reference_number is None,
    {
        ProvideLocationAnswer {
            session_id: owned(session_id),
            result_code: DIAMETER_SUCCESS,
            origin_host: owned(origin_host),
            origin_realm: owned(origin_realm),
            location_estimate: Some(location),
            accuracy_fulfilment: Some(AccuracyFulfilmentIndicator::RequestedAccuracyFulfilled),
            age_of_location_estimate_sec: Some(0),
            velocity_estimate: None,
            eutran_positioning_data: None,
            ecgi: None,
            lcs_reference_number: None,
        }
    }

    /// The answer as a Diameter message (proxiable flag, identifiers 0).
    pub fn to_diameter_message(&self) -> (r: DiameterMessage)
        ensures
            r.header == slg_header(0x40, DIAMETER_CMD_PROVIDE_LOCATION),
            r@.avps == pla_avps(*self),
    {
        let mut m = empty_message(0x40, DIAMETER_CMD_PROVIDE_LOCATION);
        m.add_avp(DiameterAvp::new_utf8(AVP_SESSION_ID, self.session_id.as_str()));
        m.add_avp(DiameterAvp::new_u32(AVP_RESULT_CODE, self.result_code));
        m.add_avp(DiameterAvp::new_utf8(AVP_ORIGIN_HOST, self.origin_host.as_str()));
        m.add_avp(DiameterAvp::new_utf8(AVP_ORIGIN_REALM, self.origin_realm.as_str()));
        let ghost base = m@.avps;
        add_opt_location(&mut m, &self.location_estimate);
        add_opt_accuracy(&mut m, self.accuracy_fulfilment);
        add_opt_u32(&mut m, AVP_AGE_OF_LOCATION_ESTIMATE, self.age_of_location_estimate_sec);
        add_opt_bytes(&mut m, AVP_VELOCITY_ESTIMATE, &self.velocity_estimate);
        add_opt_bytes(&mut m, AVP_EUTRAN_POSITIONING_DATA, &self.eutran_positioning_data);
        add_opt_bytes(&mut m, AVP_ECGI, &self.ecgi);
        add_opt_u32(&mut m, AVP_LCS_REFERENCE_NUMBER, self.lcs_reference_number);
        assert(base =~= pla_avps(*self).take(4));
        assert(m@.avps =~= pla_avps(*self));
        m
    }
}

/// Location-Report-Request (MME/SGSN to GMLC).
#[derive(Debug, Clone, PartialEq, Eq)]
pub struct LocationReportRequest {
    pub session_id: String,
    pub origin_host: String,
    pub origin_realm: String,
    pub destination_realm: String,
    pub destination_host: String,
    pub imsi: String,
    pub location_event: LocationEvent,
    pub location_estimate: Option<LocationEstimate>,
    pub accuracy_fulfilment: Option<AccuracyFulfilmentIndicator>,
    pub age_of_location_estimate_sec: Option<u32>,
    pub lcs_reference_number: Option<u32>,
    pub ecgi: Option<Vec<u8>>,
}

/// The content of a location report, texts and octets taken as sequences.
pub struct LrrModel {
    pub session_id: Seq<char>,
    pub origin_host: Seq<char>,
    pub origin_realm: Seq<char>,
    pub destination_realm: Seq<char>,
    pub destination_host: Seq<char>,
    pub imsi: Seq<char>,
    pub location_event: LocationEvent,
    pub location_estimate: Option<LocationModel>,
    pub accuracy_fulfilment: Option<AccuracyFulfilmentIndicator>,
    pub age_of_location_estimate_sec: Option<u32>,
    pub lcs_reference_number: Option<u32>,
    pub ecgi: Option<Seq<u8>>,
}

impl View for LocationReportRequest {
    type V = LrrModel;

    open spec fn view(&self) -> LrrModel {
        LrrModel {
            session_id: self.session_id@,
            origin_host: self.origin_host@,
            origin_realm: self.origin_realm@,
            destination_realm: self.destination_realm@,
            destination_host: self.destination_host@,
            imsi: self.imsi@,
            location_event: self.location_event,
            location_estimate: opt_location(self.location_estimate),
            accuracy_fulfilment: self.accuracy_fulfilment,
            age_of_location_estimate_sec: self.age_of_location_estimate_sec,
            lcs_reference_number: self.lcs_reference_number,
            ecgi: opt_bytes(self.ecgi),
        }
    }
}

/// The contents of a list of reports.
pub open spec fn reports_view(rs: Seq<LocationReportRequest>) -> Seq<LrrModel> {
    rs.map_values(|r: LocationReportRequest| r@)
}

/// The AVPs of a Location-Report-Request: identities, the stateless session flag, the
/// IMSI and event, then each optional field that is there.
pub open spec fn lrr_avps(l: LrrModel) -> Seq<AvpModel> {
    seq![
        text_avp_of(AVP_SESSION_ID, l.session_id),
        text_avp_of(AVP_ORIGIN_HOST, l.origin_host),
        text_avp_of(AVP_ORIGIN_REALM, l.origin_realm),
        text_avp_of(AVP_DESTINATION_REALM, l.destination_realm),
        text_avp_of(AVP_DESTINATION_HOST, l.destination_host),
        u32_avp(AVP_AUTH_SESSION_STATE, 1),
        text_avp_of(AVP_USER_NAME, l.imsi),
        u32_avp(AVP_LOCATION_EVENT, event_code(l.location_event)),
    ] + opt_location_avps(l.location_estimate) + opt_accuracy_avps(l.accuracy_fulfilment) + opt_u32_avps(
        AVP_AGE_OF_LOCATION_ESTIMATE,
        l.age_of_location_estimate_sec,
    ) + opt_u32_avps(AVP_LCS_REFERENCE_NUMBER, l.lcs_reference_number) + opt_bytes_avps(AVP_ECGI, l.ecgi)
}

impl LocationReportRequest {
    /// A report with no optional field.
    pub fn new(
        session_id: &str,
        imsi: &str,
        location_event: LocationEvent,
        origin_host: &str,
        origin_realm: &str,
        destination_realm: &str,
        destination_host: &str,
    ) -> (r: Self)
        ensures
            r@ == (LrrModel {
                session_id: session_id@,
                origin_host: origin_host@,
                origin_realm: origin_realm@,
                destination_realm: destination_realm@,
                destination_host: destination_host@,
                imsi: imsi@,
                location_event,
                location_estimate: None,
                accuracy_fulfilment: None,
                age_of_location_estimate_sec: None,
                lcs_reference_number: None,
                ecgi: None,
            }),
    {
        LocationReportRequest {
            session_id: owned(session_id),
            origin_host: owned(origin_host),
            origin_realm: owned(origin_realm),
            destination_realm: owned(destination_realm),
            destination_host: owned(destination_host),
            imsi: owned(imsi),
            location_event,
            location_estimate: None,
            accuracy_fulfilment: None,
            age_of_location_estimate_sec: None,
            lcs_reference_number: None,
            ecgi: None,
        }
    }

    /// A copy of this report.
    pub fn copy(&self) -> (r: Self)
        ensures
            r@ == self@,
    {
        LocationReportRequest {
            session_id: self.session_id.clone(),
            origin_host: self.origin_host.clone(),
            origin_realm: self.origin_realm.clone(),
            destination_realm: self.destination_realm.clone(),
            destination_host: self.destination_host.clone(),
            imsi: self.imsi.clone(),
            location_event: self.location_event,
            location_estimate: copy_opt_location(&self.location_estimate),
            accuracy_fulfilment: self.accuracy_fulfilment,
            age_of_location_estimate_sec: self.age_of_location_estimate_sec,
            lcs_reference_number: self.lcs_reference_number,
            ecgi: copy_opt_bytes(&self.ecgi),
        }
    }

    /// The report as a Diameter message (request and proxiable flags, identifiers 0).
    pub fn to_diameter_message(&self) -> (r: DiameterMessage)
        ensures
            r.header == slg_header(0xC0, DIAMETER_CMD_LOCATION_REPORT),
            r@.avps == lrr_avps(self@),
    {
        let mut m = empty_message(0xC0, DIAMETER_CMD_LOCATION_REPORT);
        m.add_avp(DiameterAvp::new_utf8(AVP_SESSION_ID, self.session_id.as_str()));
        m.add_avp(DiameterAvp::new_utf8(AVP_ORIGIN_HOST, self.origin_host.as_str()));
        m.add_avp(DiameterAvp::new_utf8(AVP_ORIGIN_REALM, self.origin_realm.as_str()));
        m.add_avp(DiameterAvp::new_utf8(AVP_DESTINATION_REALM, self.destination_realm.as_str()));
        m.add_avp(DiameterAvp::new_utf8(AVP_DESTINATION_HOST, self.destination_host.as_str()));
        m.add_avp(DiameterAvp::new_u32(AVP_AUTH_SESSION_STATE, 1));
        m.add_avp(DiameterAvp::new_utf8(AVP_USER_NAME, self.imsi.as_str()));
        m.add_avp(DiameterAvp::new_u32(AVP_LOCATION_EVENT, self.location_event.as_u32()));
        let ghost base = m@.avps;
        add_opt_location(&mut m, &self.location_estimate);
        add_opt_accuracy(&mut m, self.accuracy_fulfilment);
        add_opt_u32(&mut m, AVP_AGE_OF_LOCATION_ESTIMATE, self.age_of_location_estimate_sec);
        add_opt_u32(&mut m, AVP_LCS_REFERENCE_NUMBER, self.lcs_reference_number);
        add_opt_bytes(&mut m, AVP_ECGI, &self.ecgi);
        assert(base =~= lrr_avps(self@).take(8));
        assert(m@.avps =~= lrr_avps(self@));
        m
    }
}

/// Location-Report-Answer (GMLC to MME/SGSN).
#[derive(Debug, Clone, PartialEq, Eq)]
pub struct LocationReportAnswer {
    pub session_id: String,
    pub result_code: u32,
    pub origin_host: String,
    pub origin_realm: String,
}

impl LocationReportAnswer {
    /// A successful answer.
    pub fn success(session_id: &str, origin_host: &str, origin_realm: &str) -> (r: Self)
        ensures
            r.session_id@ == session_id@,
            r.result_code == DIAMETER_SUCCESS,
            r.origin_host@ == origin_host@,
            r.origin_realm@ == origin_realm@,
    {
        LocationReportAnswer {
            session_id: owned(session_id),
            result_code: DIAMETER_SUCCESS,
            origin_host: owned(origin_host),
            origin_realm: owned(origin_realm),
        }
    }

    /// The answer as a Diameter message (proxiable flag, identifiers 0).
    pub fn to_diameter_message(&self) -> (r: DiameterMessage)
        ensures
            r.header == slg_header(0x40, DIAMETER_CMD_LOCATION_REPORT),
            r@.avps == seq![
                text_avp_of(AVP_SESSION_ID, self.session_id@),
                u32_avp(AVP_RESULT_CODE, self.result_code),
                text_avp_of(AVP_ORIGIN_HOST, self.origin_host@),
                text_avp_of(AVP_ORIGIN_REALM, self.origin_realm@),
            ],
    {
        let mut m = empty_message(0x40, DIAMETER_CMD_LOCATION_REPORT);
        m.add_avp(DiameterAvp::new_utf8(AVP_SESSION_ID, self.session_id.as_str()));
        m.add_avp(DiameterAvp::new_u32(AVP_RESULT_CODE, self.result_code));
        m.add_avp(DiameterAvp::new_utf8(AVP_ORIGIN_HOST, self.origin_host.as_str()));
        m.add_avp(DiameterAvp::new_utf8(AVP_ORIGIN_REALM, self.origin_realm.as_str()));
        assert(m@.avps =~= seq![
            text_avp_of(AVP_SESSION_ID, self.session_id@),
            u32_avp(AVP_RESULT_CODE, self.result_code),
            text_avp_of(AVP_ORIGIN_HOST, self.origin_host@),
            text_avp_of(AVP_ORIGIN_REALM, self.origin_realm@),
        ]);
        m
    }
}

// ---------------------------------------------------------------------------
// GMLC location sessions
// ---------------------------------------------------------------------------

/// The state of a GMLC location session.
#[derive(Debug, Clone, PartialEq, Eq, Structural)]
pub enum LocationSessionState {
    /// A request was sent; no answer yet.
    PendingLocationResponse,
    /// An answer with a location came back.
    LocationReceived,
    /// Deferred or periodic reporting is running.
    DeferredActive { reports_remaining: Option<u32> },
    /// Completed or cancelled.
    Completed,
}

/// A location session of the GMLC.
#[derive(Debug, Clone)]
pub struct GmlcLocationSession {
    pub session_id: String,
    pub imsi: String,
    pub state: LocationSessionState,
    pub location_type: SlgLocationType,
    pub last_location: Option<LocationEstimate>,
    pub location_reports: Vec<LocationReportRequest>,
    pub total_reports_received: usize,
}

/// The GMLC side of SLg: it sends location requests, takes their answers and the
/// reports of deferred sessions.
#[derive(Debug, Clone)]
pub struct GmlcSlgEngine {
    pub gmlc_host: String,
    pub gmlc_realm: String,
    pub sessions: StrTable<GmlcLocationSession>,
    pub next_session_counter: u64,
    pub total_plr_sent: usize,
    pub total_pla_received: usize,
    pub total_lrr_received: usize,
    pub total_lra_sent: usize,
}

/// The session identifier made from the GMLC host and a counter: `host;counter`.
pub open spec fn session_name(host: Seq<char>, n: u64) -> Seq<char> {
    host + ";"@ + dec_chars(n as nat)
}

/// A session that has just been opened, with no location or report yet.
pub open spec fn fresh_session(
    s: GmlcLocationSession,
    sid: Seq<char>,
    imsi: Seq<char>,
    state: LocationSessionState,
    t: SlgLocationType,
) -> bool {
    &&& s.session_id@ == sid
    &&& s.imsi@ == imsi
    &&& s.state == state
    &&& s.location_type == t
    &&& s.last_location is None
    &&& s.location_reports@.len() == 0
    &&& s.total_reports_received == 0
}

/// A request of the GMLC with these identities and none of the optional fields that
/// the engine leaves out.
pub open spec fn gmlc_request(
    r: ProvideLocationRequest,
    sid: Seq<char>,
    imsi: Seq<char>,
    t: SlgLocationType,
    host: Seq<char>,
    realm: Seq<char>,
    dest: Seq<char>,
) -> bool {
    &&& r.session_id@ == sid
    &&& r.imsi@ == imsi
    &&& r.location_type == t
    &&& r.origin_host@ == host
    &&& r.origin_realm@ == realm
    &&& r.destination_realm@ == dest
    &&& r.destination_host is None
    &&& r.msisdn is None
    &&& r.imei is None
    &&& r.lcs_eps_client_name is None
    &&& r.lcs_requestor_name is None
    &&& r.lcs_service_type_id is None
}

/// Whether a session is in deferred reporting.
pub open spec fn deferred_pred() -> spec_fn(GmlcLocationSession) -> bool {
    |s: GmlcLocationSession| s.state is DeferredActive
}

/// The state after an answer with `result` to a session of type `t`: success leaves
/// an immediate session with its location and a deferred one as it was; failure ends it.
pub open spec fn state_after_answer(st: LocationSessionState, t: SlgLocationType, result: u32) -> LocationSessionState {
    if result == DIAMETER_SUCCESS {
        if t == SlgLocationType::CurrentLocation || t == SlgLocationType::CurrentOrLastKnownLocation {
            LocationSessionState::LocationReceived
        } else {
            st
        }
    } else {
        LocationSessionState::Completed
    }
}

/// The state after a report: a counted deferred session counts down (not below zero)
/// and completes at zero; any other state stays.
pub open spec fn state_after_report(st: LocationSessionState) -> LocationSessionState {
    match st {
        LocationSessionState::DeferredActive { reports_remaining: Some(rem) } => {
            let left: u32 = if rem > 0 { (rem - 1) as u32 } else { 0 };
            if left == 0 {
                LocationSessionState::Completed
            } else {
                LocationSessionState::DeferredActive { reports_remaining: Some(left) }
            }
        },
        _ => st,
    }
}

impl GmlcSlgEngine {
    pub fn new(gmlc_host: &str, gmlc_realm: &str) -> (r: Self)
        ensures
            r.sessions.wf(),
            r.gmlc_host@ == gmlc_host@,
            r.gmlc_realm@ == gmlc_realm@,
            r.sessions@ == Map::<Seq<char>, GmlcLocationSession>::empty(),
            r.next_session_counter == 1,
            r.total_plr_sent == 0,
            r.total_pla_received == 0,
            r.total_lrr_received == 0,
            r.total_lra_sent == 0,
    {
        GmlcSlgEngine {
            gmlc_host: owned(gmlc_host),
            gmlc_realm: owned(gmlc_realm),
            sessions: StrTable::new(),
            next_session_counter: 1,
            total_plr_sent: 0,
            total_pla_received: 0,
            total_lrr_received: 0,
            total_lra_sent: 0,
        }
    }

    /// Takes the next session identifier.
    fn next_session_id(&mut self) -> (r: String)
        requires
            old(self).next_session_counter < u64::MAX,
        ensures
            r@ == session_name(old(self).gmlc_host@, old(self).next_session_counter),
            final(self).next_session_counter == old(self).next_session_counter + 1,
            final(self).gmlc_host == old(self).gmlc_host,
            final(self).gmlc_realm == old(self).gmlc_realm,
            final(self).sessions == old(self).sessions,
            final(self).total_plr_sent == old(self).total_plr_sent,
            final(self).total_pla_received == old(self).total_pla_received,
            final(self).total_lrr_received == old(self).total_lrr_received,
            final(self).total_lra_sent == old(self).total_lra_sent,
    {
        let head = concat(self.gmlc_host.as_str(), ";");
        let n = decimal(self.next_session_counter);
        let sid = concat(head.as_str(), n.as_str());
        self.next_session_counter = self.next_session_counter + 1;
        sid
    }

    /// Opens a session in `state` and records a request sent.
    fn open_session(&mut self, sid: &String, imsi: &str, state: LocationSessionState, t: SlgLocationType)
        requires
            old(self).sessions.wf(),
            old(self).total_plr_sent < usize::MAX,
        ensures
            final(self).sessions.wf(),
            final(self).sessions@.dom() == old(self).sessions@.dom().insert(sid@),
            forall|k: Seq<char>| k != sid@ ==> #[trigger] final(self).sessions@.get(k) == old(self).sessions@.get(k),
            fresh_session(final(self).sessions@[sid@], sid@, imsi@, state, t),
            final(self).total_plr_sent == old(self).total_plr_sent + 1,
            final(self).gmlc_host == old(self).gmlc_host,
            final(self).gmlc_realm == old(self).gmlc_realm,
            final(self).next_session_counter == old(self).next_session_counter,
            final(self).total_pla_received == old(self).total_pla_received,
            final(self).total_lrr_received == old(self).total_lrr_received,
            final(self).total_lra_sent == old(self).total_lra_sent,
    {
        self.sessions.insert(
            sid.clone(),
            GmlcLocationSession {
                session_id: sid.clone(),
                imsi: owned(imsi),
                state,
                location_type: t,
                last_location: None,
                location_reports: Vec::new(),
                total_reports_received: 0,
            },
        );
        self.total_plr_sent = self.total_plr_sent + 1;
    }

    /// Starts an immediate location request: a fresh session `host;counter`, pending,
    /// and the request for the current location with the given quality of service.
    pub fn request_immediate_location(&mut self, imsi: &str, destination_realm: &str, qos: LcsQos) -> (r:
        ProvideLocationRequest)
        requires
            old(self).sessions.wf(),
            old(self).next_session_counter < u64::MAX,
            old(self).total_plr_sent < usize::MAX,
        ensures
            ({
                let sid = session_name(old(self).gmlc_host@, old(self).next_session_counter);
                &&& gmlc_request(
                    r,
                    sid,
                    imsi@,
                    SlgLocationType::CurrentLocation,
                    old(self).gmlc_host@,
                    old(self).gmlc_realm@,
                    destination_realm@,
                )
                &&& r.lcs_priority == LcsPriority::NormalPriority
                &&& r.lcs_qos == qos
                &&& r.deferred_location_type is None
                &&& r.lcs_reference_number is None
                &&& r.periodic_ldr is None
                &&& final(self).sessions.wf()
                &&& final(self).sessions@.dom() == old(self).sessions@.dom().insert(sid)
                &&& forall|k: Seq<char>| k != sid ==> #[trigger] final(self).sessions@.get(k) == old(self).sessions@.get(k)
                &&& fresh_session(
                    final(self).sessions@[sid],
                    sid,
                    imsi@,
                    LocationSessionState::PendingLocationResponse,
                    SlgLocationType::CurrentLocation,
                )
            }),
            final(self).next_session_counter == old(self).next_session_counter + 1,
            final(self).total_plr_sent == old(self).total_plr_sent + 1,
            final(self).gmlc_host == old(self).gmlc_host,
            final(self).gmlc_realm == old(self).gmlc_realm,
            final(self).total_pla_received == old(self).total_pla_received,
            final(self).total_lrr_received == old(self).total_lrr_received,
            final(self).total_lra_sent == old(self).total_lra_sent,
    {
        let sid = self.next_session_id();
        let mut plr = ProvideLocationRequest::new(
            sid.as_str(),
            imsi,
            SlgLocationType::CurrentLocation,
            self.gmlc_host.as_str(),
            self.gmlc_realm.as_str(),
            destination_realm,
        );
        plr.lcs_qos = qos;
        self.open_session(&sid, imsi, LocationSessionState::PendingLocationResponse, SlgLocationType::CurrentLocation);
        plr
    }

    /// Starts periodic deferred reporting: a fresh session, deferred with
    /// `reporting_amount` reports to come, and the request to activate it with the
    /// periodic bit, the amount and interval, and the next counter as reference number.
    pub fn request_periodic_location(
        &mut self,
        imsi: &str,
        destination_realm: &str,
        reporting_amount: u32,
        reporting_interval_sec: u32,
    ) -> (r: ProvideLocationRequest)
        requires
            old(self).sessions.wf(),
            old(self).next_session_counter < u64::MAX,
            old(self).total_plr_sent < usize::MAX,
        ensures
            ({
                let sid = session_name(old(self).gmlc_host@, old(self).next_session_counter);
                &&& gmlc_request(
                    r,
                    sid,
                    imsi@,
                    SlgLocationType::ActivateDeferredLocation,
                    old(self).gmlc_host@,
                    old(self).gmlc_realm@,
                    destination_realm@,
                )
                &&& r.lcs_priority == LcsPriority::NormalPriority
                &&& r.lcs_qos == default_qos()
                &&& r.deferred_location_type == Some(DeferredLocationType(DEFERRED_PERIODIC_LDR))
                &&& r.periodic_ldr == Some(PeriodicLdrInformation { reporting_amount, reporting_interval_sec })
                &&& r.lcs_reference_number == Some((old(self).next_session_counter + 1) as u32)
                &&& final(self).sessions.wf()
                &&& final(self).sessions@.dom() == old(self).sessions@.dom().insert(sid)
                &&& forall|k: Seq<char>| k != sid ==> #[trigger] final(self).sessions@.get(k) == old(self).sessions@.get(k)
                &&& fresh_session(
                    final(self).sessions@[sid],
                    sid,
                    imsi@,
                    LocationSessionState::DeferredActive { reports_remaining: Some(reporting_amount) },
                    SlgLocationType::ActivateDeferredLocation,
                )
            }),
            final(self).next_session_counter == old(self).next_session_counter + 1,
            final(self).total_plr_sent == old(self).total_plr_sent + 1,
            final(self).gmlc_host == old(self).gmlc_host,
            final(self).gmlc_realm == old(self).gmlc_realm,
            final(self).total_pla_received == old(self).total_pla_received,
            final(self).total_lrr_received == old(self).total_lrr_received,
            final(self).total_lra_sent == old(self).total_lra_sent,
    {
        let sid = self.next_session_id();
        let mut plr = ProvideLocationRequest::new(
            sid.as_str(),
            imsi,
            SlgLocationType::ActivateDeferredLocation,
            self.gmlc_host.as_str(),
            self.gmlc_realm.as_str(),
            destination_realm,
        );
        plr.deferred_location_type = Some(DeferredLocationType(DEFERRED_PERIODIC_LDR));
        plr.periodic_ldr = Some(PeriodicLdrInformation { reporting_amount, reporting_interval_sec });
        plr.lcs_reference_number = Some(self.next_session_counter as u32);
        self.open_session(
            &sid,
            imsi,
            LocationSessionState::DeferredActive { reports_remaining: Some(reporting_amount) },
            SlgLocationType::ActivateDeferredLocation,
        );
        plr
    }

    /// Starts an emergency location request: a fresh session, pending, and a request of
    /// highest priority for the current or last known location, 50 m accuracy, low delay.
    pub fn request_emergency_location(&mut self, imsi: &str, destination_realm: &str) -> (r: ProvideLocationRequest)
        requires
            old(self).sessions.wf(),
            old(self).next_session_counter < u64::MAX,
            old(self).total_plr_sent < usize::MAX,
        ensures
            ({
                let sid = session_name(old(self).gmlc_host@, old(self).next_session_counter);
                &&& gmlc_request(
                    r,
                    sid,
                    imsi@,
                    SlgLocationType::CurrentOrLastKnownLocation,
                    old(self).gmlc_host@,
                    old(self).gmlc_realm@,
                    destination_realm@,
                )
                &&& r.lcs_priority == LcsPriority::HighestPriority
                &&& r.lcs_qos == default_qos()
                &&& r.deferred_location_type is None
                &&& r.lcs_reference_number is None
                &&& r.periodic_ldr is None
                &&& final(self).sessions.wf()
                &&& final(self).sessions@.dom() == old(self).sessions@.dom().insert(sid)
                &&& forall|k: Seq<char>| k != sid ==> #[trigger] final(self).sessions@.get(k) == old(self).sessions@.get(k)
                &&& fresh_session(
                    final(self).sessions@[sid],
                    sid,
                    imsi@,
                    LocationSessionState::PendingLocationResponse,
                    SlgLocationType::CurrentOrLastKnownLocation,
                )
            }),
            final(self).next_session_counter == old(self).next_session_counter + 1,
            final(self).total_plr_sent == old(self).total_plr_sent + 1,
            final(self).gmlc_host == old(self).gmlc_host,
            final(self).gmlc_realm == old(self).gmlc_realm,
            final(self).total_pla_received == old(self).total_pla_received,
            final(self).total_lrr_received == old(self).total_lrr_received,
            final(self).total_lra_sent == old(self).total_lra_sent,
    {
        let sid = self.next_session_id();
        let mut plr = ProvideLocationRequest::new(
            sid.as_str(),
            imsi,
            SlgLocationType::CurrentOrLastKnownLocation,
            self.gmlc_host.as_str(),
            self.gmlc_realm.as_str(),
            destination_realm,
        );
        plr.lcs_priority = LcsPriority::HighestPriority;
        plr.lcs_qos = LcsQos {
            horizontal_accuracy: Some(50),
            vertical_accuracy: None,
            velocity_requested: false,
            response_time_category: LcsResponseTime::LowDelay,
        };
        self.open_session(
            &sid,
            imsi,
            LocationSessionState::PendingLocationResponse,
            SlgLocationType::CurrentOrLastKnownLocation,
        );
        plr
    }
}

impl GmlcSlgEngine {
    /// Takes a Provide-Location-Answer: counts it, and for a known session keeps the
    /// answer's location on success and moves the state (see `state_after_answer`).
    /// Returns whether the session was known.
    pub fn process_pla(&mut self, pla: &ProvideLocationAnswer) -> (r: bool)
        requires
            old(self).sessions.wf(),
            old(self).total_pla_received < usize::MAX,
        ensures
            final(self).sessions.wf(),
            r == old(self).sessions@.dom().contains(pla.session_id@),
            final(self).total_pla_received == old(self).total_pla_received + 1,
            final(self).sessions@.dom() == old(self).sessions@.dom(),
            forall|k: Seq<char>| k != pla.session_id@ ==> #[trigger] final(self).sessions@.get(k) == old(self).sessions@.get(k),
            r ==> ({
                let o = old(self).sessions@[pla.session_id@];
                let n = final(self).sessions@[pla.session_id@];
                &&& n.session_id == o.session_id
                &&& n.imsi == o.imsi
                &&& n.location_type == o.location_type
                &&& n.location_reports == o.location_reports
                &&& n.total_reports_received == o.total_reports_received
                &&& n.state == state_after_answer(o.state, o.location_type, pla.result_code)
                &&& opt_location(n.last_location) == (if pla.result_code == DIAMETER_SUCCESS {
                    opt_location(pla.location_estimate)
                } else {
                    opt_location(o.last_location)
                })
            }),
            final(self).gmlc_host == old(self).gmlc_host,
            final(self).gmlc_realm == old(self).gmlc_realm,
            final(self).next_session_counter == old(self).next_session_counter,
            final(self).total_plr_sent == old(self).total_plr_sent,
            final(self).total_lrr_received == old(self).total_lrr_received,
            final(self).total_lra_sent == old(self).total_lra_sent,
    {
        self.total_pla_received = self.total_pla_received + 1;
        match self.sessions.remove(pla.session_id.as_str()) {
            Some(mut session) => {
                if pla.result_code == DIAMETER_SUCCESS {
                    session.last_location = copy_opt_location(&pla.location_estimate);
                    if session.location_type == SlgLocationType::CurrentLocation
                        || session.location_type == SlgLocationType::CurrentOrLastKnownLocation {
                        session.state = LocationSessionState::LocationReceived;
                    }
                } else {
                    session.state = LocationSessionState::Completed;
                }
                self.sessions.insert(pla.session_id.clone(), session);
                assert(self.sessions@.dom() =~= old(self).sessions@.dom());
                true
            },
            None => {
                assert(self.sessions@.dom() =~= old(self).sessions@.dom());
                false
            },
        }
    }

    /// Takes a Location-Report-Request: counts it and the answer, and for a known
    /// session keeps the report's location, appends the report and counts the state down
    /// (see `state_after_report`). The answer is success from this GMLC.
    pub fn process_lrr(&mut self, lrr: &LocationReportRequest) -> (r: LocationReportAnswer)
        requires
            old(self).sessions.wf(),
            old(self).total_lrr_received < usize::MAX,
            old(self).total_lra_sent < usize::MAX,
            old(self).sessions@.dom().contains(lrr.session_id@)
                ==> old(self).sessions@[lrr.session_id@].total_reports_received < usize::MAX,
        ensures
            final(self).sessions.wf(),
            r.session_id@ == lrr.session_id@,
            r.result_code == DIAMETER_SUCCESS,
            r.origin_host@ == old(self).gmlc_host@,
            r.origin_realm@ == old(self).gmlc_realm@,
            final(self).total_lrr_received == old(self).total_lrr_received + 1,
            final(self).total_lra_sent == old(self).total_lra_sent + 1,
            final(self).sessions@.dom() == old(self).sessions@.dom(),
            forall|k: Seq<char>| k != lrr.session_id@ ==> #[trigger] final(self).sessions@.get(k) == old(self).sessions@.get(k),
            old(self).sessions@.dom().contains(lrr.session_id@) ==> ({
                let o = old(self).sessions@[lrr.session_id@];
                let n = final(self).sessions@[lrr.session_id@];
                &&& n.session_id == o.session_id
                &&& n.imsi == o.imsi
                &&& n.location_type == o.location_type
                &&& opt_location(n.last_location) == opt_location(lrr.location_estimate)
                &&& n.total_reports_received == o.total_reports_received + 1
                &&& reports_view(n.location_reports@) == reports_view(o.location_reports@).push(lrr@)
                &&& n.state == state_after_report(o.state)
            }),
            final(self).gmlc_host == old(self).gmlc_host,
            final(self).gmlc_realm == old(self).gmlc_realm,
            final(self).next_session_counter == old(self).next_session_counter,
            final(self).total_plr_sent == old(self).total_plr_sent,
            final(self).total_pla_received == old(self).total_pla_received,
    {
        self.total_lrr_received = self.total_lrr_received + 1;
        match self.sessions.remove(lrr.session_id.as_str()) {
            Some(mut session) => {
                let ghost before = session.location_reports@;
                session.last_location = copy_opt_location(&lrr.location_estimate);
                session.total_reports_received = session.total_reports_received + 1;
                session.location_reports.push(lrr.copy());
                assert(reports_view(session.location_reports@) =~= reports_view(before).push(lrr@));
                let next = match session.state {
                    LocationSessionState::DeferredActive { reports_remaining: Some(rem) } => {
                        let left: u32 = if rem > 0 { rem - 1 } else { 0 };
                        if left == 0 {
                            LocationSessionState::Completed
                        } else {
                            LocationSessionState::DeferredActive { reports_remaining: Some(left) }
                        }
                    },
                    other => other,
                };
                session.state = next;
                self.sessions.insert(lrr.session_id.clone(), session);
                assert(self.sessions@.dom() =~= old(self).sessions@.dom());
            },
            None => {
                assert(self.sessions@.dom() =~= old(self).sessions@.dom());
            },
        }
        self.total_lra_sent = self.total_lra_sent + 1;
        LocationReportAnswer::success(lrr.session_id.as_str(), self.gmlc_host.as_str(), self.gmlc_realm.as_str())
    }

    /// The last location of a session, if the session is known and has one.
    pub fn get_last_location(&self, session_id: &str) -> (r: Option<&LocationEstimate>)
        requires
            self.sessions.wf(),
        ensures
            match r {
                Some(l) => self.sessions@.dom().contains(session_id@)
                    && self.sessions@[session_id@].last_location == Some(*l),
                None => !self.sessions@.dom().contains(session_id@)
                    || self.sessions@[session_id@].last_location is None,
            },
    {
        match self.sessions.get(session_id) {
            Some(s) => match &s.last_location {
                Some(l) => Some(l),
                None => None,
            },
            None => None,
        }
    }

    /// The reports received for a session, if the session is known.
    pub fn get_location_history(&self, session_id: &str) -> (r: Option<&[LocationReportRequest]>)
        requires
            self.sessions.wf(),
        ensures
            match r {
                Some(h) => self.sessions@.dom().contains(session_id@)
                    && h@ == self.sessions@[session_id@].location_reports@,
                None => !self.sessions@.dom().contains(session_id@),
            },
    {
        match self.sessions.get(session_id) {
            Some(s) => Some(s.location_reports.as_slice()),
            None => None,
        }
    }

    /// The state of a session, if the session is known.
    pub fn get_session_state(&self, session_id: &str) -> (r: Option<&LocationSessionState>)
        requires
            self.sessions.wf(),
        ensures
            match r {
                Some(st) => self.sessions@.dom().contains(session_id@) && *st == self.sessions@[session_id@].state,
                None => !self.sessions@.dom().contains(session_id@),
            },
    {
        match self.sessions.get(session_id) {
            Some(s) => Some(&s.state),
            None => None,
        }
    }

    /// The number of sessions in deferred reporting.
    pub fn active_deferred_session_count(&self) -> (r: usize)
        requires
            self.sessions.wf(),
        ensures
            r == count_matching(self.sessions@, deferred_pred()),
    {
        let mut n: usize = 0;
        let mut i: usize = 0;
        let ghost ps = self.sessions.pairs();
        while i < self.sessions.len()
            invariant
                ps == self.sessions.pairs(),
                i <= ps.len(),
                n == count_entries(ps.take(i as int), deferred_pred()),
                n <= i,
            decreases ps.len() - i,
        {
            let s = self.sessions.value_at(i);
            proof {
                assert(ps.take(i + 1).drop_last() =~= ps.take(i as int));
            }
            match s.state {
                LocationSessionState::DeferredActive { .. } => {
                    n = n + 1;
                },
                _ => {},
            }
            i = i + 1;
        }
        proof {
            assert(ps.take(i as int) =~= ps);
            self.sessions.lemma_count(deferred_pred());
        }
        n
    }

    /// Cancels deferred reporting: for a known session in deferred reporting, it
    /// completes and a cancel request for its IMSI is sent; otherwise nothing changes.
    pub fn cancel_deferred_location(&mut self, session_id: &str, destination_realm: &str) -> (r: Option<
        ProvideLocationRequest,
    >)
        requires
            old(self).sessions.wf(),
            old(self).total_plr_sent < usize::MAX,
        ensures
            final(self).sessions.wf(),
            (old(self).sessions@.dom().contains(session_id@)
                && old(self).sessions@[session_id@].state is DeferredActive) == (r is Some),
            r is None ==> *final(self) == *old(self),
            r matches Some(plr) ==> ({
                let o = old(self).sessions@[session_id@];
                let n = final(self).sessions@[session_id@];
                &&& gmlc_request(
                    plr,
                    session_id@,
                    o.imsi@,
                    SlgLocationType::CancelDeferredLocation,
                    old(self).gmlc_host@,
                    old(self).gmlc_realm@,
                    destination_realm@,
                )
                &&& plr.lcs_priority == LcsPriority::NormalPriority
                &&& plr.lcs_qos == default_qos()
                &&& plr.deferred_location_type is None
                &&& plr.lcs_reference_number is None
                &&& plr.periodic_ldr is None
                &&& final(self).total_plr_sent == old(self).total_plr_sent + 1
                &&& final(self).sessions@.dom() == old(self).sessions@.dom()
                &&& forall|k: Seq<char>| k != session_id@ ==> #[trigger] final(self).sessions@.get(k) == old(self).sessions@.get(k)
                &&& n == (GmlcLocationSession { state: LocationSessionState::Completed, ..o })
                &&& final(self).gmlc_host == old(self).gmlc_host
                &&& final(self).gmlc_realm == old(self).gmlc_realm
                &&& final(self).next_session_counter == old(self).next_session_counter
                &&& final(self).total_pla_received == old(self).total_pla_received
                &&& final(self).total_lrr_received == old(self).total_lrr_received
                &&& final(self).total_lra_sent == old(self).total_lra_sent
            }),
    {
        let imsi = match self.sessions.get(session_id) {
            Some(s) => match s.state {
                LocationSessionState::DeferredActive { .. } => s.imsi.clone(),
                _ => {
                    return None;
                },
            },
            None => {
                return None;
            },
        };
        let ghost o = old(self).sessions@[session_id@];
        match self.sessions.remove(session_id) {
            Some(mut session) => {
                session.state = LocationSessionState::Completed;
                self.sessions.insert(owned(session_id), session);
            },
            None => {},
        }
        assert(self.sessions@.dom() =~= old(self).sessions@.dom());
        let plr = ProvideLocationRequest::new(
            session_id,
            imsi.as_str(),
            SlgLocationType::CancelDeferredLocation,
            self.gmlc_host.as_str(),
            self.gmlc_realm.as_str(),
            destination_realm,
        );
        self.total_plr_sent = self.total_plr_sent + 1;
        Some(plr)
    }
}

/// The state after `k` reports.
pub open spec fn after_reports(st: LocationSessionState, k: nat) -> LocationSessionState
    decreases k,
{
    if k == 0 {
        st
    } else {
        state_after_report(after_reports(st, (k - 1) as nat))
    }
}

/// Periodic reporting of `n` reports counts down one per report and completes with the
/// `n`-th; a completed session stays completed.
pub proof fn lemma_periodic_completes(n: u32, k: nat)
    requires
        0 < n,
        k <= n,
    ensures
        after_reports(LocationSessionState::DeferredActive { reports_remaining: Some(n) }, k) == (if k < n {
            LocationSessionState::DeferredActive { reports_remaining: Some((n - k) as u32) }
        } else {
            LocationSessionState::Completed
        }),
        state_after_report(LocationSessionState::Completed) == LocationSessionState::Completed,
    decreases k,
{
    if k > 0 {
        lemma_periodic_completes(n, (k - 1) as nat);
    }
}


/// Law: a successful answer gives an immediate session (current location, or current or
/// last known location, as an emergency request asks) its location: it ends in
/// LocationReceived whatever state it was in; a deferred session keeps its state; a failed
/// answer completes any session.
pub proof fn lemma_answer_outcome(st: LocationSessionState, t: SlgLocationType, result: u32)
    ensures
        result == 2001u32 && (t == SlgLocationType::CurrentLocation || t == SlgLocationType::CurrentOrLastKnownLocation)
            ==> state_after_answer(st, t, result) == LocationSessionState::LocationReceived,
        result == 2001u32 && !(t == SlgLocationType::CurrentLocation || t == SlgLocationType::CurrentOrLastKnownLocation)
            ==> state_after_answer(st, t, result) == st,
        result != 2001u32 ==> state_after_answer(st, t, result) == LocationSessionState::Completed,
{
}

} // verus!
