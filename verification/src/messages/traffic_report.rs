use vstd::prelude::*;

use crate::error::Gdl90Error;
use crate::fixed::b0_u32;
use crate::fixed::b1_u32;
use crate::fixed::b2_u32;
use crate::fixed::div_trunc;
use crate::fixed::lemma_be_split;
use crate::fixed::lemma_low_signed_identity;
use crate::fixed::lemma_signed_low_identity;
use crate::fixed::low12_i16;
use crate::fixed::low12_i64;
use crate::fixed::low24_i32;
use crate::fixed::sign12;
use crate::fixed::sign24;
use crate::fixed::sign32;
use crate::fixed::spec_b0;
use crate::fixed::spec_b1;
use crate::fixed::spec_b2;
use crate::fixed::spec_be24;
use crate::fixed::spec_be32;
use crate::fixed::spec_div_trunc;
use crate::fixed::spec_signed;
use vstd::arithmetic::div_mod::lemma_fundamental_div_mod;
use vstd::arithmetic::div_mod::lemma_fundamental_div_mod_converse;
use vstd::arithmetic::div_mod::lemma_fundamental_div_mod_converse_mod;
use vstd::arithmetic::div_mod::lemma_small_mod;
use crate::fixed::lemma_recompose24;

verus! {

/// Traffic alert status, byte 0 high nibble. Total: every code maps to a
/// variant, codes of 2 and above to `Reserved`.
#[derive(Clone, Copy, Debug, PartialEq, Eq, Structural)]
pub enum TrafficAlertStatus {
    NoAlert,
    TrafficAlert,
    Reserved,
}

impl TrafficAlertStatus {
    pub open spec fn spec_from_code(code: u8) -> Self {
        if code == 0 {
            Self::NoAlert
        } else if code == 1 {
            Self::TrafficAlert
        } else {
            Self::Reserved
        }
    }

    pub open spec fn spec_code(self) -> u8 {
        match self {
            Self::NoAlert => 0,
            Self::TrafficAlert => 1,
            Self::Reserved => 2,
        }
    }

    pub fn from_code(code: u8) -> (r: Self)
        ensures
            r == Self::spec_from_code(code),
    {
        match code {
            0 => Self::NoAlert,
            1 => Self::TrafficAlert,
            _ => Self::Reserved,
        }
    }

    pub fn code(self) -> (r: u8)
        ensures
            r == self.spec_code(),
    {
        match self {
            Self::NoAlert => 0,
            Self::TrafficAlert => 1,
            Self::Reserved => 2,
        }
    }
}

/// Address qualifier for the participant address, byte 0 low nibble.
/// Total: codes of 6 and above map to `Reserved`.
#[derive(Clone, Copy, Debug, PartialEq, Eq, Structural)]
pub enum AddressType {
    ADSBIcao,
    ADSBSelfAssigned,
    TISBIcao,
    TISBTrackFileId,
    SurfaceVehicle,
    GroundStationBeacon,
    Reserved,
}

impl AddressType {
    pub open spec fn spec_from_code(code: u8) -> Self {
        if code == 0 {
            Self::ADSBIcao
        } else if code == 1 {
            Self::ADSBSelfAssigned
        } else if code == 2 {
            Self::TISBIcao
        } else if code == 3 {
            Self::TISBTrackFileId
        } else if code == 4 {
            Self::SurfaceVehicle
        } else if code == 5 {
            Self::GroundStationBeacon
        } else {
            Self::Reserved
        }
    }

    pub open spec fn spec_code(self) -> u8 {
        match self {
            Self::ADSBIcao => 0,
            Self::ADSBSelfAssigned => 1,
            Self::TISBIcao => 2,
            Self::TISBTrackFileId => 3,
            Self::SurfaceVehicle => 4,
            Self::GroundStationBeacon => 5,
            Self::Reserved => 6,
        }
    }

    pub fn from_code(code: u8) -> (r: Self)
        ensures
            r == Self::spec_from_code(code),
    {
        match code {
            0 => Self::ADSBIcao,
            1 => Self::ADSBSelfAssigned,
            2 => Self::TISBIcao,
            3 => Self::TISBTrackFileId,
            4 => Self::SurfaceVehicle,
            5 => Self::GroundStationBeacon,
            _ => Self::Reserved,
        }
    }

    pub fn code(self) -> (r: u8)
        ensures
            r == self.spec_code(),
    {
        match self {
            Self::ADSBIcao => 0,
            Self::ADSBSelfAssigned => 1,
            Self::TISBIcao => 2,
            Self::TISBTrackFileId => 3,
            Self::SurfaceVehicle => 4,
            Self::GroundStationBeacon => 5,
            Self::Reserved => 6,
        }
    }
}

/// What the track/heading byte reports, misc-indicator bits 0-1.
#[derive(Clone, Copy, Debug, PartialEq, Eq, Structural)]
pub enum TrackHeading {
    Invalid,
    TrueTrackAngle,
    HeadingMagnetic,
    HeadingTrue,
}

impl TrackHeading {
    pub open spec fn spec_from_code(code: u8) -> Self {
        if code == 1 {
            Self::TrueTrackAngle
        } else if code == 2 {
            Self::HeadingMagnetic
        } else if code == 3 {
            Self::HeadingTrue
        } else {
            Self::Invalid
        }
    }

    pub open spec fn spec_code(self) -> u8 {
        match self {
            Self::Invalid => 0,
            Self::TrueTrackAngle => 1,
            Self::HeadingMagnetic => 2,
            Self::HeadingTrue => 3,
        }
    }

    pub fn from_code(code: u8) -> (r: Self)
        ensures
            r == Self::spec_from_code(code),
    {
        match code {
            1 => Self::TrueTrackAngle,
            2 => Self::HeadingMagnetic,
            3 => Self::HeadingTrue,
            _ => Self::Invalid,
        }
    }

    pub fn code(self) -> (r: u8)
        ensures
            r == self.spec_code(),
    {
        match self {
            Self::Invalid => 0,
            Self::TrueTrackAngle => 1,
            Self::HeadingMagnetic => 2,
            Self::HeadingTrue => 3,
        }
    }
}

/// Whether the report is fresh or extrapolated, misc-indicator bit 2.
#[derive(Clone, Copy, Debug, PartialEq, Eq, Structural)]
pub enum ReportType {
    Updated,
    Extrapolated,
}

impl ReportType {
    pub open spec fn spec_from_code(code: u8) -> Self {
        if code == 0 {
            Self::Updated
        } else {
            Self::Extrapolated
        }
    }

    pub open spec fn spec_code(self) -> u8 {
        match self {
            Self::Updated => 0,
            Self::Extrapolated => 1,
        }
    }

    pub fn from_code(code: u8) -> (r: Self)
        ensures
            r == Self::spec_from_code(code),
    {
        match code {
            0 => Self::Updated,
            _ => Self::Extrapolated,
        }
    }

    pub fn code(self) -> (r: u8)
        ensures
            r == self.spec_code(),
    {
        match self {
            Self::Updated => 0,
            Self::Extrapolated => 1,
        }
    }
}

/// On-ground/airborne state, misc-indicator bit 3.
#[derive(Clone, Copy, Debug, PartialEq, Eq, Structural)]
pub enum AirGround {
    OnGround,
    Airborne,
}

impl AirGround {
    pub open spec fn spec_from_code(code: u8) -> Self {
        if code == 0 {
            Self::OnGround
        } else {
            Self::Airborne
        }
    }

    pub open spec fn spec_code(self) -> u8 {
        match self {
            Self::OnGround => 0,
            Self::Airborne => 1,
        }
    }

    pub fn from_code(code: u8) -> (r: Self)
        ensures
            r == Self::spec_from_code(code),
    {
        match code {
            0 => Self::OnGround,
            _ => Self::Airborne,
        }
    }

    pub fn code(self) -> (r: u8)
        ensures
            r == self.spec_code(),
    {
        match self {
            Self::OnGround => 0,
            Self::Airborne => 1,
        }
    }
}

/// The three flag fields packed into the low nibble of payload byte 11.
/// Each flag is shifted down to its own 0/1 (or 0-3) code before matching.
#[derive(Clone, Copy, Debug, PartialEq, Eq, Structural)]
pub struct MiscIndicators {
    pub tt: TrackHeading,
    pub report_type: ReportType,
    pub ground_state: AirGround,
}

impl MiscIndicators {
    /// The fields read out of a misc-indicator byte: bits 0-1 give the
    /// track/heading kind, bit 2 the report type, bit 3 the air/ground
    /// state; higher bits are ignored.
    pub open spec fn spec_from_byte(b: u8) -> Self {
        MiscIndicators {
            tt: TrackHeading::spec_from_code((b % 4) as u8),
            report_type: ReportType::spec_from_code(((b / 4) % 2) as u8),
            ground_state: AirGround::spec_from_code(((b / 8) % 2) as u8),
        }
    }

    /// The low nibble these fields pack into.
    pub open spec fn spec_nibble(self) -> u8 {
        (self.tt.spec_code() + self.report_type.spec_code() * 4 + self.ground_state.spec_code()
            * 8) as u8
    }

    pub fn from_byte(b: u8) -> (r: Self)
        ensures
            r == Self::spec_from_byte(b),
    {
        MiscIndicators {
            tt: TrackHeading::from_code(b % 4),
            report_type: ReportType::from_code((b / 4) % 2),
            ground_state: AirGround::from_code((b / 8) % 2),
        }
    }

    pub fn nibble(self) -> (r: u8)
        ensures
            r == self.spec_nibble(),
    {
        self.tt.code() + self.report_type.code() * 4 + self.ground_state.code() * 8
    }
}

/// Navigation integrity category, byte 12 high nibble. Codes 12-15 map to
/// `Unknown`; `Unused` never arises from decoding.
#[derive(Clone, Copy, Debug, PartialEq, Eq, Structural)]
#[allow(non_camel_case_types)]
pub enum NIC {
    Unknown,
    NM20,
    NM8,
    NM4,
    NM2,
    NM1,
    NM0_6,
    NM0_2,
    NM0_1,
    HPL_75M_VPL_112M,
    HPL_25M_VPL_37_5M,
    HPL_7_5M_VPL_11M,
    Unused,
}

impl NIC {
    pub open spec fn spec_from_code(code: u8) -> Self {
        if code == 1 {
            Self::NM20
        } else if code == 2 {
            Self::NM8
        } else if code == 3 {
            Self::NM4
        } else if code == 4 {
            Self::NM2
        } else if code == 5 {
            Self::NM1
        } else if code == 6 {
            Self::NM0_6
        } else if code == 7 {
            Self::NM0_2
        } else if code == 8 {
            Self::NM0_1
        } else if code == 9 {
            Self::HPL_75M_VPL_112M
        } else if code == 10 {
            Self::HPL_25M_VPL_37_5M
        } else if code == 11 {
            Self::HPL_7_5M_VPL_11M
        } else {
            Self::Unknown
        }
    }

    pub open spec fn spec_code(self) -> u8 {
        match self {
            Self::Unknown => 0,
            Self::NM20 => 1,
            Self::NM8 => 2,
            Self::NM4 => 3,
            Self::NM2 => 4,
            Self::NM1 => 5,
            Self::NM0_6 => 6,
            Self::NM0_2 => 7,
            Self::NM0_1 => 8,
            Self::HPL_75M_VPL_112M => 9,
            Self::HPL_25M_VPL_37_5M => 10,
            Self::HPL_7_5M_VPL_11M => 11,
            Self::Unused => 12,
        }
    }

    pub fn from_code(code: u8) -> (r: Self)
        ensures
            r == Self::spec_from_code(code),
    {
        match code {
            1 => Self::NM20,
            2 => Self::NM8,
            3 => Self::NM4,
            4 => Self::NM2,
            5 => Self::NM1,
            6 => Self::NM0_6,
            7 => Self::NM0_2,
            8 => Self::NM0_1,
            9 => Self::HPL_75M_VPL_112M,
            10 => Self::HPL_25M_VPL_37_5M,
            11 => Self::HPL_7_5M_VPL_11M,
            _ => Self::Unknown,
        }
    }

    pub fn code(self) -> (r: u8)
        ensures
            r == self.spec_code(),
    {
        match self {
            Self::Unknown => 0,
            Self::NM20 => 1,
            Self::NM8 => 2,
            Self::NM4 => 3,
            Self::NM2 => 4,
            Self::NM1 => 5,
            Self::NM0_6 => 6,
            Self::NM0_2 => 7,
            Self::NM0_1 => 8,
            Self::HPL_75M_VPL_112M => 9,
            Self::HPL_25M_VPL_37_5M => 10,
            Self::HPL_7_5M_VPL_11M => 11,
            Self::Unused => 12,
        }
    }
}

/// Navigation accuracy category for position, byte 12 low nibble. Codes
/// 12-15 map to `Unknown`; `Unused` never arises from decoding.
#[derive(Clone, Copy, Debug, PartialEq, Eq, Structural)]
#[allow(non_camel_case_types)]
pub enum NACp {
    Unknown,
    NM10,
    NM4,
    NM2,
    NM1,
    NM0_5,
    NM0_3,
    NM0_1,
    NM0_05,
    HFOM_30M_VFOM_45M,
    HFOM_10M_VFOM_15M,
    HFOM_3M_VFOM_4M,
    Unused,
}

impl NACp {
    pub open spec fn spec_from_code(code: u8) -> Self {
        if code == 1 {
            Self::NM10
        } else if code == 2 {
            Self::NM4
        } else if code == 3 {
            Self::NM2
        } else if code == 4 {
            Self::NM1
        } else if code == 5 {
            Self::NM0_5
        } else if code == 6 {
            Self::NM0_3
        } else if code == 7 {
            Self::NM0_1
        } else if code == 8 {
            Self::NM0_05
        } else if code == 9 {
            Self::HFOM_30M_VFOM_45M
        } else if code == 10 {
            Self::HFOM_10M_VFOM_15M
        } else if code == 11 {
            Self::HFOM_3M_VFOM_4M
        } else {
            Self::Unknown
        }
    }

    pub open spec fn spec_code(self) -> u8 {
        match self {
            Self::Unknown => 0,
            Self::NM10 => 1,
            Self::NM4 => 2,
            Self::NM2 => 3,
            Self::NM1 => 4,
            Self::NM0_5 => 5,
            Self::NM0_3 => 6,
            Self::NM0_1 => 7,
            Self::NM0_05 => 8,
            Self::HFOM_30M_VFOM_45M => 9,
            Self::HFOM_10M_VFOM_15M => 10,
            Self::HFOM_3M_VFOM_4M => 11,
            Self::Unused => 12,
        }
    }

    pub fn from_code(code: u8) -> (r: Self)
        ensures
            r == Self::spec_from_code(code),
    {
        match code {
            1 => Self::NM10,
            2 => Self::NM4,
            3 => Self::NM2,
            4 => Self::NM1,
            5 => Self::NM0_5,
            6 => Self::NM0_3,
            7 => Self::NM0_1,
            8 => Self::NM0_05,
            9 => Self::HFOM_30M_VFOM_45M,
            10 => Self::HFOM_10M_VFOM_15M,
            11 => Self::HFOM_3M_VFOM_4M,
            _ => Self::Unknown,
        }
    }

    pub fn code(self) -> (r: u8)
        ensures
            r == self.spec_code(),
    {
        match self {
            Self::Unknown => 0,
            Self::NM10 => 1,
            Self::NM4 => 2,
            Self::NM2 => 3,
            Self::NM1 => 4,
            Self::NM0_5 => 5,
            Self::NM0_3 => 6,
            Self::NM0_1 => 7,
            Self::NM0_05 => 8,
            Self::HFOM_30M_VFOM_45M => 9,
            Self::HFOM_10M_VFOM_15M => 10,
            Self::HFOM_3M_VFOM_4M => 11,
            Self::Unused => 12,
        }
    }
}

/// Emitter category, byte 17. Twenty named codes; every unnamed code maps
/// to `NoInformation`.
#[derive(Clone, Copy, Debug, PartialEq, Eq, Structural)]
pub enum EmitterCategory {
    NoInformation,
    Light,
    Small,
    Large,
    HighVortexLarge,
    HeavyIcao,
    HighlyManeuverable,
    Rotorcraft,
    Glider,
    LighterThanAir,
    Parachutist,
    Ultralight,
    UnmannedAerialVehicle,
    SpaceOrTransatmosphericVehicle,
    SurfaceEmergencyVehicle,
    SurfaceServiceVehicle,
    PointObstacle,
}

impl EmitterCategory {
    pub open spec fn spec_from_code(code: u8) -> Self {
        if code == 1 {
            Self::Light
        } else if code == 2 {
            Self::Small
        } else if code == 3 {
            Self::Large
        } else if code == 4 {
            Self::HighVortexLarge
        } else if code == 5 {
            Self::HeavyIcao
        } else if code == 6 {
            Self::HighlyManeuverable
        } else if code == 7 {
            Self::Rotorcraft
        } else if code == 9 {
            Self::Glider
        } else if code == 10 {
            Self::LighterThanAir
        } else if code == 11 {
            Self::Parachutist
        } else if code == 12 {
            Self::Ultralight
        } else if code == 14 {
            Self::UnmannedAerialVehicle
        } else if code == 15 {
            Self::SpaceOrTransatmosphericVehicle
        } else if code == 17 {
            Self::SurfaceEmergencyVehicle
        } else if code == 18 {
            Self::SurfaceServiceVehicle
        } else if code == 19 {
            Self::PointObstacle
        } else {
            Self::NoInformation
        }
    }

    pub open spec fn spec_code(self) -> u8 {
        match self {
            Self::NoInformation => 0,
            Self::Light => 1,
            Self::Small => 2,
            Self::Large => 3,
            Self::HighVortexLarge => 4,
            Self::HeavyIcao => 5,
            Self::HighlyManeuverable => 6,
            Self::Rotorcraft => 7,
            Self::Glider => 9,
            Self::LighterThanAir => 10,
            Self::Parachutist => 11,
            Self::Ultralight => 12,
            Self::UnmannedAerialVehicle => 14,
            Self::SpaceOrTransatmosphericVehicle => 15,
            Self::SurfaceEmergencyVehicle => 17,
            Self::SurfaceServiceVehicle => 18,
            Self::PointObstacle => 19,
        }
    }

    pub fn from_code(code: u8) -> (r: Self)
        ensures
            r == Self::spec_from_code(code),
    {
        match code {
            1 => Self::Light,
            2 => Self::Small,
            3 => Self::Large,
            4 => Self::HighVortexLarge,
            5 => Self::HeavyIcao,
            6 => Self::HighlyManeuverable,
            7 => Self::Rotorcraft,
            9 => Self::Glider,
            10 => Self::LighterThanAir,
            11 => Self::Parachutist,
            12 => Self::Ultralight,
            14 => Self::UnmannedAerialVehicle,
            15 => Self::SpaceOrTransatmosphericVehicle,
            17 => Self::SurfaceEmergencyVehicle,
            18 => Self::SurfaceServiceVehicle,
            19 => Self::PointObstacle,
            _ => Self::NoInformation,
        }
    }

    pub fn code(self) -> (r: u8)
        ensures
            r == self.spec_code(),
    {
        match self {
            Self::NoInformation => 0,
            Self::Light => 1,
            Self::Small => 2,
            Self::Large => 3,
            Self::HighVortexLarge => 4,
            Self::HeavyIcao => 5,
            Self::HighlyManeuverable => 6,
            Self::Rotorcraft => 7,
            Self::Glider => 9,
            Self::LighterThanAir => 10,
            Self::Parachutist => 11,
            Self::Ultralight => 12,
            Self::UnmannedAerialVehicle => 14,
            Self::SpaceOrTransatmosphericVehicle => 15,
            Self::SurfaceEmergencyVehicle => 17,
            Self::SurfaceServiceVehicle => 18,
            Self::PointObstacle => 19,
        }
    }
}

/// Emergency/priority code, byte 26 high nibble. Codes 0-6 are named,
/// everything above maps to `Reserved`.
#[derive(Clone, Copy, Debug, PartialEq, Eq, Structural)]
pub enum EmergencyPriorityCode {
    NoEmergency,
    GeneralEmergency,
    MedicalEmergency,
    MinimumFuel,
    NoCommunication,
    UnlawfulInterference,
    DownedAircraft,
    Reserved,
}

impl EmergencyPriorityCode {
    pub open spec fn spec_from_code(code: u8) -> Self {
        if code == 0 {
            Self::NoEmergency
        } else if code == 1 {
            Self::GeneralEmergency
        } else if code == 2 {
            Self::MedicalEmergency
        } else if code == 3 {
            Self::MinimumFuel
        } else if code == 4 {
            Self::NoCommunication
        } else if code == 5 {
            Self::UnlawfulInterference
        } else if code == 6 {
            Self::DownedAircraft
        } else {
            Self::Reserved
        }
    }

    pub open spec fn spec_code(self) -> u8 {
        match self {
            Self::NoEmergency => 0,
            Self::GeneralEmergency => 1,
            Self::MedicalEmergency => 2,
            Self::MinimumFuel => 3,
            Self::NoCommunication => 4,
            Self::UnlawfulInterference => 5,
            Self::DownedAircraft => 6,
            Self::Reserved => 7,
        }
    }

    pub fn from_code(code: u8) -> (r: Self)
        ensures
            r == Self::spec_from_code(code),
    {
        match code {
            0 => Self::NoEmergency,
            1 => Self::GeneralEmergency,
            2 => Self::MedicalEmergency,
            3 => Self::MinimumFuel,
            4 => Self::NoCommunication,
            5 => Self::UnlawfulInterference,
            6 => Self::DownedAircraft,
            _ => Self::Reserved,
        }
    }

    pub fn code(self) -> (r: u8)
        ensures
            r == self.spec_code(),
    {
        match self {
            Self::NoEmergency => 0,
            Self::GeneralEmergency => 1,
            Self::MedicalEmergency => 2,
            Self::MinimumFuel => 3,
            Self::NoCommunication => 4,
            Self::UnlawfulInterference => 5,
            Self::DownedAircraft => 6,
            Self::Reserved => 7,
        }
    }
}

/// The bytes that call-sign trimming removes from either end: the
/// whitespace characters of the Latin-1 range.
pub open spec fn spec_is_ws(b: u8) -> bool {
    b == 0x09 || b == 0x0A || b == 0x0B || b == 0x0C || b == 0x0D || b == 0x20 || b == 0x85 || b
        == 0xA0
}

/// `s` with its leading whitespace removed.
pub open spec fn spec_drop_leading_ws(s: Seq<u8>) -> Seq<u8>
    decreases s.len(),
{
    if s.len() > 0 && spec_is_ws(s[0]) {
        spec_drop_leading_ws(s.drop_first())
    } else {
        s
    }
}

/// `s` with its trailing whitespace removed.
pub open spec fn spec_drop_trailing_ws(s: Seq<u8>) -> Seq<u8>
    decreases s.len(),
{
    if s.len() > 0 && spec_is_ws(s.last()) {
        spec_drop_trailing_ws(s.drop_last())
    } else {
        s
    }
}

/// `s` with surrounding whitespace removed from both ends.
pub open spec fn spec_trim_ws(s: Seq<u8>) -> Seq<u8> {
    spec_drop_trailing_ws(spec_drop_leading_ws(s))
}

/// `cs` truncated or right-padded with spaces to exactly eight bytes: the
/// wire form of a call sign.
pub open spec fn spec_pad8(cs: Seq<u8>) -> Seq<u8> {
    Seq::new(
        8,
        |i: int|
            if i < cs.len() {
                cs[i]
            } else {
                0x20u8
            },
    )
}

/// Dropping leading whitespace is the same as skipping past the first `k`
/// elements when exactly those are whitespace.
proof fn lemma_drop_leading_ws_skip(s: Seq<u8>, k: int)
    requires
        0 <= k <= s.len(),
        forall|j: int| 0 <= j < k ==> spec_is_ws(s[j]),
        k < s.len() ==> !spec_is_ws(s[k]),
    ensures
        spec_drop_leading_ws(s) == s.skip(k),
    decreases k,
{
    if k == 0 {
        assert(s.skip(0) =~= s);
    } else {
        assert(spec_is_ws(s[0]));
        lemma_drop_leading_ws_skip(s.drop_first(), k - 1);
        assert(s.drop_first().skip(k - 1) =~= s.skip(k));
    }
}

/// Dropping trailing whitespace is the same as taking the first `k`
/// elements when exactly the elements beyond are whitespace.
proof fn lemma_drop_trailing_ws_take(s: Seq<u8>, k: int)
    requires
        0 <= k <= s.len(),
        forall|j: int| k <= j < s.len() ==> spec_is_ws(s[j]),
        k > 0 ==> !spec_is_ws(s[k - 1]),
    ensures
        spec_drop_trailing_ws(s) == s.take(k),
    decreases s.len() - k,
{
    if k == s.len() {
        if s.len() > 0 {
            assert(!spec_is_ws(s.last()));
        }
        assert(s.take(k) =~= s);
    } else {
        assert(spec_is_ws(s.last()));
        lemma_drop_trailing_ws_take(s.drop_last(), k);
        assert(s.drop_last().take(k) =~= s.take(k));
    }
}

/// True exactly when `b` is a byte that call-sign trimming removes.
pub fn is_ws(b: u8) -> (r: bool)
    ensures
        r == spec_is_ws(b),
{
    b == 0x09 || b == 0x0A || b == 0x0B || b == 0x0C || b == 0x0D || b == 0x20 || b == 0x85 || b
        == 0xA0
}

/// Copies `buf` with surrounding whitespace removed from both ends.
pub fn trim_ws(buf: &[u8]) -> (r: Vec<u8>)
    ensures
        r@ == spec_trim_ws(buf@),
{
    let mut start: usize = 0;
    while start < buf.len() && is_ws(buf[start])
        invariant
            start <= buf@.len(),
            forall|j: int| 0 <= j < start ==> spec_is_ws(buf@[j]),
        decreases buf@.len() - start,
    {
        start += 1;
    }
    let mut end: usize = buf.len();
    while end > start && is_ws(buf[end - 1])
        invariant
            start <= end <= buf@.len(),
            forall|j: int| end <= j < buf@.len() ==> spec_is_ws(buf@[j]),
        decreases end,
    {
        end -= 1;
    }
    proof {
        lemma_drop_leading_ws_skip(buf@, start as int);
        lemma_drop_trailing_ws_take(buf@.skip(start as int), end - start);
        assert(buf@.skip(start as int).take(end - start) =~= buf@.subrange(
            start as int,
            end as int,
        ));
    }
    let mut out: Vec<u8> = Vec::new();
    let mut i: usize = start;
    proof {
        assert(out@ =~= buf@.subrange(start as int, start as int));
    }
    while i < end
        invariant
            start <= i <= end <= buf@.len(),
            out@ == buf@.subrange(start as int, i as int),
        decreases end - i,
    {
        out.push(buf[i]);
        proof {
            assert(buf@.subrange(start as int, i + 1) =~= buf@.subrange(start as int, i as int).push(
                buf@[i as int],
            ));
        }
        i += 1;
    }
    out
}

/// The mathematical value of a Traffic/Ownship Report: what `TrafficReport`
/// holds, with the call sign as a byte sequence.
pub struct TrafficReportView {
    pub traffic_alert_status: TrafficAlertStatus,
    pub address_type: AddressType,
    pub participant_address: u32,
    pub latitude_raw: i32,
    pub longitude_raw: i32,
    pub pressure_altitude_ft: i32,
    pub misc_indicators: MiscIndicators,
    pub nic: NIC,
    pub nacp: NACp,
    pub horizontal_velocity_kt: u16,
    pub vertical_velocity_raw: i16,
    pub track_heading_raw: u8,
    pub emitter_category: EmitterCategory,
    pub call_sign: Seq<u8>,
    pub emergy_priority_code: EmergencyPriorityCode,
}

/// A Traffic or Ownship Report: the 27-byte state-vector payload shared by
/// the two message types.
///
/// Angular and positional fields hold the wire's fixed-point counts as
/// plain integers: latitude and longitude are 24-bit signed counts of
/// 180/2^23 degrees, the vertical velocity is a 12-bit signed count of 64
/// feet per minute, and the track/heading is the 256-count circular unit
/// (360/256 degrees per count). The pressure altitude is in feet, the
/// horizontal velocity in knots.
#[derive(Clone, Debug, PartialEq)]
pub struct TrafficReport {
    pub traffic_alert_status: TrafficAlertStatus,
    pub address_type: AddressType,
    /// 24-bit ICAO participant address.
    pub participant_address: u32,
    /// Latitude in counts of 180/2^23 degrees.
    pub latitude_raw: i32,
    /// Longitude in counts of 180/2^23 degrees.
    pub longitude_raw: i32,
    /// Pressure altitude in feet (25-foot wire resolution, offset -1000).
    pub pressure_altitude_ft: i32,
    pub misc_indicators: MiscIndicators,
    pub nic: NIC,
    pub nacp: NACp,
    /// Horizontal velocity in knots (12-bit wire field).
    pub horizontal_velocity_kt: u16,
    /// Vertical velocity in signed counts of 64 feet per minute.
    pub vertical_velocity_raw: i16,
    /// Track or heading in counts of 360/256 degrees.
    pub track_heading_raw: u8,
    pub emitter_category: EmitterCategory,
    /// Call sign, trimmed of surrounding whitespace on decode.
    pub call_sign: Vec<u8>,
    pub emergy_priority_code: EmergencyPriorityCode,
}

impl View for TrafficReport {
    type V = TrafficReportView;

    open spec fn view(&self) -> TrafficReportView {
        TrafficReportView {
            traffic_alert_status: self.traffic_alert_status,
            address_type: self.address_type,
            participant_address: self.participant_address,
            latitude_raw: self.latitude_raw,
            longitude_raw: self.longitude_raw,
            pressure_altitude_ft: self.pressure_altitude_ft,
            misc_indicators: self.misc_indicators,
            nic: self.nic,
            nacp: self.nacp,
            horizontal_velocity_kt: self.horizontal_velocity_kt,
            vertical_velocity_raw: self.vertical_velocity_raw,
            track_heading_raw: self.track_heading_raw,
            emitter_category: self.emitter_category,
            call_sign: self.call_sign@,
            emergy_priority_code: self.emergy_priority_code,
        }
    }
}

/// The fields read out of a (at least) 27-byte Traffic Report payload,
/// exactly as the wire packs them.
pub open spec fn spec_tr_fields(p: Seq<u8>) -> TrafficReportView {
    TrafficReportView {
        traffic_alert_status: TrafficAlertStatus::spec_from_code(p[0] / 16),
        address_type: AddressType::spec_from_code(p[0] % 16),
        participant_address: spec_be24(p[1], p[2], p[3]) as u32,
        latitude_raw: spec_signed(spec_be24(p[4], p[5], p[6]), 0x1000000) as i32,
        longitude_raw: spec_div_trunc(
            spec_signed(spec_be32(p[7], p[8], p[9], p[10]), 0x1_0000_0000),
            256,
        ) as i32,
        pressure_altitude_ft: (spec_signed(p[10] * 16 + p[11] / 16, 0x1000) * 25 - 1000) as i32,
        misc_indicators: MiscIndicators::spec_from_byte(p[11]),
        nic: NIC::spec_from_code(p[12] / 16),
        nacp: NACp::spec_from_code(p[12] % 16),
        horizontal_velocity_kt: (p[13] * 16 + p[14] / 16) as u16,
        vertical_velocity_raw: spec_signed((p[14] % 16) * 256 + p[15], 0x1000) as i16,
        track_heading_raw: p[16],
        emitter_category: EmitterCategory::spec_from_code(p[17]),
        call_sign: spec_trim_ws(p.subrange(18, 26)),
        emergy_priority_code: EmergencyPriorityCode::spec_from_code(p[26] / 16),
    }
}

/// What decoding a Traffic Report payload yields: a buffer shorter than 27
/// bytes is rejected, anything else decodes (extra bytes are ignored).
pub open spec fn spec_tr_decode(p: Seq<u8>) -> Result<TrafficReportView, Gdl90Error> {
    if p.len() < 27 {
        Err(Gdl90Error::InvalidLength { expected: 27, actual: p.len() as usize })
    } else {
        Ok(spec_tr_fields(p))
    }
}

/// A decode result abstracted to the view level.
pub open spec fn spec_tr_result(r: Result<TrafficReport, Gdl90Error>) -> Result<
    TrafficReportView,
    Gdl90Error,
> {
    match r {
        Ok(t) => Ok(t@),
        Err(e) => Err(e),
    }
}

/// The 27 bytes that a Traffic Report packs into: out-of-range numeric
/// values silently truncate to their fixed-point wire width, the call sign
/// is truncated or space-padded to eight bytes, and no validation is
/// performed.
pub open spec fn spec_tr_to_bytes(v: TrafficReportView) -> Seq<u8> {
    let addr = (v.participant_address as int) % 0x1000000;
    let lat = (v.latitude_raw as int) % 0x1000000;
    let lon = (v.longitude_raw as int) % 0x1000000;
    let alt16 = (spec_div_trunc(v.pressure_altitude_ft + 1000, 25) % 0x1000) * 16
        + v.misc_indicators.spec_nibble();
    let hvv = ((v.horizontal_velocity_kt as int) % 0x1000) * 0x1000 + (
    v.vertical_velocity_raw as int) % 0x1000;
    seq![
        (v.traffic_alert_status.spec_code() * 16 + v.address_type.spec_code()) as u8,
        spec_b2(addr),
        spec_b1(addr),
        spec_b0(addr),
        spec_b2(lat),
        spec_b1(lat),
        spec_b0(lat),
        spec_b2(lon),
        spec_b1(lon),
        spec_b0(lon),
        spec_b1(alt16),
        spec_b0(alt16),
        (v.nic.spec_code() * 16 + v.nacp.spec_code()) as u8,
        spec_b2(hvv),
        spec_b1(hvv),
        spec_b0(hvv),
        v.track_heading_raw,
        v.emitter_category.spec_code(),
    ] + spec_pad8(v.call_sign) + seq![(v.emergy_priority_code.spec_code() * 16) as u8]
}

/// Appends the eight-byte wire form of a call sign: truncated to eight
/// bytes, or right-padded with spaces.
fn push_padded_call_sign(out: &mut Vec<u8>, cs: &[u8])
    ensures
        final(out)@ == old(out)@ + spec_pad8(cs@),
{
    let mut i: usize = 0;
    proof {
        assert(out@ =~= old(out)@ + spec_pad8(cs@).take(0));
    }
    while i < 8
        invariant
            i <= 8,
            out@ == old(out)@ + spec_pad8(cs@).take(i as int),
        decreases 8 - i,
    {
        if i < cs.len() {
            out.push(cs[i]);
        } else {
            out.push(0x20);
        }
        proof {
            assert(out@ =~= old(out)@ + spec_pad8(cs@).take(i + 1));
        }
        i += 1;
    }
    proof {
        assert(spec_pad8(cs@).take(8) =~= spec_pad8(cs@));
    }
}

impl TrafficReport {
    /// Decodes the 27-byte state-vector payload. The buffer must not
    /// contain the flag, message ID or CRC bytes and must already be
    /// unescaped; bytes beyond the 27th are ignored.
    pub fn from_bytes(buf: &[u8]) -> (r: Result<Self, Gdl90Error>)
        ensures
            spec_tr_result(r) == spec_tr_decode(buf@),
    {
        if buf.len() < 27 {
            return Err(Gdl90Error::InvalidLength { expected: 27, actual: buf.len() });
        }
        let traffic_alert_status = TrafficAlertStatus::from_code(buf[0] / 16);
        let address_type = AddressType::from_code(buf[0] % 16);
        let participant_address: u32 = (buf[1] as u32) * 0x10000 + (buf[2] as u32) * 0x100 + (
        buf[3] as u32);
        let lat24: u32 = (buf[4] as u32) * 0x10000 + (buf[5] as u32) * 0x100 + (buf[6] as u32);
        let latitude_raw: i32 = sign24(lat24);
        let lon32: u32 = (buf[7] as u32) * 0x1000000 + (buf[8] as u32) * 0x10000 + (buf[9] as u32)
            * 0x100 + (buf[10] as u32);
        let lon_q: i64 = div_trunc(sign32(lon32), 256);
        proof {
            lemma_fundamental_div_mod(spec_signed(lon32 as int, 0x1_0000_0000), 256);
            lemma_fundamental_div_mod(-spec_signed(lon32 as int, 0x1_0000_0000), 256);
        }
        let longitude_raw: i32 = lon_q as i32;
        let alt12: u16 = (buf[10] as u16) * 16 + (buf[11] as u16) / 16;
        let pressure_altitude_ft: i32 = (sign12(alt12) as i32) * 25 - 1000;
        let misc_indicators = MiscIndicators::from_byte(buf[11]);
        let nic = NIC::from_code(buf[12] / 16);
        let nacp = NACp::from_code(buf[12] % 16);
        let horizontal_velocity_kt: u16 = (buf[13] as u16) * 16 + (buf[14] as u16) / 16;
        let vv12: u16 = ((buf[14] % 16) as u16) * 256 + (buf[15] as u16);
        let vertical_velocity_raw: i16 = sign12(vv12);
        let track_heading_raw = buf[16];
        let emitter_category = EmitterCategory::from_code(buf[17]);
        let call_sign = trim_ws(vstd::slice::slice_subrange(buf, 18, 26));
        let emergy_priority_code = EmergencyPriorityCode::from_code(buf[26] / 16);
        Ok(
            TrafficReport {
                traffic_alert_status,
                address_type,
                participant_address,
                latitude_raw,
                longitude_raw,
                pressure_altitude_ft,
                misc_indicators,
                nic,
                nacp,
                horizontal_velocity_kt,
                vertical_velocity_raw,
                track_heading_raw,
                emitter_category,
                call_sign,
                emergy_priority_code,
            },
        )
    }

    /// Packs this report into its 27-byte wire payload, the structural
    /// inverse of decoding. The buffer does not contain the flag, message
    /// ID or CRC bytes. No range validation is performed: out-of-range
    /// numeric values silently truncate to their fixed-point wire width.
    #[must_use]
    pub fn to_bytes(self) -> (r: Vec<u8>)
        ensures
            r@ == spec_tr_to_bytes(self@),
    {
        let mut buf: Vec<u8> = Vec::new();
        buf.push(self.traffic_alert_status.code() * 16 + self.address_type.code());
        let addr: u32 = self.participant_address % 0x1000000;
        buf.push(b2_u32(addr));
        buf.push(b1_u32(addr));
        buf.push(b0_u32(addr));
        let lat: u32 = low24_i32(self.latitude_raw);
        buf.push(b2_u32(lat));
        buf.push(b1_u32(lat));
        buf.push(b0_u32(lat));
        let lon: u32 = low24_i32(self.longitude_raw);
        buf.push(b2_u32(lon));
        buf.push(b1_u32(lon));
        buf.push(b0_u32(lon));
        let altq: i64 = div_trunc((self.pressure_altitude_ft as i64) + 1000, 25);
        let alt16: u32 = (low12_i64(altq) as u32) * 16 + (self.misc_indicators.nibble() as u32);
        buf.push(b1_u32(alt16));
        buf.push(b0_u32(alt16));
        buf.push(self.nic.code() * 16 + self.nacp.code());
        let hvv: u32 = ((self.horizontal_velocity_kt % 0x1000) as u32) * 0x1000 + (low12_i16(
            self.vertical_velocity_raw,
        ) as u32);
        buf.push(b2_u32(hvv));
        buf.push(b1_u32(hvv));
        buf.push(b0_u32(hvv));
        buf.push(self.track_heading_raw);
        buf.push(self.emitter_category.code());
        push_padded_call_sign(&mut buf, self.call_sign.as_slice());
        buf.push(self.emergy_priority_code.code() * 16);
        proof {
            assert(buf@ =~= spec_tr_to_bytes(self@));
        }
        buf
    }
}

/// The all-default report that `TrafficReportBuilder::new` starts from:
/// zero in every numeric field, the first variant of every enumeration
/// (with the track/heading kind defaulting to a true heading) and an empty
/// call sign.
pub open spec fn spec_default_traffic_report() -> TrafficReportView {
    TrafficReportView {
        traffic_alert_status: TrafficAlertStatus::NoAlert,
        address_type: AddressType::ADSBIcao,
        participant_address: 0,
        latitude_raw: 0,
        longitude_raw: 0,
        pressure_altitude_ft: 0,
        misc_indicators: MiscIndicators {
            tt: TrackHeading::HeadingTrue,
            report_type: ReportType::Updated,
            ground_state: AirGround::OnGround,
        },
        nic: NIC::Unknown,
        nacp: NACp::Unknown,
        horizontal_velocity_kt: 0,
        vertical_velocity_raw: 0,
        track_heading_raw: 0,
        emitter_category: EmitterCategory::NoInformation,
        call_sign: Seq::empty(),
        emergy_priority_code: EmergencyPriorityCode::NoEmergency,
    }
}

/// Fluent, order-independent, validation-free assembly of a
/// `TrafficReport`: every setter returns the builder with just that field
/// replaced.
pub struct TrafficReportBuilder {
    pub inner: TrafficReport,
}

impl View for TrafficReportBuilder {
    type V = TrafficReportView;

    open spec fn view(&self) -> TrafficReportView {
        self.inner@
    }
}

impl TrafficReportBuilder {
    #[must_use]
    pub fn new() -> (r: Self)
        ensures
            r@ == spec_default_traffic_report(),
    {
        TrafficReportBuilder {
            inner: TrafficReport {
                traffic_alert_status: TrafficAlertStatus::NoAlert,
                address_type: AddressType::ADSBIcao,
                participant_address: 0,
                latitude_raw: 0,
                longitude_raw: 0,
                pressure_altitude_ft: 0,
                misc_indicators: MiscIndicators {
                    tt: TrackHeading::HeadingTrue,
                    report_type: ReportType::Updated,
                    ground_state: AirGround::OnGround,
                },
                nic: NIC::Unknown,
                nacp: NACp::Unknown,
                horizontal_velocity_kt: 0,
                vertical_velocity_raw: 0,
                track_heading_raw: 0,
                emitter_category: EmitterCategory::NoInformation,
                call_sign: Vec::new(),
                emergy_priority_code: EmergencyPriorityCode::NoEmergency,
            },
        }
    }

    /// Sets latitude and longitude, both in counts of 180/2^23 degrees.
    #[must_use]
    pub fn with_lat_lon(self, lat: i32, lon: i32) -> (r: Self)
        ensures
            r@ == (TrafficReportView { latitude_raw: lat, longitude_raw: lon, ..self@ }),
    {
        let mut b = self;
        b.inner.latitude_raw = lat;
        b.inner.longitude_raw = lon;
        b
    }

    /// Sets position (counts of 180/2^23 degrees) and pressure altitude
    /// (feet).
    #[must_use]
    pub fn with_lat_lon_alt(self, lat: i32, lon: i32, alt: i32) -> (r: Self)
        ensures
            r@ == (TrafficReportView {
                latitude_raw: lat,
                longitude_raw: lon,
                pressure_altitude_ft: alt,
                ..self@
            }),
    {
        let mut b = self;
        b.inner.latitude_raw = lat;
        b.inner.longitude_raw = lon;
        b.inner.pressure_altitude_ft = alt;
        b
    }

    /// Sets position, pressure altitude, heading (counts of 360/256
    /// degrees) and the kind of track or heading being reported.
    #[must_use]
    pub fn with_lat_lon_alt_hdg(self, lat: i32, lon: i32, alt: i32, hdg: u8, track_type: TrackHeading) -> (r:
        Self)
        ensures
            r@ == (TrafficReportView {
                latitude_raw: lat,
                longitude_raw: lon,
                pressure_altitude_ft: alt,
                track_heading_raw: hdg,
                misc_indicators: MiscIndicators { tt: track_type, ..self@.misc_indicators },
                ..self@
            }),
    {
        let mut b = self;
        b.inner.latitude_raw = lat;
        b.inner.longitude_raw = lon;
        b.inner.pressure_altitude_ft = alt;
        b.inner.track_heading_raw = hdg;
        b.inner.misc_indicators.tt = track_type;
        b
    }

    #[must_use]
    pub fn traffic_alert_status(self, traffic_alert_status: TrafficAlertStatus) -> (r: Self)
        ensures
            r@ == (TrafficReportView { traffic_alert_status, ..self@ }),
    {
        let mut b = self;
        b.inner.traffic_alert_status = traffic_alert_status;
        b
    }

    #[must_use]
    pub fn address_type(self, address_type: AddressType) -> (r: Self)
        ensures
            r@ == (TrafficReportView { address_type, ..self@ }),
    {
        let mut b = self;
        b.inner.address_type = address_type;
        b
    }

    #[must_use]
    pub fn participant_address(self, participant_address: u32) -> (r: Self)
        ensures
            r@ == (TrafficReportView { participant_address, ..self@ }),
    {
        let mut b = self;
        b.inner.participant_address = participant_address;
        b
    }

    /// Latitude in counts of 180/2^23 degrees.
    #[must_use]
    pub fn latitude_deg(self, latitude_raw: i32) -> (r: Self)
        ensures
            r@ == (TrafficReportView { latitude_raw, ..self@ }),
    {
        let mut b = self;
        b.inner.latitude_raw = latitude_raw;
        b
    }

    /// Longitude in counts of 180/2^23 degrees.
    #[must_use]
    pub fn longitude_deg(self, longitude_raw: i32) -> (r: Self)
        ensures
            r@ == (TrafficReportView { longitude_raw, ..self@ }),
    {
        let mut b = self;
        b.inner.longitude_raw = longitude_raw;
        b
    }

    #[must_use]
    pub fn pressure_altitude_ft(self, pressure_altitude_ft: i32) -> (r: Self)
        ensures
            r@ == (TrafficReportView { pressure_altitude_ft, ..self@ }),
    {
        let mut b = self;
        b.inner.pressure_altitude_ft = pressure_altitude_ft;
        b
    }

    #[must_use]
    pub fn misc_indicators(self, misc_indicators: MiscIndicators) -> (r: Self)
        ensures
            r@ == (TrafficReportView { misc_indicators, ..self@ }),
    {
        let mut b = self;
        b.inner.misc_indicators = misc_indicators;
        b
    }

    #[must_use]
    pub fn nic(self, nic: NIC) -> (r: Self)
        ensures
            r@ == (TrafficReportView { nic, ..self@ }),
    {
        let mut b = self;
        b.inner.nic = nic;
        b
    }

    #[must_use]
    pub fn nacp(self, nacp: NACp) -> (r: Self)
        ensures
            r@ == (TrafficReportView { nacp, ..self@ }),
    {
        let mut b = self;
        b.inner.nacp = nacp;
        b
    }

    #[must_use]
    pub fn horizontal_velocity_kt(self, horizontal_velocity_kt: u16) -> (r: Self)
        ensures
            r@ == (TrafficReportView { horizontal_velocity_kt, ..self@ }),
    {
        let mut b = self;
        b.inner.horizontal_velocity_kt = horizontal_velocity_kt;
        b
    }

    /// Vertical velocity in signed counts of 64 feet per minute.
    #[must_use]
    pub fn vertical_velocity_fps(self, vertical_velocity_raw: i16) -> (r: Self)
        ensures
            r@ == (TrafficReportView { vertical_velocity_raw, ..self@ }),
    {
        let mut b = self;
        b.inner.vertical_velocity_raw = vertical_velocity_raw;
        b
    }

    /// Track or heading in counts of 360/256 degrees; its kind is set by
    /// `misc_indicators`.
    #[must_use]
    pub fn track_heading(self, track_heading_raw: u8) -> (r: Self)
        ensures
            r@ == (TrafficReportView { track_heading_raw, ..self@ }),
    {
        let mut b = self;
        b.inner.track_heading_raw = track_heading_raw;
        b
    }

    #[must_use]
    pub fn emitter_category(self, emitter_category: EmitterCategory) -> (r: Self)
        ensures
            r@ == (TrafficReportView { emitter_category, ..self@ }),
    {
        let mut b = self;
        b.inner.emitter_category = emitter_category;
        b
    }

    #[must_use]
    pub fn call_sign(self, call_sign: Vec<u8>) -> (r: Self)
        ensures
            r@ == (TrafficReportView { call_sign: call_sign@, ..self@ }),
    {
        let mut b = self;
        b.inner.call_sign = call_sign;
        b
    }

    #[must_use]
    pub fn emergy_priority_code(self, emergy_priority_code: EmergencyPriorityCode) -> (r: Self)
        ensures
            r@ == (TrafficReportView { emergy_priority_code, ..self@ }),
    {
        let mut b = self;
        b.inner.emergy_priority_code = emergy_priority_code;
        b
    }

    #[must_use]
    pub fn build(self) -> (r: TrafficReport)
        ensures
            r@ == self@,
    {
        self.inner
    }
}


/// Trimming the padded wire form of a well-formed call sign gives the
/// call sign back: it must fit in eight bytes and must not begin or end
/// with whitespace.
proof fn lemma_trim_pad8(cs: Seq<u8>)
    requires
        cs.len() <= 8,
        cs.len() > 0 ==> !spec_is_ws(cs[0]) && !spec_is_ws(cs.last()),
    ensures
        spec_trim_ws(spec_pad8(cs)) == cs,
{
    let p = spec_pad8(cs);
    if cs.len() == 0 {
        lemma_drop_leading_ws_skip(p, 8);
        assert(p.skip(8) =~= Seq::<u8>::empty());
        assert(spec_trim_ws(p) =~= cs);
    } else {
        lemma_drop_leading_ws_skip(p, 0);
        assert(p.skip(0) =~= p);
        lemma_drop_trailing_ws_take(p, cs.len() as int);
        assert(p.take(cs.len() as int) =~= cs);
    }
}

/// The ranges within which every field of a report is exactly
/// representable in its fixed-point wire encoding: a 24-bit address,
/// 24-bit signed position counts, an altitude on the 25-foot grid, 12-bit
/// velocities, integrity categories that have a wire code, and a call sign
/// that padding and trimming preserve.
pub open spec fn spec_tr_representable(v: TrafficReportView) -> bool {
    &&& v.participant_address < 0x1000000
    &&& -0x800000 <= v.latitude_raw < 0x800000
    &&& -0x800000 <= v.longitude_raw < 0x800000
    &&& -52200 <= v.pressure_altitude_ft <= 50175
    &&& (v.pressure_altitude_ft + 1000) % 25 == 0
    &&& v.horizontal_velocity_kt < 0x1000
    &&& -0x800 <= v.vertical_velocity_raw < 0x800
    &&& v.nic != NIC::Unused
    &&& v.nacp != NACp::Unused
    &&& v.call_sign.len() <= 8
    &&& (v.call_sign.len() > 0 ==> !spec_is_ws(v.call_sign[0]) && !spec_is_ws(v.call_sign.last()))
}

/// Decoding an encoded report reproduces every field exactly, for every
/// report within the representable ranges, with one deliberate exception:
/// the wire reads the longitude's 32-bit field through the altitude's
/// high byte with a truncating division, so a negative longitude can come
/// back one count (180/2^23 of a degree, the quantization step) high.
/// A non-negative longitude always comes back exactly.
#[verifier::rlimit(60)]
pub proof fn lemma_traffic_report_round_trip(v: TrafficReportView)
    requires
        spec_tr_representable(v),
    ensures
        ({
            let d = spec_tr_fields(spec_tr_to_bytes(v));
            &&& d.traffic_alert_status == v.traffic_alert_status
            &&& d.address_type == v.address_type
            &&& d.participant_address == v.participant_address
            &&& d.latitude_raw == v.latitude_raw
            &&& v.longitude_raw <= d.longitude_raw <= v.longitude_raw + 1
            &&& (v.longitude_raw >= 0 ==> d.longitude_raw == v.longitude_raw)
            &&& d.pressure_altitude_ft == v.pressure_altitude_ft
            &&& d.misc_indicators == v.misc_indicators
            &&& d.nic == v.nic
            &&& d.nacp == v.nacp
            &&& d.horizontal_velocity_kt == v.horizontal_velocity_kt
            &&& d.vertical_velocity_raw == v.vertical_velocity_raw
            &&& d.track_heading_raw == v.track_heading_raw
            &&& d.emitter_category == v.emitter_category
            &&& d.call_sign == v.call_sign
            &&& d.emergy_priority_code == v.emergy_priority_code
        }),
{
    let p = spec_tr_to_bytes(v);
    let d = spec_tr_fields(p);
    let addr = (v.participant_address as int) % 0x1000000;
    let lat = (v.latitude_raw as int) % 0x1000000;
    let lon = (v.longitude_raw as int) % 0x1000000;
    let altq = spec_div_trunc(v.pressure_altitude_ft + 1000, 25);
    let alt12 = altq % 0x1000;
    let nib = v.misc_indicators.spec_nibble() as int;
    let alt16 = alt12 * 16 + nib;
    let hv = (v.horizontal_velocity_kt as int) % 0x1000;
    let w = (v.vertical_velocity_raw as int) % 0x1000;
    let hvv = hv * 0x1000 + w;

    let tt = v.misc_indicators.tt.spec_code() as int;
    let rt = v.misc_indicators.report_type.spec_code() as int;
    let ag = v.misc_indicators.ground_state.spec_code() as int;
    assert(tt <= 3 && rt <= 1 && ag <= 1);
    assert(nib == tt + 4 * rt + 8 * ag);

    // byte 0: alert status and address type nibbles
    let ac = v.traffic_alert_status.spec_code() as int;
    let bc = v.address_type.spec_code() as int;
    assert(ac <= 2 && bc <= 6);
    assert(p[0] as int == ac * 16 + bc);
    lemma_be_split(ac, bc, 16);
    assert(d.traffic_alert_status == v.traffic_alert_status);
    assert(d.address_type == v.address_type);

    // bytes 1-3: participant address
    lemma_small_mod(v.participant_address as nat, 0x1000000);
    assert(addr == v.participant_address as int);
    lemma_recompose24(addr);
    assert(spec_be24(p[1], p[2], p[3]) == addr);
    assert(d.participant_address == v.participant_address);

    // bytes 4-6: latitude
    lemma_recompose24(lat);
    assert(spec_be24(p[4], p[5], p[6]) == lat);
    lemma_signed_low_identity(v.latitude_raw as int, 0x1000000);
    assert(d.latitude_raw == v.latitude_raw);

    // bytes 10-11: pressure altitude and misc indicators, needed first
    // because byte 10 also feeds the longitude's 32-bit read
    lemma_fundamental_div_mod(v.pressure_altitude_ft + 1000, 25);
    let k = (v.pressure_altitude_ft + 1000) / 25;
    assert(v.pressure_altitude_ft + 1000 == 25 * k);
    assert(-2048 <= k <= 2047);
    if v.pressure_altitude_ft + 1000 >= 0 {
        assert(altq == k);
    } else {
        lemma_be_split(-k, 0, 25);
        assert((-(v.pressure_altitude_ft + 1000)) == (-k) * 25 + 0);
        assert(altq == k);
    }
    lemma_signed_low_identity(k, 0x1000);
    assert(spec_signed(alt12, 0x1000) == k);
    assert(0 <= alt12 < 0x1000);
    lemma_fundamental_div_mod(alt12, 16);
    let althi = alt12 / 16;
    let altlo = alt12 % 16;
    assert(alt12 == 16 * althi + altlo);
    assert(0 <= altlo < 16 && 0 <= althi < 256);
    let b11v = altlo * 16 + nib;
    lemma_fundamental_div_mod_converse(alt16, 256, althi, b11v);
    assert(alt16 / 256 == althi && alt16 % 256 == b11v);
    lemma_small_mod(althi as nat, 256);
    assert(p[10] as int == althi);
    assert(p[11] as int == b11v);
    lemma_be_split(altlo, nib, 16);
    assert(b11v / 16 == altlo && b11v % 16 == nib);
    assert(p[10] * 16 + p[11] / 16 == alt12);
    assert(d.pressure_altitude_ft == v.pressure_altitude_ft);

    // byte 11 low nibble: the three misc flags
    assert(b11v == (altlo * 4 + rt + 2 * ag) * 4 + tt);
    lemma_fundamental_div_mod_converse(b11v, 4, altlo * 4 + rt + 2 * ag, tt);
    assert(b11v / 4 == altlo * 4 + rt + 2 * ag && b11v % 4 == tt);
    lemma_fundamental_div_mod_converse_mod(altlo * 4 + rt + 2 * ag, 2, altlo * 2 + ag, rt);
    assert((b11v / 4) % 2 == rt);
    lemma_fundamental_div_mod_converse(b11v, 8, altlo * 2 + ag, 4 * rt + tt);
    assert(b11v / 8 == altlo * 2 + ag);
    lemma_fundamental_div_mod_converse_mod(altlo * 2 + ag, 2, altlo, ag);
    assert((b11v / 8) % 2 == ag);
    assert(d.misc_indicators == v.misc_indicators);

    // bytes 7-9 plus byte 10: longitude, read back through a truncating
    // division of the 32-bit field
    lemma_recompose24(lon);
    assert(spec_be24(p[7], p[8], p[9]) == lon);
    let x32 = lon * 256 + althi;
    assert(spec_be32(p[7], p[8], p[9], p[10]) == x32);
    lemma_signed_low_identity(v.longitude_raw as int, 0x1000000);
    assert(spec_signed(lon, 0x1000000) == v.longitude_raw as int);
    if v.longitude_raw >= 0 {
        assert(lon == v.longitude_raw as int);
        assert(0 <= x32 < 0x80000000);
        assert(spec_signed(x32, 0x1_0000_0000) == x32);
        lemma_be_split(v.longitude_raw as int, althi, 256);
        assert(d.longitude_raw == v.longitude_raw);
    } else {
        assert(lon == v.longitude_raw + 0x1000000);
        assert(0x80000000 <= x32 < 0x1_0000_0000);
        let sx = (v.longitude_raw as int) * 256 + althi;
        assert(spec_signed(x32, 0x1_0000_0000) == sx);
        assert(sx < 0);
        if althi == 0 {
            lemma_be_split(-(v.longitude_raw as int), 0, 256);
            assert((-sx) / 256 == -(v.longitude_raw as int));
            assert(d.longitude_raw == v.longitude_raw);
        } else {
            lemma_be_split(-(v.longitude_raw as int) - 1, 256 - althi, 256);
            assert(-sx == (-(v.longitude_raw as int) - 1) * 256 + (256 - althi));
            assert((-sx) / 256 == -(v.longitude_raw as int) - 1);
            assert(d.longitude_raw == v.longitude_raw + 1);
        }
    }

    // byte 12: integrity and accuracy nibbles
    let nc = v.nic.spec_code() as int;
    let pc = v.nacp.spec_code() as int;
    assert(nc <= 11 && pc <= 11);
    assert(p[12] as int == nc * 16 + pc);
    lemma_be_split(nc, pc, 16);
    assert(d.nic == v.nic);
    assert(d.nacp == v.nacp);

    // bytes 13-15: horizontal and vertical velocity, packed 12+12 bits
    lemma_small_mod(v.horizontal_velocity_kt as nat, 0x1000);
    assert(hv == v.horizontal_velocity_kt as int);
    lemma_signed_low_identity(v.vertical_velocity_raw as int, 0x1000);
    assert(spec_signed(w, 0x1000) == v.vertical_velocity_raw as int);
    assert(0 <= w < 0x1000);
    lemma_fundamental_div_mod(hv, 16);
    let hvhi = hv / 16;
    let hvlo = hv % 16;
    assert(hv == 16 * hvhi + hvlo);
    lemma_fundamental_div_mod(w, 256);
    let whi = w / 256;
    let wlo = w % 256;
    assert(w == 256 * whi + wlo);
    assert(0 <= whi < 16);
    lemma_fundamental_div_mod_converse(hvv, 0x10000, hvhi, hvlo * 0x1000 + w);
    assert(hvv / 0x10000 == hvhi);
    lemma_small_mod(hvhi as nat, 256);
    assert(p[13] as int == hvhi);
    lemma_fundamental_div_mod_converse(hvv, 256, hv * 16 + whi, wlo);
    assert(hvv / 256 == hv * 16 + whi && hvv % 256 == wlo);
    assert(p[15] as int == wlo);
    lemma_fundamental_div_mod_converse_mod(hv * 16 + whi, 256, hvhi, hvlo * 16 + whi);
    assert(p[14] as int == hvlo * 16 + whi);
    lemma_be_split(hvlo, whi, 16);
    assert(p[14] / 16 == hvlo && p[14] % 16 == whi);
    assert(p[13] * 16 + p[14] / 16 == hv);
    assert(d.horizontal_velocity_kt == v.horizontal_velocity_kt);
    assert((p[14] % 16) * 256 + p[15] == w);
    assert(d.vertical_velocity_raw == v.vertical_velocity_raw);

    // bytes 16-17
    assert(d.track_heading_raw == v.track_heading_raw);
    assert(d.emitter_category == v.emitter_category);

    // bytes 18-25: call sign
    assert(p.subrange(18, 26) =~= spec_pad8(v.call_sign));
    lemma_trim_pad8(v.call_sign);
    assert(d.call_sign == v.call_sign);

    // byte 26: emergency/priority nibble
    let ec = v.emergy_priority_code.spec_code() as int;
    assert(ec <= 7);
    assert(p[26] as int == ec * 16);
    lemma_be_split(ec, 0, 16);
    assert(d.emergy_priority_code == v.emergy_priority_code);
}


/// A 27-byte payload in canonical form: every enumeration byte carries a
/// code that its variant encodes back to, the reserved low nibble of the
/// emergency byte is clear, the longitude field is non-negative unless the
/// altitude's high byte (which the longitude's 32-bit read also covers) is
/// zero, and the call sign survives trimming and re-padding.
pub open spec fn spec_tr_canonical(p: Seq<u8>) -> bool {
    &&& p.len() == 27
    &&& TrafficAlertStatus::spec_from_code(p[0] / 16).spec_code() == p[0] / 16
    &&& AddressType::spec_from_code(p[0] % 16).spec_code() == p[0] % 16
    &&& NIC::spec_from_code(p[12] / 16).spec_code() == p[12] / 16
    &&& NACp::spec_from_code(p[12] % 16).spec_code() == p[12] % 16
    &&& EmitterCategory::spec_from_code(p[17]).spec_code() == p[17]
    &&& EmergencyPriorityCode::spec_from_code(p[26] / 16).spec_code() == p[26] / 16
    &&& p[26] % 16 == 0
    &&& (p[7] < 0x80 || p[10] == 0)
    &&& spec_pad8(spec_trim_ws(p.subrange(18, 26))) == p.subrange(18, 26)
}

/// Re-encoding a decoded canonical payload reproduces it byte for byte.
#[verifier::rlimit(100)]
pub proof fn lemma_tr_canonical_round_trip(p: Seq<u8>)
    requires
        spec_tr_canonical(p),
    ensures
        spec_tr_to_bytes(spec_tr_fields(p)) == p,
{
    let d = spec_tr_fields(p);
    let e = spec_tr_to_bytes(d);
    let p0 = p[0] as int;
    let p10 = p[10] as int;
    let p11 = p[11] as int;
    let p12 = p[12] as int;
    let p13 = p[13] as int;
    let p14 = p[14] as int;
    let p15 = p[15] as int;
    let p26 = p[26] as int;

    // byte 0
    lemma_fundamental_div_mod(p0, 16);
    assert(e[0] == p[0]);

    // bytes 1-3: participant address
    let pa = spec_be24(p[1], p[2], p[3]);
    assert(0 <= pa < 0x1000000);
    lemma_small_mod(pa as nat, 0x1000000);
    crate::fixed::lemma_digits_of_be24(p[1] as int, p[2] as int, p[3] as int);
    assert(e[1] == p[1] && e[2] == p[2] && e[3] == p[3]);

    // bytes 4-6: latitude
    let latu = spec_be24(p[4], p[5], p[6]);
    assert(0 <= latu < 0x1000000);
    lemma_low_signed_identity(latu, 0x1000000);
    crate::fixed::lemma_digits_of_be24(p[4] as int, p[5] as int, p[6] as int);
    assert(e[4] == p[4] && e[5] == p[5] && e[6] == p[6]);

    // bytes 10-11: altitude and misc nibble
    let v12 = p10 * 16 + p11 / 16;
    lemma_fundamental_div_mod(p11, 16);
    assert(0 <= v12 < 0x1000);
    let s = spec_signed(v12, 0x1000);
    assert(d.pressure_altitude_ft as int == s * 25 - 1000);
    if s >= 0 {
        lemma_be_split(s, 0, 25);
        assert(spec_div_trunc(s * 25, 25) == s);
    } else {
        lemma_be_split(-s, 0, 25);
        assert(spec_div_trunc(s * 25, 25) == s);
    }
    lemma_low_signed_identity(v12, 0x1000);
    // the misc nibble re-packs to the low nibble of byte 11
    let m = p11 % 16;
    let q11 = p11 / 16;
    // tt bits
    lemma_fundamental_div_mod(m, 4);
    lemma_fundamental_div_mod_converse(p11, 4, q11 * 4 + m / 4, m % 4);
    assert(p11 % 4 == m % 4);
    // rt bit
    lemma_fundamental_div_mod(m / 4, 2);
    lemma_fundamental_div_mod_converse_mod(
        q11 * 4 + m / 4,
        2,
        q11 * 2 + (m / 4) / 2,
        (m / 4) % 2,
    );
    assert((p11 / 4) % 2 == (m / 4) % 2);
    // ag bit
    lemma_fundamental_div_mod(m, 8);
    lemma_fundamental_div_mod_converse(p11, 8, q11 * 2 + m / 8, m % 8);
    assert(p11 / 8 == q11 * 2 + m / 8);
    assert(0 <= m / 8 < 2);
    lemma_fundamental_div_mod_converse_mod(q11 * 2 + m / 8, 2, q11, m / 8);
    assert((p11 / 8) % 2 == m / 8);
    // the three codes round-trip for every code in range
    let tt = m % 4;
    let rt = (m / 4) % 2;
    let ag = m / 8;
    assert(TrackHeading::spec_from_code(tt as u8).spec_code() as int == tt);
    assert(ReportType::spec_from_code(rt as u8).spec_code() as int == rt);
    assert(AirGround::spec_from_code(ag as u8).spec_code() as int == ag);
    let nib = d.misc_indicators.spec_nibble() as int;
    // m < 16 decomposes into exactly those bits
    vstd::arithmetic::div_mod::lemma_div_denominator(m, 4, 2);
    lemma_fundamental_div_mod(m / 4, 2);
    assert(m / 4 == 2 * (m / 8) + (m / 4) % 2);
    assert(m == 4 * (m / 4) + m % 4);
    assert(nib == m);
    let alt16 = v12 * 16 + nib;
    assert(alt16 == p10 * 256 + p11);
    lemma_fundamental_div_mod_converse(alt16, 256, p10, p11);
    lemma_small_mod(p10 as nat, 256);
    assert(e[10] == p[10] && e[11] == p[11]);

    // bytes 7-9: longitude, whose 32-bit read covers byte 10
    let lonu = spec_be24(p[7], p[8], p[9]);
    assert(0 <= lonu < 0x1000000);
    let x32 = spec_be32(p[7], p[8], p[9], p[10]);
    assert(x32 == lonu * 256 + p10);
    if p[7] < 0x80 {
        assert(lonu < 0x800000);
        assert(0 <= x32 < 0x80000000);
        assert(spec_signed(x32, 0x1_0000_0000) == x32);
        lemma_be_split(lonu, p10, 256);
        assert(d.longitude_raw as int == lonu);
        lemma_small_mod(lonu as nat, 0x1000000);
    } else {
        assert(p10 == 0);
        assert(lonu >= 0x800000);
        assert(x32 >= 0x80000000);
        let sx = (lonu - 0x1000000) * 256;
        assert(spec_signed(x32, 0x1_0000_0000) == sx);
        assert(sx < 0);
        lemma_be_split(0x1000000 - lonu, 0, 256);
        assert((-sx) / 256 == 0x1000000 - lonu);
        assert(d.longitude_raw as int == lonu - 0x1000000);
        lemma_low_signed_identity(lonu, 0x1000000);
        assert((d.longitude_raw as int) % 0x1000000 == lonu);
    }
    crate::fixed::lemma_digits_of_be24(p[7] as int, p[8] as int, p[9] as int);
    assert(e[7] == p[7] && e[8] == p[8] && e[9] == p[9]);

    // byte 12
    lemma_fundamental_div_mod(p12, 16);
    assert(e[12] == p[12]);

    // bytes 13-15: the packed velocities
    let hvd = p13 * 16 + p14 / 16;
    lemma_fundamental_div_mod(p14, 16);
    assert(0 <= hvd < 0x1000);
    assert(d.horizontal_velocity_kt as int == hvd);
    lemma_small_mod(hvd as nat, 0x1000);
    let mm = (p14 % 16) * 256 + p15;
    assert(0 <= mm < 0x1000);
    lemma_low_signed_identity(mm, 0x1000);
    assert((d.vertical_velocity_raw as int) % 0x1000 == mm);
    let hvv = hvd * 0x1000 + mm;
    assert(0 <= hvv < 0x1000000);
    // third digit
    assert(hvv == p13 * 0x10000 + ((p14 / 16) * 0x1000 + mm));
    assert(0 <= (p14 / 16) * 0x1000 + mm < 0x10000);
    lemma_fundamental_div_mod_converse(hvv, 0x10000, p13, (p14 / 16) * 0x1000 + mm);
    lemma_small_mod(p13 as nat, 256);
    assert(e[13] == p[13]);
    // low digit
    assert(hvv == (hvd * 16 + p14 % 16) * 256 + p15);
    lemma_fundamental_div_mod_converse(hvv, 256, hvd * 16 + p14 % 16, p15);
    assert(e[15] == p[15]);
    // middle digit
    assert(hvd * 16 + p14 % 16 == p13 * 256 + p14);
    lemma_fundamental_div_mod_converse_mod(p13 * 256 + p14, 256, p13, p14);
    assert(e[14] == p[14]);

    // bytes 16-17
    assert(e[16] == p[16]);
    assert(e[17] == p[17]);

    // bytes 18-25: call sign
    assert(e.subrange(18, 26) =~= spec_pad8(d.call_sign));
    assert(forall|j: int| 18 <= j < 26 ==> e[j] == p[j]) by {
        assert(spec_pad8(spec_trim_ws(p.subrange(18, 26))) == p.subrange(18, 26));
        assert(forall|j: int|
            18 <= j < 26 ==> e[j] == spec_pad8(d.call_sign)[j - 18] && p[j] == p.subrange(
                18,
                26,
            )[j - 18]);
    }

    // byte 26
    lemma_fundamental_div_mod(p26, 16);
    assert(e[26] == p[26]);

    assert(e =~= p);
}

} // verus!
