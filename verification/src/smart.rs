//! SMART overall-health values and their display mapping.

use vstd::prelude::*;
use vstd::string::StringSliceAdditionalSpecFns;

use crate::text::bytes_eq;

verus! {

/// The overall SMART verdict of a disk, as the native diagnostics
/// library reports it. `Unknown` stands for any value outside the named
/// ones.
#[derive(Clone, Copy, PartialEq, Eq, Structural, Debug)]
pub enum SmartOverall {
    Good,
    BadAttributeInThePast,
    BadSector,
    BadAttributeNow,
    BadSectorMany,
    BadStatus,
    Unknown,
}

/// The three-level health label shown for a drive.
#[derive(Clone, Copy, PartialEq, Eq, Structural, Debug)]
pub enum DriveStatus {
    Good,
    Caution,
    Bad,
}

pub open spec fn overall_label(o: SmartOverall) -> Seq<char> {
    match o {
        SmartOverall::Good => "Good"@,
        SmartOverall::BadAttributeInThePast => "Bad Attribute In The Past"@,
        SmartOverall::BadSector => "Bad Sector"@,
        SmartOverall::BadAttributeNow => "Bad Attribute Now"@,
        SmartOverall::BadSectorMany => "Bad Sector Many"@,
        SmartOverall::BadStatus => "Bad Status"@,
        SmartOverall::Unknown => "Unknown"@,
    }
}

/// The display name of an overall SMART verdict.
pub fn smart_to_string(sk: SmartOverall) -> (r: String)
    ensures
        r@ == overall_label(sk),
{
    match sk {
        SmartOverall::Good => String::from_str("Good"),
        SmartOverall::BadAttributeInThePast => String::from_str("Bad Attribute In The Past"),
        SmartOverall::BadSector => String::from_str("Bad Sector"),
        SmartOverall::BadAttributeNow => String::from_str("Bad Attribute Now"),
        SmartOverall::BadSectorMany => String::from_str("Bad Sector Many"),
        SmartOverall::BadStatus => String::from_str("Bad Status"),
        SmartOverall::Unknown => String::from_str("Unknown"),
    }
}

/// The canonical mapping from a rendered SMART verdict to a health
/// label: "Good" is good; a bad attribute, past or present, is a
/// caution; bad sectors and a bad status are bad; and so is anything
/// unrecognized, "Unknown" included.
pub open spec fn status_of(b: Seq<u8>) -> DriveStatus {
    if b == "Good".spec_bytes() {
        DriveStatus::Good
    } else if b == "Bad Attribute In The Past".spec_bytes() || b
        == "Bad Attribute Now".spec_bytes() {
        DriveStatus::Caution
    } else {
        DriveStatus::Bad
    }
}

impl DriveStatus {
    /// The health label of a rendered SMART verdict. Anything
    /// unrecognized is conservatively bad.
    pub fn from_smart(s: &str) -> (r: DriveStatus)
        ensures
            r == status_of(s.spec_bytes()),
    {
        let b = s.as_bytes();
        if bytes_eq(b, "Good".as_bytes()) {
            DriveStatus::Good
        } else if bytes_eq(b, "Bad Attribute In The Past".as_bytes()) || bytes_eq(
            b,
            "Bad Attribute Now".as_bytes(),
        ) {
            DriveStatus::Caution
        } else {
            DriveStatus::Bad
        }
    }
}

} // verus!
