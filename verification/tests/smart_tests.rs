use glacierdisk::smart::{smart_to_string, DriveStatus, SmartOverall};

#[test]
fn overall_labels() {
    assert_eq!(smart_to_string(SmartOverall::Good), "Good");
    assert_eq!(smart_to_string(SmartOverall::BadAttributeInThePast), "Bad Attribute In The Past");
    assert_eq!(smart_to_string(SmartOverall::BadSector), "Bad Sector");
    assert_eq!(smart_to_string(SmartOverall::BadAttributeNow), "Bad Attribute Now");
    assert_eq!(smart_to_string(SmartOverall::BadSectorMany), "Bad Sector Many");
    assert_eq!(smart_to_string(SmartOverall::BadStatus), "Bad Status");
    assert_eq!(smart_to_string(SmartOverall::Unknown), "Unknown");
}

#[test]
fn good_maps_to_good() {
    assert_eq!(DriveStatus::from_smart("Good"), DriveStatus::Good);
}

#[test]
fn bad_attributes_map_to_caution() {
    assert_eq!(DriveStatus::from_smart("Bad Attribute In The Past"), DriveStatus::Caution);
    assert_eq!(DriveStatus::from_smart("Bad Attribute Now"), DriveStatus::Caution);
}

#[test]
fn bad_sectors_and_status_map_to_bad() {
    assert_eq!(DriveStatus::from_smart("Bad Sector"), DriveStatus::Bad);
    assert_eq!(DriveStatus::from_smart("Bad Sector Many"), DriveStatus::Bad);
    assert_eq!(DriveStatus::from_smart("Bad Status"), DriveStatus::Bad);
}

#[test]
fn anything_unrecognized_is_bad() {
    assert_eq!(DriveStatus::from_smart("Unknown"), DriveStatus::Bad);
    assert_eq!(DriveStatus::from_smart(""), DriveStatus::Bad);
    assert_eq!(DriveStatus::from_smart("good"), DriveStatus::Bad);
}
