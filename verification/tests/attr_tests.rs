use glacierdisk::attribute::{get_attribute, Attribute, AttributeUnit, Convertable};

fn named(name: &str, id: u8, value: u64) -> Attribute {
    Attribute { name: name.to_string(), id, pretty_value: value, ..Attribute::default() }
}

#[test]
fn megabyte_unit_scales_to_base() {
    assert_eq!(AttributeUnit::Mb.convert_to_base(5), 5_000_000);
}

#[test]
fn megabyte_base_number() {
    assert_eq!(AttributeUnit::Mb.to_base_number(), 1_000_000);
}

#[test]
fn sentinel_unit_collapses_to_zero() {
    assert_eq!(AttributeUnit::Max.convert_to_base(123), 0);
}

#[test]
fn unrecognized_units_keep_the_value() {
    assert_eq!(AttributeUnit::Unknown.convert_to_base(77), 77);
    assert_eq!(AttributeUnit::Sectors.convert_to_base(42), 42);
}

#[test]
fn finds_the_first_matching_attribute() {
    let attrs = vec![
        named("temperature-celsius", 194, 31),
        named("total-lbas-read", 242, 100),
        named("total-lbas-read", 242, 999),
    ];
    let a = get_attribute(&attrs, "total-lbas-read").unwrap();
    assert_eq!(a.pretty_value, 100);
}

#[test]
fn absence_is_none() {
    let attrs = vec![named("temperature-celsius", 194, 31)];
    assert!(get_attribute(&attrs, "total-lbas-written").is_none());
}

#[test]
fn equality_disregards_unit_and_raw() {
    let mut a = named("power-on-hours", 9, 5);
    let mut b = named("power-on-hours", 9, 5);
    a.pretty_unit = AttributeUnit::Mseconds;
    b.pretty_unit = AttributeUnit::Sectors;
    a.raw = [1, 2, 3, 4, 5, 6];
    b.raw = [9, 9, 9, 9, 9, 9];
    assert_eq!(a, b);
}

#[test]
fn equality_sees_the_counters() {
    let a = named("power-on-hours", 9, 5);
    let b = named("power-on-hours", 9, 6);
    assert_ne!(a, b);
}

#[test]
fn default_attribute_is_empty() {
    let a = Attribute::default();
    assert_eq!(a.id, 0);
    assert_eq!(a.name, "");
    assert!(!a.warn);
    assert_eq!(a.raw, [0; 6]);
}

#[test]
fn record_fields_with_valid_flags_are_kept() {
    let a = Attribute::from_record(
        9,
        "power-on-hours".to_string(),
        50,
        true,
        false,
        98,
        true,
        95,
        true,
        AttributeUnit::Mseconds,
        1234,
        [1, 2, 3, 4, 5, 6],
    );
    assert_eq!(a.threshold, 50);
    assert_eq!(a.current, 98);
    assert_eq!(a.worst, 95);
    assert_eq!(a.pretty_value, 1234);
}

#[test]
fn record_fields_with_unset_flags_read_as_zero() {
    let a = Attribute::from_record(
        9,
        "power-on-hours".to_string(),
        50,
        false,
        true,
        98,
        false,
        95,
        false,
        AttributeUnit::Mseconds,
        1234,
        [0; 6],
    );
    assert_eq!(a.threshold, 0);
    assert_eq!(a.current, 0);
    assert_eq!(a.worst, 0);
    assert!(a.warn);
    assert_eq!(a.pretty_value, 1234);
}

#[test]
fn raw_str_renders_hex() {
    let mut a = Attribute::default();
    a.raw = [222, 173, 190, 239, 0, 1];
    assert_eq!(a.raw_str(), "deadbeef0001");
}
