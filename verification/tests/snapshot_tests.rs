use glacierdisk::ata::DiskAtaLink;
use glacierdisk::attribute::{Attribute, AttributeUnit};
use glacierdisk::disk::ShallowDisk;
use glacierdisk::kind::DiskKind;
use glacierdisk::smart::SmartOverall;
use glacierdisk::snapshot::{attribute_total, disk_size, DiskCache};

fn disk() -> ShallowDisk {
    ShallowDisk {
        path: "/dev/sda".to_string(),
        kind: DiskKind::SSD,
        ata_link: DiskAtaLink::default(),
    }
}

fn attr(name: &str, unit: AttributeUnit, value: u64) -> Attribute {
    Attribute {
        name: name.to_string(),
        pretty_unit: unit,
        pretty_value: value,
        ..Attribute::default()
    }
}

#[test]
fn totals_scale_by_the_pretty_unit() {
    let attrs = vec![
        attr("total-lbas-read", AttributeUnit::Mb, 7),
        attr("total-lbas-written", AttributeUnit::Mb, 5),
    ];
    assert_eq!(attribute_total(&attrs, "total-lbas-written"), 5_000_000);
    assert_eq!(attribute_total(&attrs, "total-lbas-read"), 7_000_000);
}

#[test]
fn an_absent_total_is_zero() {
    let attrs = vec![attr("power-on-hours", AttributeUnit::Mseconds, 12)];
    assert_eq!(attribute_total(&attrs, "total-lbas-written"), 0);
}

#[test]
fn reported_size_is_kept() {
    assert_eq!(disk_size(500_107_862_016, b"976773168\n"), 500_107_862_016);
}

#[test]
fn zero_size_falls_back_to_sysfs_sectors() {
    assert_eq!(disk_size(0, b"976773168\n"), 976773168 * 512);
    assert_eq!(disk_size(0, b"1024\n"), 524288);
}

#[test]
fn unreadable_sector_count_gives_zero() {
    assert_eq!(disk_size(0, b""), 0);
}

#[test]
fn snapshot_composes_the_readings() {
    let attrs = vec![
        attr("total-lbas-read", AttributeUnit::Mb, 7),
        attr("total-lbas-written", AttributeUnit::Mb, 5),
        attr("temperature-celsius", AttributeUnit::Mkelvin, 300000),
    ];
    let c = DiskCache::new(disk(), 300000, 500_107_862_016, attrs, 1234, 77, SmartOverall::Good);
    assert_eq!(c.path(), "/dev/sda");
    assert_eq!(c.temperature(), 300000);
    assert_eq!(c.size(), 500_107_862_016);
    assert_eq!(c.attributes().len(), 3);
    assert_eq!(c.power_on(), 1234);
    assert_eq!(c.power_cycle_count(), 77);
    assert_eq!(c.total_read(), 7_000_000);
    assert_eq!(c.total_write(), 5_000_000);
    assert_eq!(*c.kind(), DiskKind::SSD);
    assert_eq!(c.smart_overall(), "Good");
    assert_eq!(c.ata_link().speed, "unknown");
}

#[test]
fn missing_totals_read_as_zero() {
    let c = DiskCache::new(disk(), 0, 0, vec![], 0, 0, SmartOverall::BadSector);
    assert_eq!(c.total_read(), 0);
    assert_eq!(c.total_write(), 0);
    assert_eq!(c.smart_overall(), "Bad Sector");
}
