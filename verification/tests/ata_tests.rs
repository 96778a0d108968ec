use glacierdisk::ata::{DiskAtaLink, LinkEntry};
use glacierdisk::DiskError;

fn entry(name: &str, target: &str) -> LinkEntry {
    LinkEntry { name: name.as_bytes().to_vec(), target: target.as_bytes().to_vec() }
}

#[test]
fn resolves_the_matching_port() {
    let links = vec![
        entry("pci-0000:00:1f.2-ata-3", "../../sda"),
        entry("pci-0000:00:1f.2-ata-4", "../../sdb"),
    ];
    assert_eq!(DiskAtaLink::for_disk("/dev/sda", &links), Ok(3));
    assert_eq!(DiskAtaLink::for_disk("/dev/sdb", &links), Ok(4));
}

#[test]
fn absent_device_is_not_found_not_a_crash() {
    let links = vec![entry("pci-0000:00:1f.2-ata-3", "../../sda")];
    assert_eq!(DiskAtaLink::for_disk("/dev/sdz", &links), Err(DiskError::NotFound));
    let none: Vec<LinkEntry> = vec![];
    assert_eq!(DiskAtaLink::for_disk("/dev/sda", &none), Err(DiskError::NotFound));
}

#[test]
fn partition_links_are_skipped() {
    let links = vec![
        entry("pci-0000:00:1f.2-ata-3-part1", "../../sda"),
        entry("pci-0000:00:1f.2-ata-3", "../../sda"),
    ];
    assert_eq!(DiskAtaLink::for_disk("/dev/sda", &links), Ok(3));
}

#[test]
fn sub_links_are_skipped() {
    let links = vec![entry("pci-0000:00:1f.2-ata-3.0", "../../sda")];
    assert_eq!(DiskAtaLink::for_disk("/dev/sda", &links), Err(DiskError::NotFound));
}

#[test]
fn non_ata_links_are_skipped() {
    let links = vec![entry("pci-0000:00:14.0-usb-0:2", "../../sda")];
    assert_eq!(DiskAtaLink::for_disk("/dev/sda", &links), Err(DiskError::NotFound));
}

#[test]
fn a_partial_device_name_does_not_match() {
    let links = vec![entry("pci-0000:00:1f.2-ata-3", "../../sda1")];
    assert_eq!(DiskAtaLink::for_disk("/dev/sda", &links), Err(DiskError::NotFound));
}

#[test]
fn default_link_is_unknown() {
    let d = DiskAtaLink::default();
    assert_eq!(d.port, 0);
    assert_eq!(d.speed, "unknown");
}
