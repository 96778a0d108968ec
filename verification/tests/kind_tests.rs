use glacierdisk::kind::{disk_class, fits_filter, DiskKind};

#[test]
fn whole_disks_fit_the_filter() {
    assert!(fits_filter("sda"));
    assert!(fits_filter("hdb"));
}

#[test]
fn partition_suffixed_names_do_not_fit() {
    assert!(!fits_filter("sda1"));
    assert!(!fits_filter("hdb2"));
    assert!(!fits_filter("nvme0n1"));
}

#[test]
fn only_a_trailing_digit_marks_a_partition() {
    assert!(fits_filter("sd1a"));
    assert!(fits_filter("nvme0n1p"));
}

#[test]
fn other_devices_do_not_fit() {
    assert!(!fits_filter("loop0"));
    assert!(!fits_filter("dm-0"));
    assert!(!fits_filter(""));
}

#[test]
fn rotational_one_is_hdd() {
    let rot = b"1\n".to_vec();
    assert_eq!(disk_class("/dev/sda", None, Some(&rot)), DiskKind::HDD);
}

#[test]
fn rotational_zero_is_ssd() {
    let rot = b"0\n".to_vec();
    assert_eq!(disk_class("/dev/sda", None, Some(&rot)), DiskKind::SSD);
}

#[test]
fn nvme_prefix_wins_over_rotational() {
    let rot = b"1\n".to_vec();
    assert_eq!(disk_class("/dev/nvme0n1", None, Some(&rot)), DiskKind::NVME);
}

#[test]
fn usb_link_target() {
    let link = b"../devices/pci0000:00/0000:00:14.0/usb2/2-1/block/sda".to_vec();
    let rot = b"1\n".to_vec();
    assert_eq!(disk_class("/dev/sda", Some(&link), Some(&rot)), DiskKind::USB);
}

#[test]
fn missing_sysfs_defaults_to_ssd() {
    assert_eq!(disk_class("/dev/sda", None, None), DiskKind::SSD);
}

#[test]
fn kind_labels() {
    assert_eq!(DiskKind::SSD.label(), "SSD");
    assert_eq!(DiskKind::HDD.label(), "HDD");
    assert_eq!(DiskKind::NVME.label(), "NVME");
    assert_eq!(DiskKind::USB.label(), "USB");
}
