use glacierdisk::ata::DiskAtaLink;
use glacierdisk::disk::{get_mounts, ShallowDisk};
use glacierdisk::kind::DiskKind;

const MOUNTS: &[u8] = b"/dev/sda1 /mnt ext4 rw,relatime 0 0\n\
/dev/sda2 /data ext4 rw,relatime 0 0\n\
proc /proc proc rw 0 0\n\
/dev/sdb1 /other ext4 rw 0 0\n";

#[test]
fn mounts_of_a_disk_cover_its_partitions() {
    let m = get_mounts("/dev/sda", MOUNTS);
    assert_eq!(m, vec![b"/mnt".to_vec(), b"/data".to_vec()]);
}

#[test]
fn an_unmounted_disk_has_no_mounts() {
    let m = get_mounts("/dev/sdc", MOUNTS);
    assert!(m.is_empty());
}

#[test]
fn a_device_line_without_a_mount_field_is_passed_over() {
    let m = get_mounts("/dev/sda", b"/dev/sda1\n/dev/sda2 /data ext4 rw 0 0\n");
    assert_eq!(m, vec![b"/data".to_vec()]);
}

#[test]
fn shallow_disk_classifies_at_construction() {
    let rot = b"1\n".to_vec();
    let d = ShallowDisk::new("/dev/sda".to_string(), None, Some(&rot), DiskAtaLink::default());
    assert_eq!(d.path, "/dev/sda");
    assert_eq!(d.kind, DiskKind::HDD);
    assert_eq!(d.ata_link.speed, "unknown");
}

#[test]
fn shallow_disk_mounts() {
    let d = ShallowDisk::new("/dev/sdb".to_string(), None, None, DiskAtaLink::default());
    assert_eq!(d.mounts(MOUNTS), vec![b"/other".to_vec()]);
}
