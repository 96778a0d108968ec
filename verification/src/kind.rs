//! Block-device classification: SSD, HDD, NVMe or USB.

use vstd::prelude::*;
use vstd::string::StringSliceAdditionalSpecFns;

use crate::text::{ascii_chars, basename, basename_bytes, contains_bytes, contains_seq,
    starts_with, starts_with_bytes, trim_bytes, trimmed};

verus! {

/// The kind of a disk.
#[derive(Clone, Copy, PartialEq, Eq, Structural, Debug)]
pub enum DiskKind {
    SSD,
    HDD,
    NVME,
    USB,
}

pub open spec fn kind_label(k: DiskKind) -> Seq<char> {
    match k {
        DiskKind::SSD => "SSD"@,
        DiskKind::HDD => "HDD"@,
        DiskKind::NVME => "NVME"@,
        DiskKind::USB => "USB"@,
    }
}

impl DiskKind {
    /// The kind's display name.
    pub fn label(&self) -> (r: String)
        ensures
            r@ == kind_label(*self),
    {
        match self {
            DiskKind::SSD => String::from_str("SSD"),
            DiskKind::HDD => String::from_str("HDD"),
            DiskKind::NVME => String::from_str("NVME"),
            DiskKind::USB => String::from_str("USB"),
        }
    }
}

/// A device name that names a whole disk: it carries one of the known
/// disk prefixes and no trailing partition digit.
pub open spec fn fits_filter_spec(name: Seq<u8>) -> bool {
    &&& (starts_with(name, "sd"@.map_values(|c: char| c as u8)) || starts_with(
        name,
        "hd"@.map_values(|c: char| c as u8),
    ) || starts_with(name, "nvme"@.map_values(|c: char| c as u8)))
    &&& (name.len() == 0 || !(48 <= name[name.len() - 1] <= 57))
}

/// Whether a `/dev` entry name is a whole disk the library handles:
/// "sd", "hd" or "nvme" prefixed, and not partition-suffixed — a
/// partition name ends in its partition digit.
pub fn fits_filter(disk: &str) -> (r: bool)
    ensures
        r == fits_filter_spec(disk.spec_bytes()),
{
    let b = disk.as_bytes();
    let prefixed = starts_with_bytes(b, "sd".as_bytes()) || starts_with_bytes(
        b,
        "hd".as_bytes(),
    ) || starts_with_bytes(b, "nvme".as_bytes());
    proof {
        vstd::string::is_ascii_spec_bytes("sd");
        vstd::string::is_ascii_spec_bytes("hd");
        vstd::string::is_ascii_spec_bytes("nvme");
        reveal_strlit("sd");
        reveal_strlit("hd");
        reveal_strlit("nvme");
        assert("sd".spec_bytes() =~= "sd"@.map_values(|c: char| c as u8));
        assert("hd".spec_bytes() =~= "hd"@.map_values(|c: char| c as u8));
        assert("nvme".spec_bytes() =~= "nvme"@.map_values(|c: char| c as u8));
    }
    if !prefixed {
        return false;
    }
    if b.len() > 0 {
        let last = b[b.len() - 1];
        if 48 <= last && last <= 57 {
            return false;
        }
    }
    true
}

/// The classification rule, over the data that sysfs offers: the device's
/// base name, the target of its sysfs symlink (if readable), and the
/// contents of its rotational flag file (if readable). An NVMe-prefixed
/// name is NVMe outright; a symlink target holding a USB bus segment is
/// USB; a rotational flag of "1" (trimmed) is HDD; everything else,
/// including any missing or unreadable entry, defaults to SSD.
pub open spec fn disk_class_spec(
    path: Seq<u8>,
    link_target: Option<Seq<u8>>,
    rotational: Option<Seq<u8>>,
) -> DiskKind {
    let name = basename(path);
    if starts_with(name, "nvme"@.map_values(|c: char| c as u8)) {
        DiskKind::NVME
    } else if link_target is Some && contains_seq(
        link_target->0,
        "/usb"@.map_values(|c: char| c as u8),
    ) {
        DiskKind::USB
    } else if rotational is Some && trimmed(rotational->0) =~= "1"@.map_values(|c: char| c as u8) {
        DiskKind::HDD
    } else {
        DiskKind::SSD
    }
}

/// Classify a disk from its device path and what was read from sysfs.
/// `link_target` is the target of the device's sysfs symlink and
/// `rotational` the contents of its rotational flag file; `None` stands
/// for a missing or unreadable entry, which never fails classification.
pub fn disk_class(path: &str, link_target: Option<&Vec<u8>>, rotational: Option<&Vec<u8>>) -> (r:
    DiskKind)
    ensures
        r == disk_class_spec(
            path.spec_bytes(),
            match link_target {
                Some(t) => Some(t@),
                None => None,
            },
            match rotational {
                Some(t) => Some(t@),
                None => None,
            },
        ),
{
    proof {
        vstd::string::is_ascii_spec_bytes("nvme");
        vstd::string::is_ascii_spec_bytes("/usb");
        vstd::string::is_ascii_spec_bytes("1");
        reveal_strlit("nvme");
        reveal_strlit("/usb");
        reveal_strlit("1");
        assert("nvme".spec_bytes() =~= "nvme"@.map_values(|c: char| c as u8));
        assert("/usb".spec_bytes() =~= "/usb"@.map_values(|c: char| c as u8));
        assert("1".spec_bytes() =~= "1"@.map_values(|c: char| c as u8));
    }
    let name = basename_bytes(path.as_bytes());
    if starts_with_bytes(name.as_slice(), "nvme".as_bytes()) {
        return DiskKind::NVME;
    }
    if let Some(target) = link_target {
        if contains_bytes(target.as_slice(), "/usb".as_bytes()) {
            return DiskKind::USB;
        }
    }
    if let Some(flag) = rotational {
        let t = trim_bytes(flag.as_slice());
        if t.len() == 1 && t[0] == 49 {
            proof {
                assert(trimmed(flag@) =~= "1"@.map_values(|c: char| c as u8));
            }
            return DiskKind::HDD;
        }
        proof {
            if trimmed(flag@) =~= "1"@.map_values(|c: char| c as u8) {
                assert(t@.len() == 1 && t@[0] == 49);
            }
        }
    }
    DiskKind::SSD
}

} // verus!
