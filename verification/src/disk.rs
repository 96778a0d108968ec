//! Disk identity and mount resolution.
//!
//! A `ShallowDisk` is the identity of one block device: its path, its
//! kind and its ATA link. The mount table decides where a disk's
//! partitions are attached; parsing it is pure, the caller reads it.

use vstd::prelude::*;
use vstd::string::StringSliceAdditionalSpecFns;

use crate::ata::DiskAtaLink;
use crate::kind::{disk_class, disk_class_spec, DiskKind};
use crate::text::{copy_range, split_nl, split_nl_vec, split_ws, split_ws_vec, starts_with,
    starts_with_bytes};

verus! {

/// The identity of one disk: device path, kind, ATA link. Created once
/// at enumeration; immutable thereafter.
#[derive(Clone, Debug)]
pub struct ShallowDisk {
    pub path: String,
    pub kind: DiskKind,
    pub ata_link: DiskAtaLink,
}

/// The mount point a mount-table line contributes for the device at
/// `dev`: its second field, when the line names the device or one of
/// its partitions. A line with no second field offers no path to mount
/// at and is passed over.
pub open spec fn line_mount(l: Seq<u8>, dev: Seq<u8>) -> Option<Seq<u8>> {
    if starts_with(l, dev) && split_ws(l).len() >= 2 {
        Option::Some(split_ws(l)[1])
    } else {
        Option::None
    }
}

/// The mount points that the mount-table lines give the device at
/// `dev`, in table order.
pub open spec fn mounts_of(lines: Seq<Seq<u8>>, dev: Seq<u8>) -> Seq<Seq<u8>>
    decreases lines.len(),
{
    if lines.len() == 0 {
        Seq::empty()
    } else {
        let rest = mounts_of(lines.drop_first(), dev);
        match line_mount(lines.first(), dev) {
            Option::Some(m) => seq![m] + rest,
            Option::None => rest,
        }
    }
}

/// The mount points of the device at `dev_path`, parsed from the mount
/// table: one entry per line whose device field starts with the path,
/// so partitions of the disk count too.
pub fn get_mounts(dev_path: &str, table: &[u8]) -> (r: Vec<Vec<u8>>)
    ensures
        r.deep_view() == mounts_of(split_nl(table@), dev_path.spec_bytes()),
{
    let dev = dev_path.as_bytes();
    let lines = split_nl_vec(table);
    let mut out: Vec<Vec<u8>> = Vec::new();
    let mut i: usize = 0;
    proof {
        assert(lines.deep_view().subrange(0, lines.deep_view().len() as int) =~= lines.deep_view());
    }
    while i < lines.len()
        invariant
            0 <= i <= lines@.len(),
            lines.deep_view() == split_nl(table@),
            dev@ == dev_path.spec_bytes(),
            out.deep_view() + mounts_of(
                lines.deep_view().subrange(i as int, lines.deep_view().len() as int),
                dev@,
            ) =~~= mounts_of(lines.deep_view(), dev@),
        decreases lines@.len() - i,
    {
        let ghost pre = lines.deep_view().subrange(i as int, lines.deep_view().len() as int);
        proof {
            assert(pre.drop_first() =~= lines.deep_view().subrange(
                i + 1,
                lines.deep_view().len() as int,
            ));
            assert(pre.first() == lines.deep_view()[i as int]);
        }
        let ghost l = lines.deep_view()[i as int];
        let line = &lines[i];
        proof {
            assert(line@ == l);
        }
        if starts_with_bytes(line.as_slice(), dev) {
            let toks = split_ws_vec(line.as_slice());
            if toks.len() >= 2 {
                let ghost prev = out.deep_view();
                let m = copy_range(toks[1].as_slice(), 0, toks[1].len());
                proof {
                    assert(toks.deep_view() == split_ws(l));
                    assert(m@ =~= toks.deep_view()[1]);
                    assert(line_mount(l, dev@) == Option::Some(split_ws(l)[1]));
                    assert(mounts_of(pre, dev@) =~~= seq![split_ws(l)[1]] + mounts_of(
                        pre.drop_first(),
                        dev@,
                    ));
                }
                out.push(m);
                proof {
                    assert(out.deep_view() =~~= prev.push(m@));
                    assert(out.deep_view() + mounts_of(pre.drop_first(), dev@) =~~= prev
                        + mounts_of(pre, dev@));
                }
            } else {
                proof {
                    assert(toks.deep_view() == split_ws(l));
                    assert(line_mount(l, dev@) is None);
                    assert(mounts_of(pre, dev@) =~~= mounts_of(pre.drop_first(), dev@));
                }
            }
        } else {
            proof {
                assert(line_mount(l, dev@) is None);
                assert(mounts_of(pre, dev@) =~~= mounts_of(pre.drop_first(), dev@));
            }
        }
        i = i + 1;
    }
    proof {
        assert(lines.deep_view().subrange(
            lines.deep_view().len() as int,
            lines.deep_view().len() as int,
        ) =~= Seq::<Seq<u8>>::empty());
    }
    out
}

impl ShallowDisk {
    /// A disk's identity, classified from its device path and what the
    /// caller read from sysfs: the device symlink's target and the
    /// rotational flag, either `None` when missing or unreadable. The
    /// ATA link is resolved separately and passed in; classification
    /// itself cannot fail.
    pub fn new(
        path: String,
        link_target: Option<&Vec<u8>>,
        rotational: Option<&Vec<u8>>,
        ata_link: DiskAtaLink,
    ) -> (r: Self)
        ensures
            r.path@ == path@,
            r.kind == disk_class_spec(
                vstd::utf8::encode_utf8(path@),
                match link_target {
                    Some(t) => Some(t@),
                    None => None,
                },
                match rotational {
                    Some(t) => Some(t@),
                    None => None,
                },
            ),
            r.ata_link.port == ata_link.port,
            r.ata_link.speed@ == ata_link.speed@,
    {
        let kind = disk_class(path.as_str(), link_target, rotational);
        ShallowDisk { path, kind, ata_link }
    }

    /// The mount points of this disk, parsed from the mount table the
    /// caller read. A disk may have several mounts — one per mounted
    /// partition — or none at all when it is not mounted.
    pub fn mounts(&self, table: &[u8]) -> (r: Vec<Vec<u8>>)
        ensures
            r.deep_view() == mounts_of(split_nl(table@), vstd::utf8::encode_utf8(self.path@)),
    {
        get_mounts(self.path.as_str(), table)
    }
}

} // verus!
