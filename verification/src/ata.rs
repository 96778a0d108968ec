//! Resolution of a disk's SATA port from the device-by-path links.
//!
//! Each candidate link pairs a link file name with the target the link
//! points at. A link belongs to the disk when its target ends in
//! "/<base name>"; it names a plain ATA port when its file name holds an
//! "ata-" token whose following segment has no part or sub-link marker.

use vstd::prelude::*;
use vstd::string::StringSliceAdditionalSpecFns;

use crate::DiskError;
use crate::text::{basename, basename_bytes, contains_seq, copy_range, ends_with,
    ends_with_bytes, find_bytes, match_at, parse_u8_digits, parse_u8_or_zero};

verus! {

/// One entry of the device-by-path directory: the link's own file name
/// and the path its target resolves to.
#[derive(Clone, Debug)]
pub struct LinkEntry {
    pub name: Vec<u8>,
    pub target: Vec<u8>,
}

/// A disk's ATA link: its port number and the negotiated speed string.
#[derive(Clone, Debug, PartialEq)]
pub struct DiskAtaLink {
    pub port: u8,
    pub speed: String,
}

impl Default for DiskAtaLink {
    /// The placeholder link of a disk without one: port 0, speed
    /// "unknown".
    fn default() -> (r: Self)
        ensures
            r.port == 0,
            r.speed@ == "unknown"@,
    {
        DiskAtaLink { port: 0, speed: String::from_str("unknown") }
    }
}

pub open spec fn ata_pat() -> Seq<u8> {
    "ata-"@.map_values(|c: char| c as u8)
}

pub open spec fn dot_pat() -> Seq<u8> {
    "."@.map_values(|c: char| c as u8)
}

pub open spec fn part_pat() -> Seq<u8> {
    "part"@.map_values(|c: char| c as u8)
}

/// Index of the first occurrence of `pat` at or after `i`, or -1.
pub open spec fn first_match_from(s: Seq<u8>, pat: Seq<u8>, i: int) -> int
    decreases s.len() - i,
    when 0 <= i && pat.len() >= 1
{
    if i + pat.len() > s.len() {
        -1
    } else if match_at(s, pat, i) {
        i
    } else {
        first_match_from(s, pat, i + 1)
    }
}

proof fn lemma_first_match_some(s: Seq<u8>, pat: Seq<u8>, a: int, i: int)
    requires
        pat.len() >= 1,
        0 <= a <= i,
        match_at(s, pat, i),
        forall|j: int| a <= j < i ==> !match_at(s, pat, j),
    ensures
        first_match_from(s, pat, a) == i,
    decreases i - a,
{
    if a < i {
        lemma_first_match_some(s, pat, a + 1, i);
    }
}

proof fn lemma_first_match_none(s: Seq<u8>, pat: Seq<u8>, a: int)
    requires
        pat.len() >= 1,
        0 <= a,
        forall|j: int| a <= j ==> !match_at(s, pat, j),
    ensures
        first_match_from(s, pat, a) == -1,
    decreases s.len() - a,
{
    if a + pat.len() <= s.len() {
        lemma_first_match_none(s, pat, a + 1);
    }
}

/// The segment of a link name after its first "ata-" token, up to the
/// next "ata-" token if the name has another.
pub open spec fn port_segment(name: Seq<u8>) -> Seq<u8>
    recommends
        contains_seq(name, ata_pat()),
{
    let start = first_match_from(name, ata_pat(), 0) + 4;
    let next = first_match_from(name, ata_pat(), start);
    if next == -1 {
        name.subrange(start, name.len() as int)
    } else {
        name.subrange(start, next)
    }
}

/// The port a link name encodes: its port segment as a number, or 0
/// when the segment is not a plain decimal.
pub open spec fn entry_port(name: Seq<u8>) -> u8 {
    parse_u8_or_zero(port_segment(name))
}

/// The link entry that attaches `disk` to an ATA port: its target ends
/// in "/<disk>", its name holds an "ata-" token, and the port segment
/// carries no sub-link dot and no partition marker.
pub open spec fn entry_matches(name: Seq<u8>, target: Seq<u8>, disk: Seq<u8>) -> bool {
    &&& ends_with(target, seq![47u8] + disk)
    &&& contains_seq(name, ata_pat())
    &&& !contains_seq(port_segment(name), dot_pat())
    &&& !contains_seq(port_segment(name), part_pat())
}

/// Decide whether one link entry attaches `disk_name` to an ATA port,
/// and hand back the port it encodes.
fn entry_port_exec(name: &Vec<u8>, target: &Vec<u8>, slash_disk: &Vec<u8>, ghost_disk: Ghost<
    Seq<u8>,
>) -> (r: Option<u8>)
    requires
        slash_disk@ == seq![47u8] + ghost_disk@,
    ensures
        match r {
            Some(p) => entry_matches(name@, target@, ghost_disk@) && p == entry_port(name@),
            None => !entry_matches(name@, target@, ghost_disk@),
        },
{
    proof {
        vstd::string::is_ascii_spec_bytes("ata-");
        vstd::string::is_ascii_spec_bytes(".");
        vstd::string::is_ascii_spec_bytes("part");
        reveal_strlit("ata-");
        reveal_strlit(".");
        reveal_strlit("part");
        assert("ata-".spec_bytes() =~= ata_pat());
        assert(".".spec_bytes() =~= dot_pat());
        assert("part".spec_bytes() =~= part_pat());
    }
    if !ends_with_bytes(target.as_slice(), slash_disk.as_slice()) {
        return None;
    }
    let n = name.len();
    let f = match find_bytes(name.as_slice(), "ata-".as_bytes()) {
        Some(f) => f,
        None => {
            proof {
                lemma_first_match_none(name@, ata_pat(), 0);
            }
            return None;
        },
    };
    proof {
        lemma_first_match_some(name@, ata_pat(), 0, f as int);
        assert(f + 4 <= n);
    }
    let start = f + 4;
    let suffix = copy_range(name.as_slice(), start, n);
    let seg = match find_bytes(suffix.as_slice(), "ata-".as_bytes()) {
        Some(g) => {
            proof {
                assert(suffix@.subrange(g as int, g + 4) =~= name@.subrange(
                    start + g,
                    start + g + 4,
                ));
                assert(match_at(name@, ata_pat(), start + g));
                assert forall|j: int| start <= j < start + g implies !match_at(
                    name@,
                    ata_pat(),
                    j,
                ) by {
                    let jp = j - start;
                    assert(!match_at(suffix@, "ata-".spec_bytes(), jp));
                    if match_at(name@, ata_pat(), j) {
                        assert(suffix@.subrange(jp, jp + 4) =~= name@.subrange(j, j + 4));
                        assert(match_at(suffix@, ata_pat(), jp));
                    }
                }
                lemma_first_match_some(name@, ata_pat(), start as int, start + g);
                assert(port_segment(name@) =~= suffix@.subrange(0, g as int));
            }
            copy_range(suffix.as_slice(), 0, g)
        },
        None => {
            proof {
                assert forall|j: int| start <= j implies !match_at(name@, ata_pat(), j) by {
                    let jp = j - start;
                    if match_at(name@, ata_pat(), j) {
                        assert(suffix@.subrange(jp, jp + 4) =~= name@.subrange(j, j + 4));
                        assert(match_at(suffix@, ata_pat(), jp));
                        assert(contains_seq(suffix@, "ata-".spec_bytes()));
                    }
                }
                lemma_first_match_none(name@, ata_pat(), start as int);
                assert(port_segment(name@) =~= suffix@);
            }
            suffix
        },
    };
    if let Some(_) = find_bytes(seg.as_slice(), ".".as_bytes()) {
        return None;
    }
    if let Some(_) = find_bytes(seg.as_slice(), "part".as_bytes()) {
        return None;
    }
    Some(parse_u8_digits(seg.as_slice()))
}

impl DiskAtaLink {
    /// Resolve the ATA port of the disk at `disk` (a device path; its
    /// base name is matched) from the device-by-path entries in
    /// `links`, taking the first entry that attaches the disk to a
    /// plain ATA port. `NotFound` — expected for USB and NVMe disks —
    /// when no entry does; the caller then renders the link as unknown.
    /// The negotiated speed is read afterwards from the port's sysfs
    /// file, which this decision does not touch.
    pub fn for_disk(disk: &str, links: &Vec<LinkEntry>) -> (r: Result<u8, DiskError>)
        ensures
            match r {
                Ok(p) => exists|k: int|
                    #![trigger links@[k]]
                    0 <= k < links@.len() && entry_matches(
                        links@[k].name@,
                        links@[k].target@,
                        basename(disk.spec_bytes()),
                    ) && (forall|j: int|
                        0 <= j < k ==> !entry_matches(
                            links@[j].name@,
                            links@[j].target@,
                            basename(disk.spec_bytes()),
                        )) && p == entry_port(links@[k].name@),
                Err(e) => e == DiskError::NotFound && forall|k: int|
                    0 <= k < links@.len() ==> !entry_matches(
                        links@[k].name@,
                        links@[k].target@,
                        basename(disk.spec_bytes()),
                    ),
            },
    {
        let base = basename_bytes(disk.as_bytes());
        let mut slash_disk: Vec<u8> = Vec::new();
        slash_disk.push(47);
        let mut i: usize = 0;
        while i < base.len()
            invariant
                0 <= i <= base@.len(),
                slash_disk@ =~= seq![47u8] + base@.subrange(0, i as int),
            decreases base@.len() - i,
        {
            slash_disk.push(base[i]);
            i = i + 1;
        }
        proof {
            assert(slash_disk@ =~= seq![47u8] + base@);
        }
        let ghost bn = basename(disk.spec_bytes());
        let mut k: usize = 0;
        while k < links.len()
            invariant
                0 <= k <= links@.len(),
                base@ == bn,
                bn == basename(disk.spec_bytes()),
                slash_disk@ == seq![47u8] + bn,
                forall|j: int|
                    0 <= j < k ==> !entry_matches(links@[j].name@, links@[j].target@, bn),
            decreases links@.len() - k,
        {
            let entry = &links[k];
            if let Some(p) = entry_port_exec(&entry.name, &entry.target, &slash_disk, Ghost(bn)) {
                return Ok(p);
            }
            k = k + 1;
        }
        Err(DiskError::NotFound)
    }
}

} // verus!
