//! One consistent point-in-time view of a disk.
//!
//! A `DiskCache` composes the disk's identity, its health counters and
//! the readings the caller took from the native diagnostics library and
//! sysfs. It is built in one pass and replaced wholesale on refresh,
//! never patched incrementally.

use vstd::prelude::*;

use crate::ata::DiskAtaLink;
use crate::attribute::{attr_like, get_attribute, unit_multiplier, Attribute, Convertable};
use crate::disk::ShallowDisk;
use crate::kind::DiskKind;
use crate::smart::{overall_label, smart_to_string, SmartOverall};
use crate::text::{parse_u64_or_zero, trim_bytes, trimmed};

verus! {

/// Index of the first attribute with the given name, or -1.
pub open spec fn first_attr_index(attrs: Seq<Attribute>, name: Seq<char>) -> int
    decreases attrs.len(),
{
    if attrs.len() == 0 {
        -1
    } else if attrs.first().name@ == name {
        0
    } else {
        let r = first_attr_index(attrs.drop_first(), name);
        if r == -1 {
            -1
        } else {
            r + 1
        }
    }
}

proof fn lemma_first_attr_some(attrs: Seq<Attribute>, name: Seq<char>, k: int)
    requires
        0 <= k < attrs.len(),
        attrs[k].name@ == name,
        forall|j: int| 0 <= j < k ==> attrs[j].name@ != name,
    ensures
        first_attr_index(attrs, name) == k,
    decreases k,
{
    if k > 0 {
        lemma_first_attr_some(attrs.drop_first(), name, k - 1);
    }
}

proof fn lemma_first_attr_none(attrs: Seq<Attribute>, name: Seq<char>)
    requires
        forall|j: int| 0 <= j < attrs.len() ==> attrs[j].name@ != name,
    ensures
        first_attr_index(attrs, name) == -1,
    decreases attrs.len(),
{
    if attrs.len() > 0 {
        lemma_first_attr_none(attrs.drop_first(), name);
    }
}

/// The base-unit value of the first attribute with the given name: its
/// pretty value scaled by its unit, or 0 when the attribute is absent.
pub open spec fn total_base(attrs: Seq<Attribute>, name: Seq<char>) -> int {
    let i = first_attr_index(attrs, name);
    if i == -1 {
        0
    } else {
        attrs[i].pretty_value * unit_multiplier(attrs[i].pretty_unit)
    }
}

/// The base-unit value of the first attribute named `name`, or 0 when
/// absent or when its unit is unrecognized.
pub fn attribute_total(attrs: &Vec<Attribute>, name: &str) -> (r: u64)
    requires
        total_base(attrs@, name@) <= u64::MAX,
    ensures
        r == total_base(attrs@, name@),
{
    match get_attribute(attrs, name) {
        Some(a) => {
            proof {
                let k = choose|k: int|
                    #![trigger attrs@[k]]
                    0 <= k < attrs@.len() && attrs@[k].name@ == name@ && (forall|j: int|
                        0 <= j < k ==> attrs@[j].name@ != name@) && attr_like(a, attrs@[k]);
                lemma_first_attr_some(attrs@, name@, k);
            }
            a.pretty_unit.convert_to_base(a.pretty_value)
        },
        None => {
            proof {
                lemma_first_attr_none(attrs@, name@);
            }
            0
        },
    }
}

/// A disk's size in bytes: what the native library reported, or — when
/// that is 0 — the sysfs sector count times the standard 512-byte
/// sector.
pub fn disk_size(reported: u64, sysfs_size: &[u8]) -> (r: u64)
    requires
        parse_u64_or_zero(trimmed(sysfs_size@)) * 512 <= u64::MAX,
    ensures
        reported != 0 ==> r == reported,
        reported == 0 ==> r == parse_u64_or_zero(trimmed(sysfs_size@)) * 512,
{
    if reported != 0 {
        return reported;
    }
    let t = trim_bytes(sysfs_size);
    let sectors = crate::text::parse_u64_digits(t.as_slice());
    sectors * 512
}

/// One disk's snapshot: identity, temperature, size, the full attribute
/// set, power counters, derived totals and the overall health label.
#[derive(Clone, Debug)]
pub struct DiskCache {
    pub path: String,
    /// Temperature in millikelvin; 0 when the sensor is unsupported.
    pub temperature: u64,
    pub size: u64,
    pub attributes: Vec<Attribute>,
    pub ata_link: DiskAtaLink,
    /// Powered-on time, in the unit the disk reports (milliseconds).
    pub power_on: u64,
    pub power_cycle_count: u64,
    /// Total bytes read and written, derived from the two named
    /// attributes and 0 when they are absent.
    pub total_read: u64,
    pub total_write: u64,
    pub kind: DiskKind,
    /// The rendered overall health verdict.
    pub smart_overall: String,
}

impl DiskCache {
    /// Compose one snapshot from a disk's identity and the plain
    /// readings the caller took: temperature, resolved size, the
    /// decoded attribute records, power counters and the overall
    /// verdict. The total-bytes counters come from the
    /// "total-lbas-read" and "total-lbas-written" attributes, 0 when
    /// either is absent.
    pub fn new(
        disk: ShallowDisk,
        temperature: u64,
        size: u64,
        attributes: Vec<Attribute>,
        power_on: u64,
        power_cycle_count: u64,
        overall: SmartOverall,
    ) -> (r: DiskCache)
        requires
            total_base(attributes@, "total-lbas-written"@) <= u64::MAX,
            total_base(attributes@, "total-lbas-read"@) <= u64::MAX,
        ensures
            r.path@ == disk.path@,
            r.kind == disk.kind,
            r.ata_link.port == disk.ata_link.port,
            r.ata_link.speed@ == disk.ata_link.speed@,
            r.temperature == temperature,
            r.size == size,
            r.attributes@ == attributes@,
            r.power_on == power_on,
            r.power_cycle_count == power_cycle_count,
            r.total_write == total_base(attributes@, "total-lbas-written"@),
            r.total_read == total_base(attributes@, "total-lbas-read"@),
            r.smart_overall@ == overall_label(overall),
    {
        let total_write = attribute_total(&attributes, "total-lbas-written");
        let total_read = attribute_total(&attributes, "total-lbas-read");
        let smart_overall = smart_to_string(overall);
        DiskCache {
            path: disk.path,
            temperature,
            size,
            attributes,
            ata_link: disk.ata_link,
            power_on,
            power_cycle_count,
            total_read,
            total_write,
            kind: disk.kind,
            smart_overall,
        }
    }

    /// The device path this snapshot was taken of.
    pub fn path(&self) -> (r: &String)
        ensures
            r@ == self.path@,
    {
        &self.path
    }

    /// Temperature in millikelvin; 0 when the sensor is unsupported.
    pub fn temperature(&self) -> (r: u64)
        ensures
            r == self.temperature,
    {
        self.temperature
    }

    /// The disk's size in bytes.
    pub fn size(&self) -> (r: u64)
        ensures
            r == self.size,
    {
        self.size
    }

    /// The full attribute set of the enumeration pass.
    pub fn attributes(&self) -> (r: &Vec<Attribute>)
        ensures
            r@ == self.attributes@,
    {
        &self.attributes
    }

    /// The disk's ATA link.
    pub fn ata_link(&self) -> (r: &DiskAtaLink)
        ensures
            r.port == self.ata_link.port,
            r.speed@ == self.ata_link.speed@,
    {
        &self.ata_link
    }

    /// Powered-on time, as the disk reports it.
    pub fn power_on(&self) -> (r: u64)
        ensures
            r == self.power_on,
    {
        self.power_on
    }

    /// How often the disk was powered on.
    pub fn power_cycle_count(&self) -> (r: u64)
        ensures
            r == self.power_cycle_count,
    {
        self.power_cycle_count
    }

    /// Total bytes read, from the "total-lbas-read" attribute.
    pub fn total_read(&self) -> (r: u64)
        ensures
            r == self.total_read,
    {
        self.total_read
    }

    /// Total bytes written, from the "total-lbas-written" attribute.
    pub fn total_write(&self) -> (r: u64)
        ensures
            r == self.total_write,
    {
        self.total_write
    }

    /// The disk's kind.
    pub fn kind(&self) -> (r: &DiskKind)
        ensures
            *r == self.kind,
    {
        &self.kind
    }

    /// The rendered overall health verdict.
    pub fn smart_overall(&self) -> (r: &str)
        ensures
            r@ == self.smart_overall@,
    {
        self.smart_overall.as_str()
    }
}

} // verus!
