//! SMART attributes: safe value objects for the records the native
//! diagnostics library enumerates, and the unit conversion their pretty
//! values carry.

use vstd::prelude::*;
use vstd::string::StringSliceAdditionalSpecFns;

use crate::convert::raw_to_string;
use crate::text::{ascii_chars, bytes_eq, hex_of};

verus! {

/// The scale of an attribute's pretty value, as the native diagnostics
/// library reports it.
#[derive(Clone, Copy, PartialEq, Eq, Structural, Debug)]
pub enum AttributeUnit {
    Unknown,
    NoUnit,
    Mseconds,
    Sectors,
    Mkelvin,
    SmallPercent,
    Percent,
    Mb,
    Max,
}

/// What a pretty value is multiplied by to reach the base unit:
/// 1,000,000 for megabytes, 1 for anything unrecognized, and 0 for the
/// degenerate sentinel unit, by design.
pub open spec fn unit_multiplier(u: AttributeUnit) -> u64 {
    match u {
        AttributeUnit::Mb => 1000000,
        AttributeUnit::Max => 0,
        _ => 1,
    }
}

/// Conversion of a value in some unit to the base unit.
pub trait Convertable {
    spec fn multiplier(&self) -> u64;

    /// The factor between this unit and the base unit.
    fn to_base_number(&self) -> (r: u64)
        ensures
            r == self.multiplier(),
    ;

    /// A value of this unit scaled to the base unit.
    fn convert_to_base(&self, value: u64) -> (r: u64)
        requires
            value * self.multiplier() <= u64::MAX,
        ensures
            r == value * self.multiplier(),
    ;
}

impl Convertable for AttributeUnit {
    open spec fn multiplier(&self) -> u64 {
        unit_multiplier(*self)
    }

    fn to_base_number(&self) -> (r: u64) {
        match self {
            AttributeUnit::Mb => 1000000,
            AttributeUnit::Max => 0,
            _ => 1,
        }
    }

    fn convert_to_base(&self, value: u64) -> (r: u64) {
        let base = self.to_base_number();
        value * base
    }
}

/// One SMART attribute, decoded from a raw record: produced fresh on
/// every read and never mutated in place.
#[derive(Clone, Debug)]
pub struct Attribute {
    /// Numerical ID of the attribute.
    pub id: u8,
    /// Name of the attribute.
    pub name: String,
    pub threshold: u8,
    pub warn: bool,
    pub current: u8,
    pub worst: u8,
    /// The pretty pair is sometimes the right thing to read; its unit
    /// scales its value.
    pub pretty_unit: AttributeUnit,
    pub pretty_value: u64,
    /// The raw counter, always six bytes.
    pub raw: [u8; 6],
}

impl PartialEq for Attribute {
    /// Equality disregards the pretty unit and the raw bytes.
    fn eq(&self, other: &Self) -> (r: bool) {
        self.id == other.id && self.name == other.name && self.threshold == other.threshold
            && self.warn == other.warn && self.current == other.current && self.worst
            == other.worst && self.pretty_value == other.pretty_value
    }
}

impl vstd::std_specs::cmp::PartialEqSpecImpl for Attribute {
    open spec fn obeys_eq_spec() -> bool {
        true
    }

    open spec fn eq_spec(&self, other: &Attribute) -> bool {
        self.id == other.id && self.name@ == other.name@ && self.threshold == other.threshold
            && self.warn == other.warn && self.current == other.current && self.worst
            == other.worst && self.pretty_value == other.pretty_value
    }
}

impl Default for Attribute {
    /// The empty attribute: zero in every counter, an empty name, an
    /// unknown unit.
    fn default() -> (r: Attribute)
        ensures
            r.id == 0,
            r.name@ == Seq::<char>::empty(),
            r.threshold == 0,
            !r.warn,
            r.current == 0,
            r.worst == 0,
            r.pretty_unit == AttributeUnit::Unknown,
            r.pretty_value == 0,
            r.raw@ =~= Seq::new(6, |i: int| 0u8),
    {
        Attribute {
            id: 0,
            name: String::new(),
            threshold: 0,
            warn: false,
            current: 0,
            worst: 0,
            pretty_unit: AttributeUnit::Unknown,
            pretty_value: 0,
            raw: [0, 0, 0, 0, 0, 0],
        }
    }
}

impl Attribute {
    /// One attribute decoded from a raw record. The threshold, current
    /// and worst counters each carry a validity flag; a field whose
    /// flag is unset reads as 0 rather than carrying uninitialized
    /// data.
    pub fn from_record(
        id: u8,
        name: String,
        threshold: u8,
        threshold_valid: bool,
        warn: bool,
        current: u8,
        current_valid: bool,
        worst: u8,
        worst_valid: bool,
        pretty_unit: AttributeUnit,
        pretty_value: u64,
        raw: [u8; 6],
    ) -> (r: Attribute)
        ensures
            r.id == id,
            r.name@ == name@,
            r.threshold == (if threshold_valid {
                threshold
            } else {
                0
            }),
            r.warn == warn,
            r.current == (if current_valid {
                current
            } else {
                0
            }),
            r.worst == (if worst_valid {
                worst
            } else {
                0
            }),
            r.pretty_unit == pretty_unit,
            r.pretty_value == pretty_value,
            r.raw@ == raw@,
    {
        Attribute {
            id,
            name,
            threshold: if threshold_valid {
                threshold
            } else {
                0
            },
            warn,
            current: if current_valid {
                current
            } else {
                0
            },
            worst: if worst_valid {
                worst
            } else {
                0
            },
            pretty_unit,
            pretty_value,
            raw,
        }
    }

    /// The raw counter as twelve lower-case hex digits.
    pub fn raw_str(&self) -> (r: String)
        ensures
            r@ == ascii_chars(hex_of(self.raw@)),
    {
        raw_to_string(self.raw)
    }
}

/// The fields of `a` are those of `b`, name compared by contents.
pub open spec fn attr_like(a: Attribute, b: Attribute) -> bool {
    &&& a.id == b.id
    &&& a.name@ == b.name@
    &&& a.threshold == b.threshold
    &&& a.warn == b.warn
    &&& a.current == b.current
    &&& a.worst == b.worst
    &&& a.pretty_unit == b.pretty_unit
    &&& a.pretty_value == b.pretty_value
    &&& a.raw@ == b.raw@
}

/// The first attribute in `attrs` whose name is `name`, or `None` when
/// no record carries that name: absence is never an error.
pub fn get_attribute(attrs: &Vec<Attribute>, name: &str) -> (r: Option<Attribute>)
    ensures
        match r {
            Some(a) => exists|k: int|
                #![trigger attrs@[k]]
                0 <= k < attrs@.len() && attrs@[k].name@ == name@ && (forall|j: int|
                    0 <= j < k ==> attrs@[j].name@ != name@) && attr_like(a, attrs@[k]),
            None => forall|k: int| 0 <= k < attrs@.len() ==> attrs@[k].name@ != name@,
        },
{
    let target = name.as_bytes();
    let mut k: usize = 0;
    while k < attrs.len()
        invariant
            0 <= k <= attrs@.len(),
            target@ == name.spec_bytes(),
            forall|j: int| 0 <= j < k ==> attrs@[j].name@ != name@,
        decreases attrs@.len() - k,
    {
        let entry = &attrs[k];
        if bytes_eq(entry.name.as_str().as_bytes(), target) {
            proof {
                vstd::utf8::encode_utf8_decode_utf8(entry.name@);
                vstd::utf8::encode_utf8_decode_utf8(name@);
                assert(entry.name@ == name@);
            }
            return Some(
                Attribute {
                    id: entry.id,
                    name: entry.name.clone(),
                    threshold: entry.threshold,
                    warn: entry.warn,
                    current: entry.current,
                    worst: entry.worst,
                    pretty_unit: entry.pretty_unit,
                    pretty_value: entry.pretty_value,
                    raw: entry.raw,
                },
            );
        }
        proof {
            assert(attrs@[k as int].name@ != name@);
        }
        k = k + 1;
    }
    None
}

} // verus!
