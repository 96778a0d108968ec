//! Kernel block-device I/O counters and the hardware sector size.
//!
//! The kernel's per-disk stat file holds whitespace-separated integers in
//! a fixed positional order; unrecognized trailing fields are ignored and
//! a malformed field reads as 0.

use vstd::prelude::*;

use crate::text::{parse_u64_digits, parse_u64_or_zero, split_ws, split_ws_vec, trim_bytes,
    trimmed};

verus! {

/// The I/O counters of one disk, in the kernel's units.
#[derive(Clone, Debug, PartialEq, Eq, Structural)]
pub struct DiskStat {
    pub read_io: u64,
    pub write_io: u64,
    pub discard_io: u64,
    pub read_merge: u64,
    pub write_merge: u64,
    pub discard_merge: u64,
    pub read_sectors: u64,
    pub write_sectors: u64,
    pub discard_sectors: u64,
    pub read_ticks: u64,
    pub write_ticks: u64,
    pub discard_ticks: u64,
    pub in_flight: u64,
    pub io_ticks: u64,
    pub time_in_queue: u64,
}

/// Field `i` of a tokenized stat file: the parsed token, or 0 when the
/// file has fewer fields.
pub open spec fn stat_field(toks: Seq<Seq<u8>>, i: int) -> u64 {
    if 0 <= i < toks.len() {
        parse_u64_or_zero(toks[i])
    } else {
        0
    }
}

fn field(toks: &Vec<Vec<u8>>, i: usize) -> (r: u64)
    ensures
        r == stat_field(toks.deep_view(), i as int),
{
    if i < toks.len() {
        let r = parse_u64_digits(toks[i].as_slice());
        proof {
            assert(toks.deep_view()[i as int] == toks@[i as int]@);
        }
        r
    } else {
        0
    }
}

impl DiskStat {
    /// Parse the contents of a kernel block-stat file. The fields stand
    /// in fixed positional order; a missing or malformed field reads
    /// as 0 and trailing extra fields are ignored.
    pub fn from_disk(stat: &[u8]) -> (r: DiskStat)
        ensures
            r.read_io == stat_field(split_ws(stat@), 0),
            r.read_merge == stat_field(split_ws(stat@), 1),
            r.read_sectors == stat_field(split_ws(stat@), 2),
            r.read_ticks == stat_field(split_ws(stat@), 3),
            r.write_io == stat_field(split_ws(stat@), 4),
            r.write_merge == stat_field(split_ws(stat@), 5),
            r.write_sectors == stat_field(split_ws(stat@), 6),
            r.write_ticks == stat_field(split_ws(stat@), 7),
            r.in_flight == stat_field(split_ws(stat@), 8),
            r.io_ticks == stat_field(split_ws(stat@), 9),
            r.time_in_queue == stat_field(split_ws(stat@), 10),
            r.discard_io == stat_field(split_ws(stat@), 11),
            r.discard_merge == stat_field(split_ws(stat@), 12),
            r.discard_sectors == stat_field(split_ws(stat@), 13),
            r.discard_ticks == stat_field(split_ws(stat@), 14),
    {
        let toks = split_ws_vec(stat);
        DiskStat {
            read_io: field(&toks, 0),
            read_merge: field(&toks, 1),
            read_sectors: field(&toks, 2),
            read_ticks: field(&toks, 3),
            write_io: field(&toks, 4),
            write_merge: field(&toks, 5),
            write_sectors: field(&toks, 6),
            write_ticks: field(&toks, 7),
            in_flight: field(&toks, 8),
            io_ticks: field(&toks, 9),
            time_in_queue: field(&toks, 10),
            discard_io: field(&toks, 11),
            discard_merge: field(&toks, 12),
            discard_sectors: field(&toks, 13),
            discard_ticks: field(&toks, 14),
        }
    }
}

/// Parse the contents of the hardware sector-size sysfs file: the
/// trimmed text as an integer, or 0 when it is missing or malformed.
pub fn sector_size(contents: &[u8]) -> (r: u64)
    ensures
        r == parse_u64_or_zero(trimmed(contents@)),
{
    let t = trim_bytes(contents);
    parse_u64_digits(t.as_slice())
}

} // verus!
