use glacierdisk::sysfs::{sector_size, DiskStat};

#[test]
fn parses_a_stat_line() {
    let stat = b"  141462    22246  9401441    55619   106463   117133 14920816   121569 \
                 0   115516   183615     5631        0 18157416     6426";
    let s = DiskStat::from_disk(stat);
    assert_eq!(s.read_io, 141462);
    assert_eq!(s.read_merge, 22246);
    assert_eq!(s.read_sectors, 9401441);
    assert_eq!(s.read_ticks, 55619);
    assert_eq!(s.write_io, 106463);
    assert_eq!(s.write_merge, 117133);
    assert_eq!(s.write_sectors, 14920816);
    assert_eq!(s.write_ticks, 121569);
    assert_eq!(s.in_flight, 0);
    assert_eq!(s.io_ticks, 115516);
    assert_eq!(s.time_in_queue, 183615);
    assert_eq!(s.discard_io, 5631);
    assert_eq!(s.discard_merge, 0);
    assert_eq!(s.discard_sectors, 18157416);
    assert_eq!(s.discard_ticks, 6426);
}

#[test]
fn short_stat_reads_missing_fields_as_zero() {
    let s = DiskStat::from_disk(b"5 6 7 8");
    assert_eq!(s.read_io, 5);
    assert_eq!(s.read_merge, 6);
    assert_eq!(s.read_sectors, 7);
    assert_eq!(s.read_ticks, 8);
    assert_eq!(s.write_io, 0);
    assert_eq!(s.discard_ticks, 0);
}

#[test]
fn trailing_extra_fields_are_ignored() {
    let s = DiskStat::from_disk(b"1 2 3 4 5 6 7 8 9 10 11 12 13 14 15 16 17 18");
    assert_eq!(s.read_io, 1);
    assert_eq!(s.discard_ticks, 15);
}

#[test]
fn malformed_field_reads_as_zero() {
    let s = DiskStat::from_disk(b"abc 2");
    assert_eq!(s.read_io, 0);
    assert_eq!(s.read_merge, 2);
}

#[test]
fn sector_size_trims_and_parses() {
    assert_eq!(sector_size(b"512\n"), 512);
    assert_eq!(sector_size(b"  4096  "), 4096);
}

#[test]
fn sector_size_of_missing_or_malformed_content_is_zero() {
    assert_eq!(sector_size(b""), 0);
    assert_eq!(sector_size(b"not-a-number\n"), 0);
}
