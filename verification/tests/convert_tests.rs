use glacierdisk::convert::{bytes_to_readable, ms_to_readable, raw_to_string,
    temperature_to_readable};

#[test]
fn bytes_zero() {
    assert_eq!(bytes_to_readable(0), "0 B");
}

#[test]
fn bytes_below_one_kib() {
    assert_eq!(bytes_to_readable(1023), "1023 B");
}

#[test]
fn bytes_one_kib() {
    assert_eq!(bytes_to_readable(1024), "1.00 KB");
}

#[test]
fn bytes_one_and_a_half_kib() {
    assert_eq!(bytes_to_readable(1536), "1.50 KB");
}

#[test]
fn bytes_one_mib() {
    assert_eq!(bytes_to_readable(1024 * 1024), "1.00 MB");
}

#[test]
fn bytes_one_gib() {
    assert_eq!(bytes_to_readable(1024 * 1024 * 1024), "1.00 GB");
}

#[test]
fn bytes_several_gib() {
    assert_eq!(bytes_to_readable(3 * 1024 * 1024 * 1024 + 512 * 1024 * 1024), "3.50 GB");
}

#[test]
fn bytes_just_under_one_mib_stay_in_kib() {
    assert_eq!(bytes_to_readable(1048575), "1024.00 KB");
}

#[test]
fn bytes_round_to_the_nearest_hundredth_ties_to_even() {
    // 1408 / 1024 = 1.375: the tie rounds to the even hundredth.
    assert_eq!(bytes_to_readable(1408), "1.38 KB");
    // 1152 / 1024 = 1.125: the tie rounds down to the even hundredth.
    assert_eq!(bytes_to_readable(1152), "1.12 KB");
}

#[test]
fn ms_below_one_second() {
    assert_eq!(ms_to_readable(500), "500 ms");
}

#[test]
fn ms_seconds() {
    assert_eq!(ms_to_readable(2500), "2.50 s");
}

#[test]
fn ms_just_under_a_minute_rounds_up() {
    assert_eq!(ms_to_readable(59999), "60.00 s");
}

#[test]
fn ms_minutes() {
    assert_eq!(ms_to_readable(90000), "1.50 m");
}

#[test]
fn ms_hours() {
    assert_eq!(ms_to_readable(7200000), "2.00 h");
}

#[test]
fn temperature_room() {
    assert_eq!(temperature_to_readable(300000), "26.85");
}

#[test]
fn temperature_unsupported_sensor() {
    assert_eq!(temperature_to_readable(0), "unknown");
}

#[test]
fn temperature_freezing_point() {
    assert_eq!(temperature_to_readable(273150), "0.00");
}

#[test]
fn temperature_below_freezing() {
    assert_eq!(temperature_to_readable(263150), "-10.00");
}

#[test]
fn raw_hex() {
    assert_eq!(raw_to_string([0, 1, 255, 16, 171, 205]), "0001ff10abcd");
}

#[test]
fn raw_hex_zeroes() {
    assert_eq!(raw_to_string([0; 6]), "000000000000");
}
