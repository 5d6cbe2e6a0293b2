use ytdlp_core::parse::{parse_eta_to_seconds, parse_size_to_bytes, parse_speed_to_bytes_per_sec};

#[test]
fn size_binary_units() {
    assert_eq!(parse_size_to_bytes("10.15GiB"), 10898479513);
    assert_eq!(parse_size_to_bytes("364.32MiB"), 382017208);
    assert_eq!(parse_size_to_bytes("1.5KiB"), 1536);
    assert_eq!(parse_size_to_bytes("1B"), 1);
}

#[test]
fn size_decimal_units_use_1024() {
    // decimal-looking units use the same 1024-based multipliers
    assert_eq!(parse_size_to_bytes("1.5KB"), 1536);
    assert_eq!(parse_size_to_bytes("2MB"), 2097152);
    assert_eq!(parse_size_to_bytes("3GB"), 3221225472);
}

#[test]
fn size_case_insensitive_units() {
    assert_eq!(parse_size_to_bytes("3gb"), 3221225472);
    assert_eq!(parse_size_to_bytes("10.15gib"), 10898479513);
    assert_eq!(parse_size_to_bytes("1.5kb"), 1536);
}

#[test]
fn size_unknown_unit_multiplier_one() {
    assert_eq!(parse_size_to_bytes("123XY"), 123);
    assert_eq!(parse_size_to_bytes("7.9Q"), 7);
}

#[test]
fn size_malformed_tokens_parse_to_zero() {
    assert_eq!(parse_size_to_bytes(""), 0);
    assert_eq!(parse_size_to_bytes("garbage"), 0);
    assert_eq!(parse_size_to_bytes("10.15"), 0);
    assert_eq!(parse_size_to_bytes("1.2.3GB"), 0);
    assert_eq!(parse_size_to_bytes(".GiB"), 0);
    assert_eq!(parse_size_to_bytes("-5GB"), 0);
}

#[test]
fn size_trims_whitespace() {
    assert_eq!(parse_size_to_bytes("  10.15GiB  "), 10898479513);
}

#[test]
fn speed_strips_per_second_suffix() {
    assert_eq!(parse_speed_to_bytes_per_sec("49.23MiB/s"), 51621396);
    assert_eq!(parse_speed_to_bytes_per_sec("28.36MiB/s"), 29737615);
    assert_eq!(parse_speed_to_bytes_per_sec("  1.5KB/s "), 1536);
    assert_eq!(parse_speed_to_bytes_per_sec("1.5KB"), 1536);
}

#[test]
fn eta_two_fields() {
    assert_eq!(parse_eta_to_seconds("03:26"), 206);
}

#[test]
fn eta_three_fields() {
    assert_eq!(parse_eta_to_seconds("01:03:26"), 3806);
}

#[test]
fn eta_other_shapes_are_zero() {
    assert_eq!(parse_eta_to_seconds("garbage"), 0);
    assert_eq!(parse_eta_to_seconds(""), 0);
    assert_eq!(parse_eta_to_seconds("1:2:3:4"), 0);
    assert_eq!(parse_eta_to_seconds("::"), 0);
    assert_eq!(parse_eta_to_seconds("aa:bb"), 0);
}

#[test]
fn eta_ignores_nothing_else() {
    assert_eq!(parse_eta_to_seconds("00:00:12"), 12);
    assert_eq!(parse_eta_to_seconds("10:00"), 600);
}
