use fleetops::sizes::{format_bytes, parse_size_threshold, SizeError};

#[test]
fn test_format_bytes() {
    assert_eq!(format_bytes(0), "0B");
    assert_eq!(format_bytes(1023), "1023B");
    assert_eq!(format_bytes(1024), "1KB");
    assert_eq!(format_bytes(1024 * 1024), "1MB");
    assert_eq!(format_bytes(1024 * 1024 * 1024), "1.00GB");
    assert_eq!(format_bytes(1536 * 1024 * 1024), "1.50GB");
}

#[test]
fn test_parse_size_threshold() {
    assert_eq!(parse_size_threshold("100").unwrap(), 100);
    assert_eq!(parse_size_threshold("100K").unwrap(), 100 * 1024);
    assert_eq!(parse_size_threshold("100M").unwrap(), 100 * 1024 * 1024);
    assert_eq!(parse_size_threshold("1G").unwrap(), 1024 * 1024 * 1024);
    assert_eq!(parse_size_threshold("100m").unwrap(), 100 * 1024 * 1024);
}

fn float_form(bytes: u64) -> String {
    const GB: u64 = 1024 * 1024 * 1024;
    format!("{:.2}GB", bytes as f64 / GB as f64)
}

#[test]
fn format_bytes_agrees_with_binary64_on_ties_and_large_sizes() {
    let gb: u64 = 1 << 30;
    let mut samples: Vec<u64> = vec![
        gb,
        gb + 1,
        u64::MAX,
        u64::MAX - 1,
        u64::MAX - 1024,
        u64::MAX - 2048,
        (1 << 53) - 1,
        1 << 53,
        (1 << 53) + 1,
        (1 << 53) + 2,
        (1 << 53) + 3,
        (1 << 54) + 2,
        (1 << 54) + 6,
        (1 << 63) + 1024,
        (1 << 63) + 3072,
        (1 << 63) - 512,
    ];
    // exact ties of the second decimal: odd multiples of 2^27 / ... are x.xx5 in GiB
    let mut k: u64 = 1;
    while k < 4000 {
        samples.push(gb + k * (1 << 27));
        samples.push(gb + k * (1 << 27) + 1);
        samples.push(gb + k * (1 << 27) - 1);
        samples.push(k * 5368709 + gb);
        samples.push(k * 5368709120 + k);
        samples.push((1 << 53) + k * 1234567891);
        samples.push(u64::MAX - k * 987654321987);
        k += 1;
    }
    for n in samples {
        assert_eq!(format_bytes(n), float_form(n), "size {}", n);
    }
}

#[test]
fn format_bytes_rounds_down_below_a_gib() {
    assert_eq!(format_bytes(1024 * 1024 * 1024 - 1), "1023MB");
    assert_eq!(format_bytes(1024 * 1024 - 1), "1023KB");
    assert_eq!(format_bytes(2047), "1KB");
}

#[test]
fn parse_size_threshold_rejects_what_is_no_number() {
    assert_eq!(parse_size_threshold(""), Err(SizeError::InvalidNumber));
    assert_eq!(parse_size_threshold("M"), Err(SizeError::InvalidNumber));
    assert_eq!(parse_size_threshold("1.5G"), Err(SizeError::InvalidNumber));
    assert_eq!(parse_size_threshold("-1"), Err(SizeError::InvalidNumber));
    assert_eq!(parse_size_threshold("12 K"), Err(SizeError::InvalidNumber));
}

#[test]
fn parse_size_threshold_reports_overflow() {
    assert_eq!(parse_size_threshold("18446744073709551615").unwrap(), u64::MAX);
    assert_eq!(parse_size_threshold("18446744073709551616"), Err(SizeError::TooLarge));
    assert_eq!(parse_size_threshold("17179869184G"), Err(SizeError::TooLarge));
    assert_eq!(parse_size_threshold("17179869183G").unwrap(), 17179869183 * 1024 * 1024 * 1024);
}

#[test]
fn parse_size_threshold_trims_and_accepts_a_plus_sign() {
    assert_eq!(parse_size_threshold("  5k \n").unwrap(), 5 * 1024);
    assert_eq!(parse_size_threshold("+7").unwrap(), 7);
}
