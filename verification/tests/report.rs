use docker_image_tool::report::{format_mb, size_reduction};

fn in_double_precision(bytes: u64) -> String {
    let mb = bytes as f64 / (1024.0 * 1024.0);
    format!("{:.2} MB", mb)
}

#[test]
fn format_mb_writes_two_decimals() {
    assert_eq!(format_mb(0), "0.00 MB");
    assert_eq!(format_mb(1), "0.00 MB");
    assert_eq!(format_mb(1024 * 1024), "1.00 MB");
    assert_eq!(format_mb(1536 * 1024), "1.50 MB");
    assert_eq!(format_mb(123_456_789), "117.74 MB");
    assert_eq!(format_mb(10 * 1024 * 1024 * 1024), "10240.00 MB");
    assert_eq!(format_mb(u64::MAX), "17592186044416.00 MB");
}

#[test]
fn format_mb_rounds_a_tie_to_the_even_digit() {
    // 0.125 MB, 0.375 MB: halfway between two hundredths.
    assert_eq!(format_mb(131_072), "0.12 MB");
    assert_eq!(format_mb(393_216), "0.38 MB");
    assert_eq!(format_mb(131_071), "0.12 MB");
    assert_eq!(format_mb(131_073), "0.13 MB");
    // 0.005 MB is no tie: 5242.88 bytes.
    assert_eq!(format_mb(5_242), "0.00 MB");
    assert_eq!(format_mb(5_243), "0.01 MB");
}

#[test]
fn format_mb_agrees_with_double_precision_on_small_sizes() {
    for bytes in 0..200_000u64 {
        assert_eq!(format_mb(bytes), in_double_precision(bytes), "{}", bytes);
    }
}

#[test]
fn format_mb_agrees_with_double_precision_on_ties() {
    for odd in 0..20_000u64 {
        let bytes = (2 * odd + 1) * 131_072;
        assert_eq!(format_mb(bytes), in_double_precision(bytes), "{}", bytes);
        assert_eq!(
            format_mb(bytes - 1),
            in_double_precision(bytes - 1),
            "{}",
            bytes - 1
        );
        assert_eq!(
            format_mb(bytes + 1),
            in_double_precision(bytes + 1),
            "{}",
            bytes + 1
        );
    }
}

#[test]
fn format_mb_agrees_with_double_precision_on_spread_sizes() {
    let mut bytes: u64 = 1;
    let mut seed: u64 = 0x9e37_79b9_7f4a_7c15;
    for _ in 0..200_000 {
        seed = seed
            .wrapping_mul(6_364_136_223_846_793_005)
            .wrapping_add(1_442_695_040_888_963_407);
        bytes = seed >> (seed % 64);
        assert_eq!(format_mb(bytes), in_double_precision(bytes), "{}", bytes);
    }
    assert!(bytes > 0 || bytes == 0);
}

#[test]
fn format_mb_agrees_with_double_precision_beyond_53_bits() {
    let edges = [
        (1u64 << 53) - 1,
        1u64 << 53,
        (1u64 << 53) + 1,
        (1u64 << 53) + 2,
        (1u64 << 53) + 3,
        (1u64 << 54) + 2,
        (1u64 << 54) + 6,
        (1u64 << 60) + 64,
        (1u64 << 60) + 192,
        (1u64 << 63) + 1024,
        (1u64 << 63) + 3072,
        u64::MAX - 1023,
        u64::MAX - 1024,
        u64::MAX,
    ];
    for bytes in edges {
        assert_eq!(format_mb(bytes), in_double_precision(bytes), "{}", bytes);
    }
    for shift in 0..11u32 {
        for k in 0..2_000u64 {
            let bytes = ((1u64 << 53) + 2 * k + 1) << shift;
            let bytes = bytes + (1u64 << shift) / 2 + k % 3;
            assert_eq!(format_mb(bytes), in_double_precision(bytes), "{}", bytes);
        }
    }
}

#[test]
fn size_reduction_never_goes_below_zero() {
    assert_eq!(size_reduction(10, 3), 7);
    assert_eq!(size_reduction(3, 3), 0);
    assert_eq!(size_reduction(3, 10), 0);
    assert_eq!(size_reduction(u64::MAX, 0), u64::MAX);
}
