use brush::library::format_age;
use brush::size_format::{format_bytes, format_size, push_decimal};

fn std_bytes(bytes: u64) -> String {
    const KB: u64 = 1024;
    const MB: u64 = KB * 1024;
    const GB: u64 = MB * 1024;
    if bytes < KB {
        format!("{} B", bytes)
    } else if bytes < MB {
        format!("{:.2} KB", bytes as f64 / KB as f64)
    } else if bytes < GB {
        format!("{:.2} MB", bytes as f64 / MB as f64)
    } else {
        format!("{:.2} GB", bytes as f64 / GB as f64)
    }
}

fn std_size(size: u64) -> String {
    const KB: u64 = 1024;
    const MB: u64 = KB * 1024;
    const GB: u64 = MB * 1024;
    if size < KB {
        format!("{} B", size)
    } else if size < MB {
        format!("{:.1} KB", size as f64 / KB as f64)
    } else if size < GB {
        format!("{:.1} MB", size as f64 / MB as f64)
    } else {
        format!("{:.1} GB", size as f64 / GB as f64)
    }
}

fn samples() -> Vec<u64> {
    let mut v: Vec<u64> = vec![
        0,
        1,
        999,
        1023,
        1024,
        1025,
        1152,
        1280,
        1536,
        1541,
        2047,
        2048,
        10 * 1024 + 5,
        1024 * 1024 - 1,
        1024 * 1024,
        1024 * 1024 + 5243,
        5 * 1024 * 1024 + 1024 * 1024 / 8,
        1024 * 1024 * 1024 - 1,
        1024 * 1024 * 1024,
        3 * 1024 * 1024 * 1024 + 1024 * 1024 * 1024 / 4,
        1 << 40,
        (1 << 53) + 1,
        (1 << 60) + 12345,
        u64::MAX - 1,
        u64::MAX,
    ];
    let mut x: u64 = 0x9e37_79b9_7f4a_7c15;
    for _ in 0..2000 {
        x ^= x << 13;
        x ^= x >> 7;
        x ^= x << 17;
        v.push(x >> (x % 64));
    }
    for k in 0..4096u64 {
        v.push(1024 + k * 37);
        v.push(1024 * 1024 + k * 1024 * 5 / 16);
    }
    v
}

#[test]
fn format_bytes_small_counts_are_plain() {
    assert_eq!(format_bytes(0), "0 B");
    assert_eq!(format_bytes(512), "512 B");
    assert_eq!(format_bytes(1023), "1023 B");
}

#[test]
fn format_bytes_scaled_values() {
    assert_eq!(format_bytes(1024), "1.00 KB");
    assert_eq!(format_bytes(1536), "1.50 KB");
    assert_eq!(format_bytes(2 * 1024 * 1024), "2.00 MB");
    assert_eq!(format_bytes(3 * 1024 * 1024 * 1024 + 1024 * 1024 * 1024 / 4), "3.25 GB");
}

#[test]
fn format_bytes_matches_float_formatting() {
    for b in samples() {
        assert_eq!(format_bytes(b), std_bytes(b), "bytes = {}", b);
    }
}

#[test]
fn format_bytes_ties_round_like_float_formatting() {
    // 1152 / 1024 = 1.125 exactly: a tie at two decimals.
    assert_eq!(format_bytes(1152), std_bytes(1152));
    assert_eq!(format_bytes(1152 + 256), std_bytes(1152 + 256));
    assert_eq!(format_bytes(1024 + 1024 * 3 / 8), std_bytes(1024 + 1024 * 3 / 8));
}

#[test]
fn format_size_matches_float_formatting() {
    for b in samples() {
        assert_eq!(format_size(b), std_size(b), "size = {}", b);
    }
}

#[test]
fn format_size_examples() {
    assert_eq!(format_size(512), "512 B");
    assert_eq!(format_size(1536), "1.5 KB");
    assert_eq!(format_size(2 * 1024 * 1024), "2.0 MB");
    // 1.25 exactly: a tie at one decimal.
    assert_eq!(format_size(1280), std_size(1280));
}

#[test]
fn push_decimal_writes_digits() {
    let mut v: Vec<char> = vec!['x'];
    push_decimal(&mut v, 0);
    push_decimal(&mut v, 907);
    push_decimal(&mut v, u64::MAX);
    let s: String = v.into_iter().collect();
    assert_eq!(s, format!("x0907{}", u64::MAX));
}

#[test]
fn format_age_buckets() {
    assert_eq!(format_age(None), "Unknown date");
    assert_eq!(format_age(Some(0)), "Just now");
    assert_eq!(format_age(Some(59)), "Just now");
    assert_eq!(format_age(Some(60)), "1 minutes ago");
    assert_eq!(format_age(Some(3599)), "59 minutes ago");
    assert_eq!(format_age(Some(3600)), "1 hours ago");
    assert_eq!(format_age(Some(86399)), "23 hours ago");
    assert_eq!(format_age(Some(86400)), "1 days ago");
    assert_eq!(format_age(Some(86400 * 40 + 5)), "40 days ago");
}

#[test]
fn shown_size_is_nearest() {
    // 1.5 KB + 5 bytes: 1541 / 1024 = 1.50488..., shown as 1.50.
    assert_eq!(format_bytes(1541), "1.50 KB");
    // 1.005859375 KB rounds up to 1.01.
    assert_eq!(format_bytes(1030), "1.01 KB");
    for b in [1030u64, 1541, 99_999, 123_456_789] {
        let shown: f64 = format_bytes(b).split(' ').next().unwrap().parse().unwrap();
        let unit = if b < 1 << 20 { 1024.0 } else if b < 1 << 30 { 1048576.0 } else { 1073741824.0 };
        assert!((shown - b as f64 / unit).abs() <= 0.005 + 1e-12);
    }
}
