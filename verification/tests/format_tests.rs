use desktop_gpui::{format_bytes, format_uptime};

/// Reference rendering with floating point, the way the desktop UI has
/// always printed sizes.
fn float_reference(bytes: u64) -> String {
    let v = bytes as f64;
    let kib = 1024.0_f64;
    let (div, unit) = if v >= kib * kib * kib * kib {
        (kib * kib * kib * kib, "Ti")
    } else if v >= kib * kib * kib {
        (kib * kib * kib, "Gi")
    } else if v >= kib * kib {
        (kib * kib, "Mi")
    } else if v >= kib {
        (kib, "Ki")
    } else {
        return format!("{:.0} B", v);
    };
    format!("{0:.1$} {2}B", v / div, 2, unit)
}

#[test]
fn format_bytes_small_values_are_whole_bytes() {
    assert_eq!(format_bytes(0), "0 B");
    assert_eq!(format_bytes(1), "1 B");
    assert_eq!(format_bytes(1023), "1023 B");
}

#[test]
fn format_bytes_unit_boundaries() {
    assert_eq!(format_bytes(1024), "1.00 KiB");
    assert_eq!(format_bytes(1536), "1.50 KiB");
    assert_eq!(format_bytes(1048576), "1.00 MiB");
    assert_eq!(format_bytes(1073741824), "1.00 GiB");
    assert_eq!(format_bytes(1099511627776), "1.00 TiB");
    assert_eq!(format_bytes(1048575), "1024.00 KiB");
}

#[test]
fn format_bytes_ties_round_to_even() {
    // 1.125 KiB and 1.375 KiB are exact halves of a hundredth.
    assert_eq!(format_bytes(1152), "1.12 KiB");
    assert_eq!(format_bytes(1408), "1.38 KiB");
}

#[test]
fn format_bytes_matches_float_rendering() {
    let mut b: u64 = 0;
    while b < 300_000 {
        assert_eq!(format_bytes(b), float_reference(b), "bytes = {}", b);
        b += 7;
    }
    let samples: [u64; 12] = [
        u64::MAX,
        u64::MAX - 1,
        (1u64 << 53) + 1,
        (1u64 << 53) + 3,
        (1u64 << 60) + 12345,
        1234567890123,
        999_999_999_999,
        5 * (1u64 << 40) + 17,
        (1u64 << 40) - 1,
        (1u64 << 30) - 1,
        (1u64 << 20) + 5242,
        18_000_000_000_000_000_000,
    ];
    for s in samples {
        assert_eq!(format_bytes(s), float_reference(s), "bytes = {}", s);
    }
    let mut x: u64 = 0x9e3779b97f4a7c15;
    for _ in 0..20000 {
        x ^= x << 13;
        x ^= x >> 7;
        x ^= x << 17;
        let shift = (x % 64) as u32;
        let v = x >> shift;
        assert_eq!(format_bytes(v), float_reference(v), "bytes = {}", v);
    }
}

#[test]
fn format_uptime_variants() {
    assert_eq!(format_uptime(0), "0s");
    assert_eq!(format_uptime(59), "59s");
    assert_eq!(format_uptime(61), "1m 1s");
    assert_eq!(format_uptime(3600), "1h 0m 0s");
    assert_eq!(format_uptime(3725), "1h 2m 5s");
    assert_eq!(format_uptime(86400), "1d 0h 0m");
    assert_eq!(format_uptime(90061), "1d 1h 1m");
}

#[test]
fn uptime_parts_recompose() {
    for s in [0u64, 59, 61, 3599, 3725, 86399, 86400, 90061, 1_000_000] {
        let t = format_uptime(s);
        let nums: Vec<u64> = t.split(' ').map(|p| p[..p.len() - 1].parse().unwrap()).collect();
        let units: Vec<char> = t.split(' ').map(|p| p.chars().last().unwrap()).collect();
        let mut total = 0;
        for (n, u) in nums.iter().zip(units.iter()) {
            total += n * match u {
                'd' => 86400,
                'h' => 3600,
                'm' => 60,
                _ => 1,
            };
        }
        if units[0] == 'd' {
            assert_eq!(total, s - s % 60, "{}", t);
        } else {
            assert_eq!(total, s, "{}", t);
        }
    }
}
