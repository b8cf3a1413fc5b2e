use nao::duration::{format_live_task_runtime_seconds, pretty_duration};

fn reference(duration_nanos: u128) -> String {
    if duration_nanos < 1_000 {
        return format!("{duration_nanos}ns");
    }
    if duration_nanos < 1_000_000 {
        return format!("{:.1}us", duration_nanos as f64 / 1_000.0);
    }
    if duration_nanos < 1_000_000_000 {
        return format!("{:.1}ms", duration_nanos as f64 / 1_000_000.0);
    }
    format!("{:.1}s", duration_nanos as f64 / 1_000_000_000.0)
}

fn seconds_reference(duration_nanos: u128) -> String {
    format!("{:.3}s", duration_nanos as f64 / 1_000_000_000.0)
}

#[test]
fn pretty_duration_matches_binary64_formatting_on_ties_and_edges() {
    let mut samples: Vec<u128> = vec![0, 1, 999, 1_000, 1_049, 1_050, 1_150, 1_250, 1_350, 2_450, 2_550, 999_949, 999_950, 999_999];
    samples.extend([1_000_000, 1_050_000, 1_250_000, 2_250_000, 999_950_000, 999_999_999]);
    samples.extend([1_000_000_000, 1_050_000_000, 1_250_000_000, 12_345_678_901, 9_007_199_254_740_993]);
    samples.extend([u64::MAX as u128, 1u128 << 100, u128::MAX, u128::MAX - 1, (1u128 << 127) + 12345]);
    let mut x: u128 = 0x2545F4914F6CDD1D;
    for _ in 0..20000 {
        x ^= x << 13;
        x ^= x >> 7;
        x ^= x << 17;
        x &= (1u128 << 96) - 1;
        samples.push(x % 10_000_000);
        samples.push(x % 10_000_000_000);
        samples.push(x >> (x % 90) as u32);
        samples.push((x % 100_000) * 50);
    }
    for n in samples {
        assert_eq!(pretty_duration(n), reference(n), "{n}");
        assert_eq!(format_live_task_runtime_seconds(n), seconds_reference(n), "{n}");
    }
}

#[test]
fn formats_live_runtime_in_seconds() {
    assert_eq!(format_live_task_runtime_seconds(0), "0.000s");
    assert_eq!(format_live_task_runtime_seconds(4_000_000), "0.004s");
    assert_eq!(format_live_task_runtime_seconds(12_345_678_901), "12.346s");
}

#[test]
fn the_duration_unit_follows_the_range_of_the_count() {
    assert_eq!(pretty_duration(999), "999ns");
    assert_eq!(pretty_duration(1_000), "1.0us");
    assert_eq!(pretty_duration(999_999), "1000.0us");
    assert_eq!(pretty_duration(1_000_000), "1.0ms");
    assert_eq!(pretty_duration(999_999_999), "1000.0ms");
    assert_eq!(pretty_duration(1_000_000_000), "1.0s");
}
