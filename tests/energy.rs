use energibridge::{parse_counter, zone_metrics, EnergyZone, ZoneError};

#[test]
fn cumulative_counts_never_decrease_across_a_wrap() {
    let mut z = EnergyZone::new(0, 1000, 1_000_000, 900).unwrap();
    let mut last = z.cumulative_counts();
    for r in [950u64, 990, 10, 400, 400, 999, 5] {
        z.record(r).unwrap();
        assert!(z.cumulative_counts() >= last);
        last = z.cumulative_counts();
    }
    // 50 + 40 + (10 + 10) + 390 + 0 + 599 + (1 + 5)
    assert_eq!(z.cumulative_counts(), 1105);
    assert_eq!(z.previous_reading(), 5);
    assert_eq!(z.start_reading(), 900);
}

#[test]
fn wrap_delta_is_range_minus_previous_plus_new() {
    let mut z = EnergyZone::new(7, 100, 1, 90).unwrap();
    assert_eq!(z.record(5), Ok(15));
    assert_eq!(z.record(30), Ok(25));
    assert_eq!(z.zone_id(), 7);
}

#[test]
fn reading_above_range_is_rejected_and_ignored() {
    let mut z = EnergyZone::new(0, 100, 1, 10).unwrap();
    assert_eq!(z.record(101), Err(ZoneError::ReadingAboveRange));
    assert_eq!(z.cumulative_counts(), 0);
    assert_eq!(z.previous_reading(), 10);
    assert!(matches!(EnergyZone::new(0, 100, 1, 101), Err(ZoneError::ReadingAboveRange)));
}

#[test]
fn zero_resolution_is_rejected() {
    assert!(matches!(EnergyZone::new(0, 100, 0, 1), Err(ZoneError::ZeroResolution)));
}

#[test]
fn counter_overflow_is_reported() {
    let mut z = EnergyZone::new(0, u64::MAX, 1, 0).unwrap();
    assert_eq!(z.record(u64::MAX), Ok(u64::MAX));
    // wraps: (max - max) + 5
    assert_eq!(z.record(5), Err(ZoneError::CounterOverflow));
    assert_eq!(z.previous_reading(), u64::MAX);
    assert_eq!(z.cumulative_counts(), u64::MAX);
}

#[test]
fn joules_and_watts() {
    let mut z = EnergyZone::new(0, 1_000_000_000, 1_000_000, 0).unwrap();
    z.record(3_000_000).unwrap();
    z.record(5_000_000).unwrap();
    let j = z.cumulative_joules();
    assert_eq!(j.numerator as f64 / j.denominator as f64, 5.0);
    // 5 J over 2 s
    let w = z.watts(2000).unwrap();
    assert_eq!(w.numerator as f64 / w.denominator as f64, 2.5);
    // last step: 2 J over 500 ms
    let w = z.watts_since_last(500).unwrap();
    assert_eq!(w.numerator as f64 / w.denominator as f64, 4.0);
    assert!(z.watts(0).is_none());
    assert!(z.watts_since_last(0).is_none());
}

#[test]
fn counter_text_is_parsed() {
    assert_eq!(parse_counter(b"123456\n"), Some(123456));
    assert_eq!(parse_counter(b"0"), Some(0));
    assert_eq!(parse_counter(b"18446744073709551615 \r\n"), Some(u64::MAX));
}

#[test]
fn bad_counter_text_is_refused() {
    assert_eq!(parse_counter(b""), None);
    assert_eq!(parse_counter(b"\n"), None);
    assert_eq!(parse_counter(b"12a4"), None);
    assert_eq!(parse_counter(b" 12"), None);
    assert_eq!(parse_counter(b"18446744073709551616"), None);
}

#[test]
fn zone_metrics_report_energy_and_power() {
    let mut z = EnergyZone::new(0, 1_000_000_000, 1_000_000, 0).unwrap();
    z.record(3_000_000).unwrap();
    let m = zone_metrics("PACKAGE-0", &z, 1500, 500);
    let got: Vec<(String, f64)> = m
        .iter()
        .map(|x| (x.name.clone(), x.value.numerator as f64 / x.value.denominator as f64))
        .collect();
    assert_eq!(
        got,
        vec![
            ("PACKAGE-0_ENERGY (J)".to_string(), 3.0),
            ("PACKAGE-0_POWER (Watts)".to_string(), 2.0),
            ("PACKAGE-0_POWER_SINCE_LAST (Watts)".to_string(), 6.0),
        ]
    );
    let m = zone_metrics("DRAM", &z, 0, 0);
    assert_eq!(m.len(), 1);
    assert_eq!(m[0].name, "DRAM_ENERGY (J)");
}
