use energibridge::{
    decode_unit_scale, header_line, intel_metrics, row_line, summary_source, Quantity, Snapshot,
    SummarySource,
};

fn text(q: Quantity) -> String {
    format!("{}", q.numerator as f64 / q.denominator as f64)
}

fn snap(pairs: &[(&str, &str)]) -> Snapshot {
    let mut s = Snapshot::new();
    for (k, v) in pairs {
        s.insert(k.to_string(), v.to_string());
    }
    s
}

#[test]
fn insert_replaces_an_existing_value() {
    let mut s = snap(&[("A", "1"), ("B", "2")]);
    s.insert("A".to_string(), "3".to_string());
    assert_eq!(s.len(), 2);
    assert_eq!(s.get(&"A".to_string()), Some("3".to_string()));
    assert_eq!(s.get(&"C".to_string()), None);
}

#[test]
fn header_keys_are_the_sorted_snapshot_keys() {
    let s = snap(&[("USED_MEMORY", "1"), ("CPU_USAGE_0", "2"), ("TOTAL_MEMORY", "3"), ("CPU_USAGE_1", "4")]);
    let keys = s.sorted_keys();
    assert_eq!(keys, vec!["CPU_USAGE_0", "CPU_USAGE_1", "TOTAL_MEMORY", "USED_MEMORY"]);
    assert_eq!(header_line(&keys, ","), "Delta,Time,CPU_USAGE_0,CPU_USAGE_1,TOTAL_MEMORY,USED_MEMORY\n");
}

#[test]
fn empty_snapshot_header() {
    let keys = Snapshot::new().sorted_keys();
    assert!(keys.is_empty());
    assert_eq!(header_line(&keys, ";"), "Delta;Time\n");
}

#[test]
fn rows_keep_the_header_columns_and_blank_missing_values() {
    let first = snap(&[("B", "2"), ("A", "1"), ("C", "3")]);
    let keys = first.sorted_keys();
    let header = header_line(&keys, ",");
    let later = snap(&[("C", "30"), ("A", "10"), ("D", "40")]);
    let row = row_line(200, 1700000000000, &keys, &later, ",");
    assert_eq!(row, "200,1700000000000,10,,30\n");
    assert_eq!(row.matches(',').count(), header.matches(',').count());
}

#[test]
fn multi_character_separator() {
    let s = snap(&[("X", "1.5")]);
    let keys = s.sorted_keys();
    assert_eq!(header_line(&keys, " | "), "Delta | Time | X\n");
    assert_eq!(row_line(0, 7, &keys, &s, " | "), "0 | 7 | 1.5\n");
}

#[test]
fn fixed_register_values_give_an_exact_report() {
    let scale = decode_unit_scale(0x0E00); // 2^-14 J per count
    let ticks: [(u64, u64, u64, u64); 3] = [
        (16384, 8192, 0, 4096),
        (32768, 16384, 0, 8192),
        (49152, 16384, 1, 12288),
    ];
    let clock: [(u64, u64); 3] = [(0, 1000), (200, 1200), (201, 1401)];
    let mut out = String::new();
    let mut keys = Vec::new();
    for (i, (pkg, pp0, pp1, dram)) in ticks.iter().enumerate() {
        let mut s = Snapshot::new();
        for m in intel_metrics(scale, *pkg, *pp0, *pp1, *dram) {
            s.insert(m.name.clone(), text(m.value));
        }
        if i == 0 {
            keys = s.sorted_keys();
            out.push_str(&header_line(&keys, ","));
        }
        out.push_str(&row_line(clock[i].0, clock[i].1, &keys, &s, ","));
    }
    assert_eq!(
        out,
        "Delta,Time,DRAM_ENERGY (J),PACKAGE_ENERGY (J),PP0_ENERGY (J),PP1_ENERGY (J)\n\
         0,1000,0.25,1,0.5,0\n\
         200,1200,0.5,2,1,0\n\
         201,1401,0.75,3,1,0.00006103515625\n"
    );
}

#[test]
fn summary_prefers_power_then_energy() {
    assert_eq!(summary_source(&snap(&[("CPU_ENERGY (J)", "1"), ("CPU_POWER (Watts)", "2")])), SummarySource::CpuPower);
    assert_eq!(summary_source(&snap(&[("SYSTEM_POWER (Watts)", "1"), ("PACKAGE_ENERGY (J)", "2")])), SummarySource::SystemPower);
    assert_eq!(summary_source(&snap(&[("PACKAGE_ENERGY (J)", "2"), ("CPU_ENERGY (J)", "1")])), SummarySource::CpuEnergy);
    assert_eq!(summary_source(&snap(&[("PACKAGE_ENERGY (J)", "2")])), SummarySource::PackageEnergy);
    assert_eq!(summary_source(&snap(&[("TOTAL_MEMORY", "2")])), SummarySource::Unavailable);
}
