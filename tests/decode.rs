use energibridge::{
    amd_metrics, core_frequency, core_voltage, decode_fid, decode_unit_scale, detect_vendor,
    dump_gpu_stat, energy_from_raw, intel_metrics, pstate_index, register_value, render_decimal,
    AmdCoreRaw, GPUstat, GpuMemory, Quantity, RegisterError, UnitCache, Vendor,
};

fn value(q: Quantity) -> f64 {
    q.numerator as f64 / q.denominator as f64
}

#[test]
fn fid_register_fields_are_split_by_mask() {
    let raw: u64 = (0x28u64 << 14) | (0x08u64 << 8) | 0x60;
    let f = decode_fid(raw);
    assert_eq!(f.did, 0x08);
    assert_eq!(f.fid, 0x60);
    assert_eq!(f.vid, 0x28);
}

#[test]
fn frequency_follows_the_divisor_formula() {
    // 25 * 0x60 / (12.5 * 0x08) * 100 = 2400 MHz
    let f = decode_fid((0x08u64 << 8) | 0x60);
    let q = core_frequency(f).unwrap();
    assert_eq!(q.numerator, 200 * 0x60);
    assert_eq!(q.denominator, 8);
    assert_eq!(value(q), 2400.0);
}

#[test]
fn voltage_follows_the_vid_formula() {
    // 1.55 - 0x28 * 0.00625 = 1.3 V
    let f = decode_fid(0x28u64 << 14);
    let q = core_voltage(f);
    assert_eq!(q.numerator, 208);
    assert_eq!(q.denominator, 160);
    assert_eq!(value(q), 1.3);
}

#[test]
fn zero_divisor_yields_no_frequency() {
    let f = decode_fid(0x60);
    assert_eq!(f.did, 0);
    assert!(core_frequency(f).is_none());
}

#[test]
fn unit_register_fields() {
    // Typical Intel value 0xA0E03: time 10, energy 14, power 3.
    let s = decode_unit_scale(0x000A_0E03);
    assert_eq!(s.power_unit_exp, 3);
    assert_eq!(s.energy_unit_exp, 14);
    assert_eq!(s.time_unit_exp, 10);
    let t = decode_unit_scale(u64::MAX);
    assert_eq!((t.power_unit_exp, t.energy_unit_exp, t.time_unit_exp), (15, 31, 15));
}

#[test]
fn energy_is_count_over_power_of_two() {
    let s = decode_unit_scale(0x0E00);
    let q = energy_from_raw(16384 * 5, s);
    assert_eq!(q.denominator, 16384);
    assert_eq!(value(q), 5.0);
    let big = energy_from_raw(u64::MAX, decode_unit_scale(0x1F00));
    assert_eq!(big.denominator, 1u128 << 31);
    assert_eq!(big.numerator, u64::MAX as i128);
}

#[test]
fn pstate_is_low_three_bits() {
    assert_eq!(pstate_index(0xFF), 7);
    assert_eq!(pstate_index(0x0A), 2);
}

#[test]
fn register_bytes_are_little_endian() {
    let b = [0x01u8, 0x02, 0x03, 0x04, 0x05, 0x06, 0x07, 0x08, 0xFF];
    assert_eq!(register_value(&b), Ok(0x0807_0605_0403_0201));
    assert_eq!(register_value(&[0xFF; 8]), Ok(u64::MAX));
}

#[test]
fn short_register_read_is_an_error() {
    assert_eq!(register_value(&[1, 2, 3]), Err(RegisterError::ShortRead));
    assert_eq!(register_value(&[]), Err(RegisterError::ShortRead));
}

#[test]
fn vendor_strings_select_the_decoder() {
    assert_eq!(detect_vendor("GenuineIntel"), Vendor::Intel);
    assert_eq!(detect_vendor("AuthenticAMD"), Vendor::Amd);
    assert_eq!(detect_vendor("Apple"), Vendor::Other);
    assert_eq!(detect_vendor(""), Vendor::Other);
}

#[test]
fn unit_cache_decodes_once() {
    let mut c = UnitCache::new();
    assert!(c.scale().is_none());
    let first = c.get_or_decode(0x0E00);
    assert_eq!(first.energy_unit_exp, 14);
    let again = c.get_or_decode(0x1000);
    assert_eq!(again.energy_unit_exp, 14);
    assert_eq!(c.scale(), Some(first));
}

#[test]
fn intel_metrics_names_and_values() {
    let s = decode_unit_scale(0x0100); // 0.5 J per count
    let m = intel_metrics(s, 10, 20, 30, 40);
    let got: Vec<(String, f64)> = m.iter().map(|x| (x.name.clone(), value(x.value))).collect();
    assert_eq!(
        got,
        vec![
            ("DRAM_ENERGY (J)".to_string(), 20.0),
            ("PACKAGE_ENERGY (J)".to_string(), 5.0),
            ("PP0_ENERGY (J)".to_string(), 10.0),
            ("PP1_ENERGY (J)".to_string(), 15.0),
        ]
    );
}

#[test]
fn amd_metrics_per_core_and_package() {
    let s = decode_unit_scale(0x0100);
    let fid_ok: u64 = (0x28u64 << 14) | (0x08u64 << 8) | 0x60;
    let cores = vec![
        AmdCoreRaw { core_energy: 8, package_energy: 100, pstate: 0x09, fid: fid_ok },
        AmdCoreRaw { core_energy: 4, package_energy: 200, pstate: 0x02, fid: 0x60 },
    ];
    let m = amd_metrics(s, &cores);
    let names: Vec<String> = m.iter().map(|x| x.name.clone()).collect();
    assert_eq!(
        names,
        vec![
            "CORE0_VOLT (V)",
            "CORE0_FREQ (MHZ)",
            "CORE0_PSTATE",
            "CORE0_ENERGY (J)",
            "CORE1_PSTATE",
            "CORE1_ENERGY (J)",
            "CPU_ENERGY (J)",
        ]
    );
    assert_eq!(value(m[0].value), 1.3);
    assert_eq!(value(m[1].value), 2400.0);
    assert_eq!(value(m[2].value), 1.0);
    assert_eq!(value(m[3].value), 4.0);
    assert_eq!(value(m[6].value), 100.0);
    assert!(amd_metrics(s, &Vec::new()).is_empty());
}

#[test]
fn gpu_metrics_skip_failed_readings() {
    let full = GPUstat {
        id: 1,
        utilization: Some(42),
        memory: Some(GpuMemory { used: 3 * 1024 * 1024 + 5, total: 8 * 1024 * 1024 }),
        temperature: Some(60),
        power: Some(35000),
    };
    let m = dump_gpu_stat(&full);
    let got: Vec<(String, f64)> = m.iter().map(|x| (x.name.clone(), value(x.value))).collect();
    assert_eq!(
        got,
        vec![
            ("GPU1_USAGE".to_string(), 42.0),
            ("GPU1_MEMORY_USED".to_string(), 3.0),
            ("GPU1_MEMORY_TOTAL".to_string(), 8.0),
            ("GPU1_TEMPERATURE".to_string(), 60.0),
            ("GPU1_POWER (mWatts)".to_string(), 35000.0),
        ]
    );
    let partial = GPUstat { id: 12, utilization: None, memory: None, temperature: Some(55), power: None };
    let m = dump_gpu_stat(&partial);
    assert_eq!(m.len(), 1);
    assert_eq!(m[0].name, "GPU12_TEMPERATURE");
}

#[test]
fn decimal_rendering() {
    assert_eq!(render_decimal(0), "0");
    assert_eq!(render_decimal(907), "907");
    assert_eq!(render_decimal(u64::MAX), u64::MAX.to_string());
}
