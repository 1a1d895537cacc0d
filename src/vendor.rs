use vstd::prelude::*;

use crate::quantity::Quantity;
use crate::registers::{
    UnitScale, FidFields, decode_fid, fid_fields_of, pstate_index, energy_from_raw, joules,
    unit_scale_of, decode_unit_scale,
};
use crate::text::{decimal, numbered_name};

verus! {

/// One named reading of a snapshot.
pub struct Metric {
    pub name: String,
    pub value: Quantity,
}

impl View for Metric {
    type V = (Seq<char>, Quantity);

    open spec fn view(&self) -> (Seq<char>, Quantity) {
        (self.name@, self.value)
    }
}

/// The names and values of a list of metrics.
pub open spec fn metrics_view(v: Seq<Metric>) -> Seq<(Seq<char>, Quantity)> {
    v.map_values(|m: Metric| m@)
}

/// The CPU vendor, which selects how registers are decoded.
#[derive(Clone, Copy, Debug, PartialEq, Eq, Structural)]
pub enum Vendor {
    Intel,
    Amd,
    /// No register decoding: a platform sensor collaborator reports instead.
    Other,
}

/// The vendor that a CPU vendor identification string names.
pub open spec fn vendor_of(id: Seq<char>) -> Vendor {
    if id == "GenuineIntel"@ {
        Vendor::Intel
    } else if id == "AuthenticAMD"@ {
        Vendor::Amd
    } else {
        Vendor::Other
    }
}

/// Selects the decode path from the CPU vendor identification string.
pub fn detect_vendor(vendor_id: &str) -> (r: Vendor)
    ensures
        r == vendor_of(vendor_id@),
{
    let id = String::from_str(vendor_id);
    let intel = String::from_str("GenuineIntel");
    let amd = String::from_str("AuthenticAMD");
    if id == intel {
        Vendor::Intel
    } else if id == amd {
        Vendor::Amd
    } else {
        Vendor::Other
    }
}

/// The scale factors, decoded from the units register once and kept for
/// the lifetime of the process.
pub struct UnitCache {
    scale: Option<UnitScale>,
}

impl UnitCache {
    pub closed spec fn cached(self) -> Option<UnitScale> {
        self.scale
    }

    /// A cache that holds nothing yet.
    pub fn new() -> (r: UnitCache)
        ensures
            r.cached() is None,
    {
        UnitCache { scale: None }
    }

    /// The cached scale, if the units register was decoded already.
    pub fn scale(&self) -> (r: Option<UnitScale>)
        ensures
            r == self.cached(),
    {
        self.scale
    }

    /// The cached scale; where there is none yet, `units_raw` is decoded
    /// and kept. A scale once kept never changes.
    pub fn get_or_decode(&mut self, units_raw: u64) -> (r: UnitScale)
        ensures
            old(self).cached() matches Some(s) ==> r == s && final(self).cached() == old(
                self,
            ).cached(),
            old(self).cached() is None ==> r == unit_scale_of(units_raw) && final(self).cached()
                == Some(r),
    {
        match self.scale {
            Some(s) => s,
            None => {
                let s = decode_unit_scale(units_raw);
                self.scale = Some(s);
                s
            },
        }
    }
}

/// The Intel energy readings of one tick: the four energy-status counters
/// in joules, under the names the report uses.
pub open spec fn intel_metrics_spec(scale: UnitScale, pkg: u64, pp0: u64, pp1: u64, dram: u64) -> Seq<
    (Seq<char>, Quantity),
> {
    seq![
        ("DRAM_ENERGY (J)"@, joules(dram, scale)),
        ("PACKAGE_ENERGY (J)"@, joules(pkg, scale)),
        ("PP0_ENERGY (J)"@, joules(pp0, scale)),
        ("PP1_ENERGY (J)"@, joules(pp1, scale)),
    ]
}

/// Decodes the Intel package, PP0, PP1 and DRAM energy-status readings.
pub fn intel_metrics(scale: UnitScale, pkg: u64, pp0: u64, pp1: u64, dram: u64) -> (r: Vec<Metric>)
    requires
        scale.wf(),
    ensures
        metrics_view(r@) == intel_metrics_spec(scale, pkg, pp0, pp1, dram),
{
    let mut r: Vec<Metric> = Vec::new();
    r.push(Metric { name: String::from_str("DRAM_ENERGY (J)"), value: energy_from_raw(dram, scale) });
    r.push(Metric { name: String::from_str("PACKAGE_ENERGY (J)"), value: energy_from_raw(pkg, scale) });
    r.push(Metric { name: String::from_str("PP0_ENERGY (J)"), value: energy_from_raw(pp0, scale) });
    r.push(Metric { name: String::from_str("PP1_ENERGY (J)"), value: energy_from_raw(pp1, scale) });
    assert(metrics_view(r@) =~= intel_metrics_spec(scale, pkg, pp0, pp1, dram));
    r
}

/// Core clock in MHz: `ratio * 100` with `ratio = 25 * Fid / (12.5 * Did)`,
/// that is `200 * Fid / Did`.
pub open spec fn frequency_mhz(f: FidFields) -> Quantity {
    Quantity { numerator: (200 * f.fid) as i128, denominator: f.did as u128 }
}

/// Core voltage in volts: `1.55 - Vid * 0.00625`, that is `(248 - Vid) / 160`.
pub open spec fn voltage(f: FidFields) -> Quantity {
    Quantity { numerator: (248 - f.vid) as i128, denominator: 160 }
}

/// The clock of a decoded frequency / voltage register, or none where the
/// divisor id is zero.
pub fn core_frequency(f: FidFields) -> (r: Option<Quantity>)
    ensures
        f.did == 0 <==> r is None,
        r matches Some(q) ==> q == frequency_mhz(f) && q.wf(),
{
    if f.did == 0 {
        None
    } else {
        Some(Quantity { numerator: 200 * f.fid as i128, denominator: f.did as u128 })
    }
}

/// The voltage of a decoded frequency / voltage register.
pub fn core_voltage(f: FidFields) -> (r: Quantity)
    ensures
        r == voltage(f),
        r.wf(),
{
    Quantity { numerator: 248 - f.vid as i128, denominator: 160 }
}

/// The raw AMD registers of one physical core for one tick.
#[derive(Clone, Copy, Debug, PartialEq, Eq, Structural)]
pub struct AmdCoreRaw {
    pub core_energy: u64,
    pub package_energy: u64,
    pub pstate: u64,
    pub fid: u64,
}

/// A core's metric name: `CORE<n>` and a suffix.
pub open spec fn core_name(n: nat, suffix: Seq<char>) -> Seq<char> {
    "CORE"@ + decimal(n) + suffix
}

/// The metrics of core `n`: voltage and clock (left out on a zero divisor
/// id), P-state index and energy in joules.
pub open spec fn amd_core_spec(n: nat, scale: UnitScale, raw: AmdCoreRaw) -> Seq<
    (Seq<char>, Quantity),
> {
    let f = fid_fields_of(raw.fid);
    let vf = if f.did == 0 {
        Seq::empty()
    } else {
        seq![
            (core_name(n, "_VOLT (V)"@), voltage(f)),
            (core_name(n, "_FREQ (MHZ)"@), frequency_mhz(f)),
        ]
    };
    vf + seq![
        (core_name(n, "_PSTATE"@), Quantity { numerator: (raw.pstate & 0x07) as i128, denominator: 1 }),
        (core_name(n, "_ENERGY (J)"@), joules(raw.core_energy, scale)),
    ]
}

/// The metrics of the cores `cores`, numbered from zero, in order.
pub open spec fn amd_cores_spec(scale: UnitScale, cores: Seq<AmdCoreRaw>) -> Seq<
    (Seq<char>, Quantity),
>
    decreases cores.len(),
{
    if cores.len() == 0 {
        Seq::empty()
    } else {
        amd_cores_spec(scale, cores.drop_last()) + amd_core_spec(
            (cores.len() - 1) as nat,
            scale,
            cores.last(),
        )
    }
}

/// The AMD metrics of one tick: those of each core, then the package
/// energy, read through the last core.
pub open spec fn amd_metrics_spec(scale: UnitScale, cores: Seq<AmdCoreRaw>) -> Seq<
    (Seq<char>, Quantity),
> {
    if cores.len() == 0 {
        Seq::empty()
    } else {
        amd_cores_spec(scale, cores) + seq![
            ("CPU_ENERGY (J)"@, joules(cores.last().package_energy, scale)),
        ]
    }
}

/// Decodes the AMD registers of every physical core.
pub fn amd_metrics(scale: UnitScale, cores: &Vec<AmdCoreRaw>) -> (r: Vec<Metric>)
    requires
        scale.wf(),
    ensures
        metrics_view(r@) == amd_metrics_spec(scale, cores@),
{
    let mut r: Vec<Metric> = Vec::new();
    let mut i: usize = 0;
    while i < cores.len()
        invariant
            i <= cores@.len(),
            scale.wf(),
            metrics_view(r@) == amd_cores_spec(scale, cores@.take(i as int)),
        decreases cores@.len() - i,
    {
        let raw = cores[i];
        let f = decode_fid(raw.fid);
        let ghost before = r@;
        let n: u64 = i as u64;
        match core_frequency(f) {
            Some(freq) => {
                r.push(Metric { name: numbered_name("CORE", n, "_VOLT (V)"), value: core_voltage(f) });
                r.push(Metric { name: numbered_name("CORE", n, "_FREQ (MHZ)"), value: freq });
            },
            None => {},
        }
        let p = pstate_index(raw.pstate);
        r.push(Metric {
            name: numbered_name("CORE", n, "_PSTATE"),
            value: Quantity { numerator: p as i128, denominator: 1 },
        });
        r.push(Metric {
            name: numbered_name("CORE", n, "_ENERGY (J)"),
            value: energy_from_raw(raw.core_energy, scale),
        });
        proof {
            let c = cores@.take(i + 1);
            assert(c.drop_last() =~= cores@.take(i as int));
            assert(c.last() == raw);
            assert(metrics_view(r@) =~= metrics_view(before) + amd_core_spec(i as nat, scale, raw));
        }
        i = i + 1;
    }
    if cores.len() > 0 {
        let last = cores[cores.len() - 1];
        r.push(Metric {
            name: String::from_str("CPU_ENERGY (J)"),
            value: energy_from_raw(last.package_energy, scale),
        });
        assert(cores@.take(cores@.len() as int) =~= cores@);
        assert(metrics_view(r@) =~= amd_metrics_spec(scale, cores@));
    }
    r
}

} // verus!
