use vstd::prelude::*;

use crate::quantity::Quantity;
use crate::text::{decimal, numbered_name};
use crate::vendor::{Metric, metrics_view};

verus! {

/// Memory of a GPU, in bytes.
#[derive(Clone, Copy, Debug, PartialEq, Eq, Structural)]
pub struct GpuMemory {
    pub used: u64,
    pub total: u64,
}

/// What the GPU monitoring library reported of one device in one tick;
/// a reading that failed is absent.
#[derive(Clone, Copy, Debug, PartialEq, Eq, Structural)]
pub struct GPUstat {
    pub id: u32,
    /// GPU utilization, percent.
    pub utilization: Option<u32>,
    pub memory: Option<GpuMemory>,
    /// Temperature, degrees Celsius.
    pub temperature: Option<u32>,
    /// Power draw, milliwatts.
    pub power: Option<u32>,
}

/// A GPU's metric name: `GPU<id>` and a suffix.
pub open spec fn gpu_name(id: nat, suffix: Seq<char>) -> Seq<char> {
    "GPU"@ + decimal(id) + suffix
}

/// A whole number as a quantity.
pub open spec fn whole(n: int) -> Quantity {
    Quantity { numerator: n as i128, denominator: 1 }
}

/// Bytes in mebibytes, rounded down.
pub open spec fn mebibytes(b: u64) -> int {
    b as int / 1024 / 1024
}

/// The metrics of one device: usage, memory used and total in MiB,
/// temperature and power, each only where it was read.
pub open spec fn gpu_metrics_spec(s: GPUstat) -> Seq<(Seq<char>, Quantity)> {
    let id = s.id as nat;
    let usage = match s.utilization {
        Some(u) => seq![(gpu_name(id, "_USAGE"@), whole(u as int))],
        None => Seq::empty(),
    };
    let memory = match s.memory {
        Some(m) => seq![
            (gpu_name(id, "_MEMORY_USED"@), whole(mebibytes(m.used))),
            (gpu_name(id, "_MEMORY_TOTAL"@), whole(mebibytes(m.total))),
        ],
        None => Seq::empty(),
    };
    let temperature = match s.temperature {
        Some(t) => seq![(gpu_name(id, "_TEMPERATURE"@), whole(t as int))],
        None => Seq::empty(),
    };
    let power = match s.power {
        Some(p) => seq![(gpu_name(id, "_POWER (mWatts)"@), whole(p as int))],
        None => Seq::empty(),
    };
    usage + memory + temperature + power
}

/// The metrics of one GPU for one tick.
pub fn dump_gpu_stat(s: &GPUstat) -> (r: Vec<Metric>)
    ensures
        metrics_view(r@) == gpu_metrics_spec(*s),
{
    let id: u64 = s.id as u64;
    let mut r: Vec<Metric> = Vec::new();
    match s.utilization {
        Some(u) => {
            r.push(Metric { name: numbered_name("GPU", id, "_USAGE"), value: Quantity::whole(u as i128) });
        },
        None => {},
    }
    match s.memory {
        Some(m) => {
            r.push(Metric {
                name: numbered_name("GPU", id, "_MEMORY_USED"),
                value: Quantity::whole((m.used / 1024 / 1024) as i128),
            });
            r.push(Metric {
                name: numbered_name("GPU", id, "_MEMORY_TOTAL"),
                value: Quantity::whole((m.total / 1024 / 1024) as i128),
            });
        },
        None => {},
    }
    match s.temperature {
        Some(t) => {
            r.push(Metric {
                name: numbered_name("GPU", id, "_TEMPERATURE"),
                value: Quantity::whole(t as i128),
            });
        },
        None => {},
    }
    match s.power {
        Some(p) => {
            r.push(Metric {
                name: numbered_name("GPU", id, "_POWER (mWatts)"),
                value: Quantity::whole(p as i128),
            });
        },
        None => {},
    }
    assert(metrics_view(r@) =~= gpu_metrics_spec(*s));
    r
}

} // verus!
