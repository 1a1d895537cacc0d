//! Hardware energy-counter acquisition and sampling scheduler.
//!
//! The library decodes raw model-specific register readings into exact
//! physical quantities, accounts cumulative energy across counter
//! wraparound, lays out the delimited report, and decides, tick by tick,
//! what the sampling loop around a measured child process does next.
pub mod quantity;
pub mod registers;
pub mod energy;
pub mod text;
pub mod vendor;
pub mod gpu;
pub mod snapshot;
pub mod output;
pub mod sampler;
pub mod msr;
pub mod summary;

pub use quantity::Quantity;
pub use registers::{
    UnitScale, FidFields, RegisterError, decode_unit_scale, decode_fid, pstate_index,
    register_value, energy_from_raw, counts_per_joule,
};
pub use energy::{EnergyZone, ZoneError, parse_counter, zone_metrics};
pub use text::render_decimal;
pub use vendor::{
    Metric, Vendor, UnitCache, AmdCoreRaw, detect_vendor, intel_metrics, amd_metrics,
    core_frequency, core_voltage,
};
pub use gpu::{GPUstat, GpuMemory, dump_gpu_stat};
pub use snapshot::Snapshot;
pub use output::{header_line, row_line};
pub use sampler::{
    Sampler, Phase, Event, Action, ChildStatus, IntervalCheck, check_interval, remaining_sleep,
    CANCELLED_EXIT_CODE, TIMEOUT_EXIT_CODE, FAILURE_EXIT_CODE,
};
pub use msr::{RaplDriver, RaplError, RegisterAccess, start_rapl, start_rapl_impl};
pub use summary::{SummarySource, summary_source};
