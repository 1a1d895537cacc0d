use vstd::prelude::*;

use crate::snapshot::Snapshot;

verus! {

/// Which reading the energy total after a run is integrated from.
#[derive(Clone, Copy, Debug, PartialEq, Eq, Structural)]
pub enum SummarySource {
    /// CPU power in watts, multiplied by each tick's duration.
    CpuPower,
    /// System power in watts, multiplied by each tick's duration.
    SystemPower,
    /// The CPU energy counter, summed as per-tick deltas.
    CpuEnergy,
    /// The package energy counter, summed as per-tick deltas.
    PackageEnergy,
    /// Nothing to integrate.
    Unavailable,
}

/// The first of the power and energy readings that a snapshot holds, in
/// order of preference.
pub open spec fn summary_source_of(keys: Set<Seq<char>>) -> SummarySource {
    if keys.contains("CPU_POWER (Watts)"@) {
        SummarySource::CpuPower
    } else if keys.contains("SYSTEM_POWER (Watts)"@) {
        SummarySource::SystemPower
    } else if keys.contains("CPU_ENERGY (J)"@) {
        SummarySource::CpuEnergy
    } else if keys.contains("PACKAGE_ENERGY (J)"@) {
        SummarySource::PackageEnergy
    } else {
        SummarySource::Unavailable
    }
}

/// Chooses the reading that the energy total is integrated from.
pub fn summary_source(snapshot: &Snapshot) -> (r: SummarySource)
    requires
        snapshot.wf(),
    ensures
        r == summary_source_of(snapshot@.dom()),
{
    if snapshot.get(&String::from_str("CPU_POWER (Watts)")).is_some() {
        SummarySource::CpuPower
    } else if snapshot.get(&String::from_str("SYSTEM_POWER (Watts)")).is_some() {
        SummarySource::SystemPower
    } else if snapshot.get(&String::from_str("CPU_ENERGY (J)")).is_some() {
        SummarySource::CpuEnergy
    } else if snapshot.get(&String::from_str("PACKAGE_ENERGY (J)")).is_some() {
        SummarySource::PackageEnergy
    } else {
        SummarySource::Unavailable
    }
}

} // verus!
