//! A snapshot of a station host's system metrics, held as plain values:
//! percentages and temperatures in thousandths, sizes in bytes, times in
//! seconds. The sampler that fills it runs outside the library.

use vstd::prelude::*;

verus! {

/// Host metrics of a locally running station; every field is optional, as
/// the sampler may fail to measure any of them.
#[derive(Clone, Copy, Debug, PartialEq, Eq, Structural)]
pub struct SysInfo {
    /// Total CPU load in milli-percent (0 ..= 100_000).
    pub cpu_load_milli_pct: Option<u32>,
    /// CPU temperature in milli-degrees Celsius.
    pub cpu_temp_milli_c: Option<i64>,
    /// Free memory in bytes.
    pub mem_free_bytes: Option<u64>,
    /// Total memory in bytes.
    pub mem_total_bytes: Option<u64>,
    /// Uptime in seconds.
    pub uptime_secs: Option<u64>,
}

impl Default for SysInfo {
    /// A snapshot with nothing measured.
    fn default() -> (s: SysInfo)
        ensures
            s.cpu_load_milli_pct is None,
            s.cpu_temp_milli_c is None,
            s.mem_free_bytes is None,
            s.mem_total_bytes is None,
            s.uptime_secs is None,
    {
        SysInfo {
            cpu_load_milli_pct: None,
            cpu_temp_milli_c: None,
            mem_free_bytes: None,
            mem_total_bytes: None,
            uptime_secs: None,
        }
    }
}

} // verus!
