//! The statistics of a running router.

use crate::register::registration::RegistrationView;
use crate::register::Registration;
use crate::registry::Registry;
use vstd::prelude::*;
use vstd::string::StringExecFns;

verus! {

/// What the statistics say of one registration.
#[derive(Debug, Clone, PartialEq, Eq)]
pub struct RegistrationStats {
    pub id: String,
    pub connections: usize,
    pub reg_type: String,
    pub destroy: bool,
}

/// The statistics of one registration as a value.
pub struct RegistrationStatsView {
    pub id: Seq<char>,
    pub connections: usize,
    pub reg_type: Seq<char>,
    pub destroy: bool,
}

impl View for RegistrationStats {
    type V = RegistrationStatsView;

    open spec fn view(&self) -> RegistrationStatsView {
        RegistrationStatsView {
            id: self.id@,
            connections: self.connections,
            reg_type: self.reg_type@,
            destroy: self.destroy,
        }
    }
}

/// What the statistics say of the machine's memory. `proc_mem` is -1 where
/// the memory of the process is not known.
#[derive(Debug, Clone, Copy, PartialEq, Eq, Structural)]
pub struct SystemStats {
    pub total_mem: u64,
    pub used_mem: u64,
    pub proc_mem: i64,
}

/// The statistics: one entry for each registration, and the memory.
#[derive(Debug, Clone, PartialEq, Eq)]
pub struct Stats {
    pub registrations: Vec<RegistrationStats>,
    pub system: SystemStats,
}

/// The statistics as a value.
pub struct StatsView {
    pub registrations: Seq<RegistrationStatsView>,
    pub system: SystemStats,
}

impl View for Stats {
    type V = StatsView;

    open spec fn view(&self) -> StatsView {
        StatsView {
            registrations: self.registrations@.map_values(|r: RegistrationStats| r@),
            system: self.system,
        }
    }
}

/// What the statistics say of the registration `reg`: its identifier, the
/// number of its connections, the name of its type and its destroy flag.
pub open spec fn summary(reg: RegistrationView) -> RegistrationStatsView {
    RegistrationStatsView {
        id: reg.uuid,
        connections: reg.connections.len() as usize,
        reg_type: reg.reg_type.label(),
        destroy: reg.destroy,
    }
}

/// The memory of the process as the statistics give it: the amount read as
/// a signed number of the same 64 bits, or -1 where none is known.
pub open spec fn proc_mem_of(memory: Option<u64>) -> i64 {
    match memory {
        Some(m) => if m <= i64::MAX {
            m as i64
        } else {
            (m - 0x1_0000_0000_0000_0000) as i64
        },
        None => -1i64,
    }
}

/// Computes [`proc_mem_of`].
pub fn proc_mem(memory: Option<u64>) -> (r: i64)
    ensures
        r == proc_mem_of(memory),
{
    match memory {
        Some(m) => {
            if m <= 0x7fff_ffff_ffff_ffff {
                m as i64
            } else {
                let low: u64 = m - 0x8000_0000_0000_0000;
                low as i64 + i64::MIN
            }
        },
        None => -1,
    }
}

/// Summarises one registration.
pub fn summarise(reg: &Registration) -> (r: RegistrationStats)
    ensures
        r@ == summary(reg@),
{
    RegistrationStats {
        id: reg.uuid.clone(),
        connections: reg.connections.len(),
        reg_type: String::from_str(reg.reg_type.name()),
        destroy: reg.destroy,
    }
}

/// Gathers the statistics: a summary of each registration, in the order of
/// the registry, and the memory figures that the caller has read.
pub fn return_stats(rgs: &Registry, total_mem: u64, used_mem: u64, memory: Option<u64>) -> (stats:
    Stats)
    ensures
        stats@.registrations == rgs@.map_values(|r: RegistrationView| summary(r)),
        stats@.system == (SystemStats { total_mem, used_mem, proc_mem: proc_mem_of(memory) }),
{
    let mut reg_info: Vec<RegistrationStats> = Vec::new();
    let n = rgs.len();
    let mut i: usize = 0;
    while i < n
        invariant
            i <= n,
            n == rgs@.len(),
            reg_info@.len() == i,
            forall|j: int| 0 <= j < i ==> (#[trigger] reg_info@[j])@ == summary(rgs@[j]),
        decreases n - i,
    {
        reg_info.push(summarise(rgs.entry(i)));
        i += 1;
    }
    let stats = Stats {
        registrations: reg_info,
        system: SystemStats { total_mem, used_mem, proc_mem: proc_mem(memory) },
    };
    proof {
        assert(stats@.registrations =~= rgs@.map_values(|r: RegistrationView| summary(r)));
    }
    stats
}

} // verus!
