//! The typed fields a record can hold, and the addresses under which the
//! producer sets them.
//!
//! Every scalar field is independently present-or-absent, so each sub-record
//! is a flat set of `Option` fields.  The location enums name one field each;
//! a setter call carries a location and a value and touches exactly that
//! field of exactly one sub-record.

use vstd::prelude::*;

verus! {

/// The idle state of a CPU at decision time.
#[derive(Clone, Copy, Debug, PartialEq, Eq, Structural)]
pub enum CpuIdleType {
    CpuNotIdle,
    CpuIdle,
    CpuNewlyIdle,
    CpuMaxIdleTypes,
}

/// The classification a scheduling group received.
#[derive(Clone, Copy, Debug, PartialEq, Eq, Structural)]
pub enum GroupType {
    GroupHasSpare,
    GroupFullyBusy,
    GroupMisfitTask,
    GroupSmtBalance,
    GroupAsymPacking,
    GroupImbalanced,
    GroupOverloaded,
}

/// A flag-only transition signal from the producer.
#[derive(Clone, Copy, Debug, PartialEq, Eq, Structural)]
pub enum MunchFlag {
    /// The producer moved past the current scheduling domain.
    GoToNextSd,
}

/// Addresses of the boolean fields of the current domain.
#[derive(Clone, Copy, Debug, PartialEq, Eq, Structural)]
pub enum MunchLocationBool {
    SwbResult,
    AsymCpucapacity,
    AsymPacking,
    HasBusiest,
    SmtActive,
}

/// Addresses of the `u64` fields of the current domain.
#[derive(Clone, Copy, Debug, PartialEq, Eq, Structural)]
pub enum MunchLocationU64 {
    CpuNumber,
    SdAvgLoad,
    ImbalancePct,
    Imbalance,
}

/// Addresses of the `u64` fields of one per-CPU entry.
#[derive(Clone, Copy, Debug, PartialEq, Eq, Structural)]
pub enum MunchLocationU64Cpu {
    NrRunning,
    HNrRunning,
    CpuCapacity,
    AsymCpuPriorityValue,
    ArchScaleCpuCapacity,
    CpuLoad,
    CpuUtilCfsBoost,
    MisfitTaskLoad,
}

/// Addresses of the boolean fields of one per-CPU entry.
#[derive(Clone, Copy, Debug, PartialEq, Eq, Structural)]
pub enum MunchLocationBoolCpu {
    IdleCpu,
    IsCoreIdle,
    TtwuPending,
    RdOverutilized,
    RdPdOverlap,
}

/// Addresses of the `u64` fields of one scheduling-group entry.
#[derive(Clone, Copy, Debug, PartialEq, Eq, Structural)]
pub enum MunchLocationU64Group {
    SumHNrRunning,
    SumNrRunning,
    SgcMaxCapacity,
    SgcMinCapacity,
    SgAvgLoad,
    SgAsymPreferCpu,
    MisfitTaskLoadSg,
    SgIdleCpus,
    GroupBalanceCpu,
}

/// A CPU membership mask, stored as 64-bit words with the lowest-numbered
/// CPU in the least significant bit of the first word.
#[derive(Clone, Debug, PartialEq, Eq)]
pub struct CpuMask {
    pub bits: Vec<u64>,
}

impl View for CpuMask {
    type V = Seq<u64>;

    open spec fn view(&self) -> Seq<u64> {
        self.bits@
    }
}

/// The per-CPU sub-record: one exists per logical CPU, indexed by CPU number.
#[derive(Clone, Copy, Debug, PartialEq, Eq, Structural)]
pub struct LBIPerCpu {
    pub idle_cpu: Option<bool>,
    pub is_core_idle: Option<bool>,
    pub nr_running: Option<u64>,
    pub h_nr_running: Option<u64>,
    pub ttwu_pending: Option<bool>,
    pub capacity: Option<u64>,
    pub asym_cpu_priority: Option<u64>,
    pub rd_overutilized: Option<bool>,
    pub rd_pd_overlap: Option<bool>,
    pub arch_scale_cpu_capacity: Option<u64>,
    pub cpu_load: Option<u64>,
    pub cpu_util_cfs_boost: Option<u64>,
    pub misfit_task_load: Option<u64>,
}

impl LBIPerCpu {
    /// The all-absent entry.
    pub open spec fn spec_empty() -> LBIPerCpu {
        LBIPerCpu {
            idle_cpu: None,
            is_core_idle: None,
            nr_running: None,
            h_nr_running: None,
            ttwu_pending: None,
            capacity: None,
            asym_cpu_priority: None,
            rd_overutilized: None,
            rd_pd_overlap: None,
            arch_scale_cpu_capacity: None,
            cpu_load: None,
            cpu_util_cfs_boost: None,
            misfit_task_load: None,
        }
    }

    pub fn new() -> (r: LBIPerCpu)
        ensures
            r == LBIPerCpu::spec_empty(),
    {
        LBIPerCpu {
            idle_cpu: None,
            is_core_idle: None,
            nr_running: None,
            h_nr_running: None,
            ttwu_pending: None,
            capacity: None,
            asym_cpu_priority: None,
            rd_overutilized: None,
            rd_pd_overlap: None,
            arch_scale_cpu_capacity: None,
            cpu_load: None,
            cpu_util_cfs_boost: None,
            misfit_task_load: None,
        }
    }

    /// Forget every field.
    pub fn reset(&mut self)
        ensures
            *final(self) == LBIPerCpu::spec_empty(),
    {
        *self = LBIPerCpu::new();
    }
}

/// The flat scalar fields of one per-scheduling-domain sub-record.
#[derive(Clone, Debug, PartialEq, Eq)]
pub struct LBIPerSchedDomainInfo {
    pub cpu: Option<u64>,
    pub cpumask: Option<CpuMask>,
    pub cpu_idle_type: Option<CpuIdleType>,
    pub group_balance_cpu_sg: Option<u64>,
    pub asym_cpucapacity: Option<bool>,
    pub asym_packing: Option<bool>,
    pub share_cpucapacity: Option<bool>,
    pub should_we_balance: Option<bool>,
    pub has_busiest: Option<bool>,
    pub avg_load: Option<u64>,
    pub imbalance_pct: Option<u64>,
    pub smt_active: Option<bool>,
    pub imbalance: Option<u64>,
}

/// The mathematical shape of a domain's flat scalars: the mask replaced by
/// its word sequence.
#[verifier::ext_equal]
pub ghost struct DomainInfoView {
    pub cpu: Option<u64>,
    pub cpumask: Option<Seq<u64>>,
    pub cpu_idle_type: Option<CpuIdleType>,
    pub group_balance_cpu_sg: Option<u64>,
    pub asym_cpucapacity: Option<bool>,
    pub asym_packing: Option<bool>,
    pub share_cpucapacity: Option<bool>,
    pub should_we_balance: Option<bool>,
    pub has_busiest: Option<bool>,
    pub avg_load: Option<u64>,
    pub imbalance_pct: Option<u64>,
    pub smt_active: Option<bool>,
    pub imbalance: Option<u64>,
}

impl DomainInfoView {
    /// The all-absent domain scalars.
    pub open spec fn empty() -> DomainInfoView {
        DomainInfoView {
            cpu: None,
            cpumask: None,
            cpu_idle_type: None,
            group_balance_cpu_sg: None,
            asym_cpucapacity: None,
            asym_packing: None,
            share_cpucapacity: None,
            should_we_balance: None,
            has_busiest: None,
            avg_load: None,
            imbalance_pct: None,
            smt_active: None,
            imbalance: None,
        }
    }
}

impl View for LBIPerSchedDomainInfo {
    type V = DomainInfoView;

    open spec fn view(&self) -> DomainInfoView {
        DomainInfoView {
            cpu: self.cpu,
            cpumask: match self.cpumask {
                None => None,
                Some(m) => Some(m@),
            },
            cpu_idle_type: self.cpu_idle_type,
            group_balance_cpu_sg: self.group_balance_cpu_sg,
            asym_cpucapacity: self.asym_cpucapacity,
            asym_packing: self.asym_packing,
            share_cpucapacity: self.share_cpucapacity,
            should_we_balance: self.should_we_balance,
            has_busiest: self.has_busiest,
            avg_load: self.avg_load,
            imbalance_pct: self.imbalance_pct,
            smt_active: self.smt_active,
            imbalance: self.imbalance,
        }
    }
}

impl LBIPerSchedDomainInfo {
    pub fn new() -> (r: LBIPerSchedDomainInfo)
        ensures
            r@ == DomainInfoView::empty(),
    {
        LBIPerSchedDomainInfo {
            cpu: None,
            cpumask: None,
            cpu_idle_type: None,
            group_balance_cpu_sg: None,
            asym_cpucapacity: None,
            asym_packing: None,
            share_cpucapacity: None,
            should_we_balance: None,
            has_busiest: None,
            avg_load: None,
            imbalance_pct: None,
            smt_active: None,
            imbalance: None,
        }
    }

    /// Forget every field.
    pub fn reset(&mut self)
        ensures
            final(self)@ == DomainInfoView::empty(),
    {
        *self = LBIPerSchedDomainInfo::new();
    }
}

/// The flat scalar fields of one scheduling-group sub-record.
#[derive(Clone, Debug, PartialEq, Eq)]
pub struct LBIPerSchedGroup {
    pub cpumask: Option<CpuMask>,
    pub group_type: Option<GroupType>,
    pub sum_h_nr_running: Option<u64>,
    pub sum_nr_running: Option<u64>,
    pub max_capacity: Option<u64>,
    pub min_capacity: Option<u64>,
    pub avg_load: Option<u64>,
    pub asym_prefer_cpu: Option<u64>,
    pub misfit_task_load: Option<u64>,
    pub idle_cpus: Option<u64>,
    pub group_balance_cpu: Option<u64>,
}

/// The mathematical shape of a group's scalars.
#[verifier::ext_equal]
pub ghost struct GroupEntryView {
    pub cpumask: Option<Seq<u64>>,
    pub group_type: Option<GroupType>,
    pub sum_h_nr_running: Option<u64>,
    pub sum_nr_running: Option<u64>,
    pub max_capacity: Option<u64>,
    pub min_capacity: Option<u64>,
    pub avg_load: Option<u64>,
    pub asym_prefer_cpu: Option<u64>,
    pub misfit_task_load: Option<u64>,
    pub idle_cpus: Option<u64>,
    pub group_balance_cpu: Option<u64>,
}

impl GroupEntryView {
    /// The all-absent group scalars.
    pub open spec fn empty() -> GroupEntryView {
        GroupEntryView {
            cpumask: None,
            group_type: None,
            sum_h_nr_running: None,
            sum_nr_running: None,
            max_capacity: None,
            min_capacity: None,
            avg_load: None,
            asym_prefer_cpu: None,
            misfit_task_load: None,
            idle_cpus: None,
            group_balance_cpu: None,
        }
    }
}

impl View for LBIPerSchedGroup {
    type V = GroupEntryView;

    open spec fn view(&self) -> GroupEntryView {
        GroupEntryView {
            cpumask: match self.cpumask {
                None => None,
                Some(m) => Some(m@),
            },
            group_type: self.group_type,
            sum_h_nr_running: self.sum_h_nr_running,
            sum_nr_running: self.sum_nr_running,
            max_capacity: self.max_capacity,
            min_capacity: self.min_capacity,
            avg_load: self.avg_load,
            asym_prefer_cpu: self.asym_prefer_cpu,
            misfit_task_load: self.misfit_task_load,
            idle_cpus: self.idle_cpus,
            group_balance_cpu: self.group_balance_cpu,
        }
    }
}

impl LBIPerSchedGroup {
    pub fn new() -> (r: LBIPerSchedGroup)
        ensures
            r@ == GroupEntryView::empty(),
    {
        LBIPerSchedGroup {
            cpumask: None,
            group_type: None,
            sum_h_nr_running: None,
            sum_nr_running: None,
            max_capacity: None,
            min_capacity: None,
            avg_load: None,
            asym_prefer_cpu: None,
            misfit_task_load: None,
            idle_cpus: None,
            group_balance_cpu: None,
        }
    }

    /// Forget every field.
    pub fn reset(&mut self)
        ensures
            final(self)@ == GroupEntryView::empty(),
    {
        *self = LBIPerSchedGroup::new();
    }
}

} // verus!
