//! Field-address coverage: every location routes to exactly its field.

use munch::fields::CpuMask;
use munch::fields::MunchFlag;
use munch::fields::MunchLocationBool;
use munch::fields::MunchLocationBoolCpu;
use munch::fields::MunchLocationU64;
use munch::fields::MunchLocationU64Cpu;
use munch::fields::MunchLocationU64Group;
use munch::state::RustMunchState;

#[test]
fn domain_bool_locations_route_to_their_fields() {
    let mut state = RustMunchState::init(1, &vec![vec![vec![]]]);
    let md = state.open_meal(0);
    state
        .munch_bool(&md, &MunchLocationBool::SwbResult, true)
        .unwrap();
    state
        .munch_bool(&md, &MunchLocationBool::AsymCpucapacity, false)
        .unwrap();
    state
        .munch_bool(&md, &MunchLocationBool::AsymPacking, true)
        .unwrap();
    state
        .munch_bool(&md, &MunchLocationBool::HasBusiest, false)
        .unwrap();
    state
        .munch_bool(&md, &MunchLocationBool::SmtActive, true)
        .unwrap();
    let d = &state.bufs.as_ref().unwrap()[0].info.entries[0].per_sd_info[0].info;
    assert_eq!(d.should_we_balance, Some(true));
    assert_eq!(d.asym_cpucapacity, Some(false));
    assert_eq!(d.asym_packing, Some(true));
    assert_eq!(d.has_busiest, Some(false));
    assert_eq!(d.smt_active, Some(true));
    // Fields with no address stay absent.
    assert_eq!(d.share_cpucapacity, None);
    assert_eq!(d.group_balance_cpu_sg, None);
}

#[test]
fn domain_u64_locations_route_to_their_fields() {
    let mut state = RustMunchState::init(1, &vec![vec![vec![]]]);
    let md = state.open_meal(0);
    state
        .munch64(&md, &MunchLocationU64::CpuNumber, 1)
        .unwrap();
    state
        .munch64(&md, &MunchLocationU64::SdAvgLoad, 2)
        .unwrap();
    state
        .munch64(&md, &MunchLocationU64::ImbalancePct, 3)
        .unwrap();
    state
        .munch64(&md, &MunchLocationU64::Imbalance, 4)
        .unwrap();
    let d = &state.bufs.as_ref().unwrap()[0].info.entries[0].per_sd_info[0].info;
    assert_eq!(d.cpu, Some(1));
    assert_eq!(d.avg_load, Some(2));
    assert_eq!(d.imbalance_pct, Some(3));
    assert_eq!(d.imbalance, Some(4));
}

#[test]
fn per_cpu_locations_route_to_their_entry_and_fields() {
    let topology = vec![vec![vec![]], vec![vec![]]];
    let mut state = RustMunchState::init(1, &topology);
    let md = state.open_meal(0);
    state
        .munch_u64_cpu(&md, &MunchLocationU64Cpu::NrRunning, 0, 11)
        .unwrap();
    state
        .munch_u64_cpu(&md, &MunchLocationU64Cpu::HNrRunning, 0, 12)
        .unwrap();
    state
        .munch_u64_cpu(&md, &MunchLocationU64Cpu::CpuCapacity, 1, 13)
        .unwrap();
    state
        .munch_u64_cpu(&md, &MunchLocationU64Cpu::AsymCpuPriorityValue, 1, 14)
        .unwrap();
    state
        .munch_u64_cpu(&md, &MunchLocationU64Cpu::ArchScaleCpuCapacity, 0, 15)
        .unwrap();
    state
        .munch_u64_cpu(&md, &MunchLocationU64Cpu::CpuLoad, 0, 16)
        .unwrap();
    state
        .munch_u64_cpu(&md, &MunchLocationU64Cpu::CpuUtilCfsBoost, 0, 17)
        .unwrap();
    state
        .munch_u64_cpu(&md, &MunchLocationU64Cpu::MisfitTaskLoad, 0, 18)
        .unwrap();
    state
        .munch_bool_cpu(&md, &MunchLocationBoolCpu::IsCoreIdle, 0, true)
        .unwrap();
    state
        .munch_bool_cpu(&md, &MunchLocationBoolCpu::TtwuPending, 0, false)
        .unwrap();
    state
        .munch_bool_cpu(&md, &MunchLocationBoolCpu::RdOverutilized, 1, true)
        .unwrap();
    state
        .munch_bool_cpu(&md, &MunchLocationBoolCpu::RdPdOverlap, 1, false)
        .unwrap();
    let rec = &state.bufs.as_ref().unwrap()[0].info.entries[0];
    let c0 = &rec.per_cpu_info[0];
    let c1 = &rec.per_cpu_info[1];
    assert_eq!(c0.nr_running, Some(11));
    assert_eq!(c0.h_nr_running, Some(12));
    assert_eq!(c1.capacity, Some(13));
    assert_eq!(c1.asym_cpu_priority, Some(14));
    assert_eq!(c0.arch_scale_cpu_capacity, Some(15));
    assert_eq!(c0.cpu_load, Some(16));
    assert_eq!(c0.cpu_util_cfs_boost, Some(17));
    assert_eq!(c0.misfit_task_load, Some(18));
    assert_eq!(c0.is_core_idle, Some(true));
    assert_eq!(c0.ttwu_pending, Some(false));
    assert_eq!(c1.rd_overutilized, Some(true));
    assert_eq!(c1.rd_pd_overlap, Some(false));
    assert_eq!(c0.capacity, None);
    assert_eq!(c1.nr_running, None);
}

#[test]
fn group_locations_route_by_identity() {
    let topology = vec![vec![vec![10usize, 20]]];
    let mut state = RustMunchState::init(1, &topology);
    let md = state.open_meal(0);
    state
        .munch_u64_group(&md, &MunchLocationU64Group::SumHNrRunning, 10, 1)
        .unwrap();
    state
        .munch_u64_group(&md, &MunchLocationU64Group::SumNrRunning, 10, 2)
        .unwrap();
    state
        .munch_u64_group(&md, &MunchLocationU64Group::SgcMaxCapacity, 20, 3)
        .unwrap();
    state
        .munch_u64_group(&md, &MunchLocationU64Group::SgcMinCapacity, 20, 4)
        .unwrap();
    state
        .munch_u64_group(&md, &MunchLocationU64Group::SgAvgLoad, 10, 5)
        .unwrap();
    state
        .munch_u64_group(&md, &MunchLocationU64Group::SgAsymPreferCpu, 10, 6)
        .unwrap();
    state
        .munch_u64_group(&md, &MunchLocationU64Group::MisfitTaskLoadSg, 10, 7)
        .unwrap();
    state
        .munch_u64_group(&md, &MunchLocationU64Group::SgIdleCpus, 10, 8)
        .unwrap();
    state
        .munch_u64_group(&md, &MunchLocationU64Group::GroupBalanceCpu, 10, 9)
        .unwrap();
    state
        .munch_cpumask_group(&md, 20, CpuMask { bits: vec![1] })
        .unwrap();
    let sd = &state.bufs.as_ref().unwrap()[0].info.entries[0].per_sd_info[0];
    let g0 = &sd.groups[0];
    let g1 = &sd.groups[1];
    assert_eq!(g0.sum_h_nr_running, Some(1));
    assert_eq!(g0.sum_nr_running, Some(2));
    assert_eq!(g1.max_capacity, Some(3));
    assert_eq!(g1.min_capacity, Some(4));
    assert_eq!(g0.avg_load, Some(5));
    assert_eq!(g0.asym_prefer_cpu, Some(6));
    assert_eq!(g0.misfit_task_load, Some(7));
    assert_eq!(g0.idle_cpus, Some(8));
    assert_eq!(g0.group_balance_cpu, Some(9));
    assert_eq!(g1.cpumask, Some(CpuMask { bits: vec![1] }));
    assert_eq!(g0.cpumask, None);
    assert_eq!(g1.sum_h_nr_running, None);
}

#[test]
fn advance_moves_setters_to_the_next_domain() {
    // Two domains, the first with one group.
    let topology = vec![vec![vec![10usize], vec![]]];
    let mut state = RustMunchState::init(1, &topology);
    let md = state.open_meal(0);
    state
        .munch64(&md, &MunchLocationU64::SdAvgLoad, 1)
        .unwrap();
    state.munch_flag(&md, &MunchFlag::GoToNextSd).unwrap();
    state
        .munch64(&md, &MunchLocationU64::SdAvgLoad, 2)
        .unwrap();
    let rec = &state.bufs.as_ref().unwrap()[0].info.entries[0];
    assert_eq!(rec.per_sd_info[0].info.avg_load, Some(1));
    assert_eq!(rec.per_sd_info[1].info.avg_load, Some(2));
    assert!(rec.per_sd_info[0].finished);
    assert!(!rec.per_sd_info[1].finished);
    assert_eq!(rec.current_sd, 1);
}
