//! Drain scenarios: whole reports collected through the cursor state
//! machine, unit by unit.

use munch::errors::DumpError;
use munch::errors::MINUS_EINVAL;
use munch::errors::MINUS_ENOMEM;
use munch::fields::CpuMask;
use munch::fields::MunchFlag;
use munch::fields::MunchLocationBoolCpu;
use munch::fields::MunchLocationU64;
use munch::iter::create_munch_iterator;
use munch::iter::MunchIterator;
use munch::state::RustMunchState;
use munch::writer::SeqFileWriter;

/// Drain one processor's whole report into a fresh sink of the given
/// capacity, panicking on any error.
fn drain_all(state: &RustMunchState, cpu: usize, entries: usize, capacity: usize) -> String {
    let mut sink = SeqFileWriter::new(capacity);
    let mut it: MunchIterator = create_munch_iterator(cpu);
    while it.entry_index < entries {
        state.get_data(&mut sink, &it).expect("drain unit failed");
        it = state.move_iterator(&it);
    }
    sink.data().iter().collect()
}

fn one_cpu_no_domains() -> Vec<Vec<Vec<usize>>> {
    vec![vec![]]
}

#[test]
fn fresh_buffer_of_four_slots_drains_to_nulls() {
    let mut state = RustMunchState::init(4, &one_cpu_no_domains());
    state.start_dump(0).unwrap();
    let report = drain_all(&state, 0, 4, 4096);
    assert_eq!(report, "[null,null,null,null]");
    state.finalize_dump(0).unwrap();
}

#[test]
fn populated_record_drains_and_reset_clears_it() {
    // Processor 0 has one scheduling domain with no groups; two CPUs total.
    let topology = vec![vec![vec![]], vec![vec![]]];
    let mut state = RustMunchState::init(1, &topology);

    let md = state.open_meal(0);
    state
        .munch64(&md, &MunchLocationU64::SdAvgLoad, 123)
        .unwrap();
    state.munch_flag(&md, &MunchFlag::GoToNextSd).unwrap();
    state
        .munch_bool_cpu(&md, &MunchLocationBoolCpu::IdleCpu, 1, true)
        .unwrap();
    state.close_meal(&md).unwrap();

    state.start_dump(0).unwrap();
    let report = drain_all(&state, 0, 1, 8192);

    assert!(report.starts_with("[{\"per_sd_info\":[{\"sd\":{"));
    assert!(report.contains("\"avg_load\":123"));
    assert!(report.contains("\"sgs\":[]}"));
    assert!(report.contains("\"per_cpu_info\":["));
    // CPU 0's entry is all absent, CPU 1 carries the one boolean.
    let cpu_part = report.split("\"per_cpu_info\":[").nth(1).unwrap();
    let mut cpu_objects = cpu_part.split("},{");
    let cpu0 = cpu_objects.next().unwrap();
    let cpu1 = cpu_objects.next().unwrap();
    assert!(cpu0.contains("\"idle_cpu\":null"));
    assert!(cpu1.contains("\"idle_cpu\":true"));
    assert!(report.ends_with("]}]"));

    state.finalize_dump(0).unwrap();
    state.start_dump(0).unwrap();
    let after = drain_all(&state, 0, 1, 8192);
    assert_eq!(after, "[null]");
    state.finalize_dump(0).unwrap();
}

#[test]
fn groups_drain_inside_their_domain() {
    // One CPU, one domain with two groups known as 10 and 20.
    let topology = vec![vec![vec![10usize, 20]]];
    let mut state = RustMunchState::init(1, &topology);

    let md = state.open_meal(0);
    state
        .munch_u64_group(
            &md,
            &munch::fields::MunchLocationU64Group::SumNrRunning,
            20,
            7,
        )
        .unwrap();
    state.munch_flag(&md, &MunchFlag::GoToNextSd).unwrap();
    state.close_meal(&md).unwrap();

    state.start_dump(0).unwrap();
    let report = drain_all(&state, 0, 1, 16384);
    let sgs = report.split("\"sgs\":[").nth(1).unwrap();
    let mut groups = sgs.split("},{");
    let g0 = groups.next().unwrap();
    let g1 = groups.next().unwrap();
    assert!(g0.contains("\"sum_nr_running\":null"));
    assert!(g1.contains("\"sum_nr_running\":7"));
    state.finalize_dump(0).unwrap();
}

#[test]
fn extreme_u64_value_renders_in_full() {
    let topology = vec![vec![vec![]]];
    let mut state = RustMunchState::init(1, &topology);
    let md = state.open_meal(0);
    state
        .munch64(&md, &MunchLocationU64::Imbalance, u64::MAX)
        .unwrap();
    state
        .munch64(&md, &MunchLocationU64::CpuNumber, 0)
        .unwrap();
    state.munch_flag(&md, &MunchFlag::GoToNextSd).unwrap();
    state.close_meal(&md).unwrap();
    state.start_dump(0).unwrap();
    let report = drain_all(&state, 0, 1, 8192);
    assert!(report.contains("\"imbalance\":18446744073709551615"));
    assert!(report.contains("\"cpu\":0"));
}

#[test]
fn mask_renders_one_bit_per_cpu() {
    // Three CPUs; the mask word has bits 0 and 2 set.
    let topology = vec![vec![vec![]], vec![vec![]], vec![vec![]]];
    let mut state = RustMunchState::init(1, &topology);
    let md = state.open_meal(0);
    let mask = CpuMask { bits: vec![0b101] };
    state.munch_cpumask(&md, mask).unwrap();
    state.munch_flag(&md, &MunchFlag::GoToNextSd).unwrap();
    state.close_meal(&md).unwrap();
    state.start_dump(0).unwrap();
    let report = drain_all(&state, 0, 1, 16384);
    assert!(report.contains("\"cpumask\":\"101\""));
}

#[test]
fn idle_type_renders_as_quoted_name() {
    let topology = vec![vec![vec![]]];
    let mut state = RustMunchState::init(1, &topology);
    let md = state.open_meal(0);
    state
        .munch_cpu_idle_type(&md, &munch::fields::CpuIdleType::CpuNewlyIdle)
        .unwrap();
    state.munch_flag(&md, &MunchFlag::GoToNextSd).unwrap();
    state.close_meal(&md).unwrap();
    state.start_dump(0).unwrap();
    let report = drain_all(&state, 0, 1, 8192);
    assert!(report.contains("\"cpu_idle_type\":\"CPU_NEWLY_IDLE\""));
}

#[test]
fn group_type_renders_as_quoted_name() {
    let topology = vec![vec![vec![5usize]]];
    let mut state = RustMunchState::init(1, &topology);
    let md = state.open_meal(0);
    state
        .munch_group_type_group(&md, 5, munch::fields::GroupType::GroupOverloaded)
        .unwrap();
    state.munch_flag(&md, &MunchFlag::GoToNextSd).unwrap();
    state.close_meal(&md).unwrap();
    state.start_dump(0).unwrap();
    let report = drain_all(&state, 0, 1, 16384);
    assert!(report.contains("\"group_type\":\"group_overloaded\""));
}

#[test]
fn full_sink_reports_overflow_and_keeps_its_contents() {
    let mut state = RustMunchState::init(2, &one_cpu_no_domains());
    state.start_dump(0).unwrap();
    // The first unit is "[null," — six characters; three will not do.
    let mut small = SeqFileWriter::new(3);
    let it = create_munch_iterator(0);
    let err = state.get_data(&mut small, &it).unwrap_err();
    match err {
        DumpError::BufferOutOfBounds(held) => assert_eq!(held, 0),
        other => panic!("expected overflow, got {:?}", other),
    }
    assert_eq!(err.to_errno(), MINUS_ENOMEM);
    assert!(small.data().is_empty());
    // The identical cursor succeeds against a roomier sink.
    let mut big = SeqFileWriter::new(64);
    state.get_data(&mut big, &it).unwrap();
    let text: String = big.data().iter().collect();
    assert_eq!(text, "[null,");
}

#[test]
fn reading_an_unlocked_buffer_is_the_fatal_drain_error() {
    let state = RustMunchState::init(2, &one_cpu_no_domains());
    let mut sink = SeqFileWriter::new(64);
    let it = create_munch_iterator(0);
    let err = state.get_data(&mut sink, &it).unwrap_err();
    assert_eq!(err, DumpError::NotReadOnly);
    assert!(err.is_fatal());
    assert_eq!(err.to_errno(), MINUS_EINVAL);
}

#[test]
fn drain_errors_on_unknown_processor_and_missing_table() {
    let mut state = RustMunchState::init(2, &one_cpu_no_domains());
    assert_eq!(state.start_dump(9).unwrap_err(), DumpError::CpuOutOfBounds(9));
    let mut none = RustMunchState::uninitialized();
    assert_eq!(
        none.start_dump(0).unwrap_err(),
        DumpError::RingBufferUninitialized
    );
    assert_eq!(
        none.finalize_dump(0).unwrap_err(),
        DumpError::RingBufferUninitialized
    );
    let mut sink = SeqFileWriter::new(8);
    let it = create_munch_iterator(0);
    assert_eq!(
        none.get_data(&mut sink, &it).unwrap_err(),
        DumpError::RingBufferUninitialized
    );
}

#[test]
fn cursor_past_the_last_slot_is_out_of_bounds() {
    let mut state = RustMunchState::init(1, &one_cpu_no_domains());
    state.start_dump(0).unwrap();
    let mut sink = SeqFileWriter::new(64);
    let mut it = create_munch_iterator(0);
    state.get_data(&mut sink, &it).unwrap();
    it = state.move_iterator(&it);
    assert_eq!(it.entry_index, 1);
    let err = state.get_data(&mut sink, &it).unwrap_err();
    assert_eq!(err, DumpError::EntryOutOfBounds(1));
}

#[test]
fn whole_buffer_drain_produces_the_full_report() {
    let buffer = munch::ring::RingBuffer::new(4, 0, &vec![], 1);
    let mut sink = SeqFileWriter::new(64);
    munch::iter::dump_buffer(&mut sink, &buffer).unwrap();
    let text: String = sink.data().iter().collect();
    assert_eq!(text, "[null,null,null,null]");
}

#[test]
fn whole_buffer_drain_succeeds_exactly_when_the_report_fits() {
    let buffer = munch::ring::RingBuffer::new(4, 0, &vec![], 1);
    // The report is exactly twenty-one characters long.
    let mut exact = SeqFileWriter::new(21);
    munch::iter::dump_buffer(&mut exact, &buffer).unwrap();
    assert_eq!(exact.data().len(), 21);
    let mut short = SeqFileWriter::new(20);
    let err = munch::iter::dump_buffer(&mut short, &buffer).unwrap_err();
    assert!(matches!(err, DumpError::BufferOutOfBounds(_)));
}

#[test]
fn sealed_default_record_renders_exactly() {
    // One CPU, one domain with no groups, nothing set: the report is the
    // fully spelled-out object with every field as the null placeholder.
    let topology = vec![vec![vec![]]];
    let mut state = RustMunchState::init(1, &topology);
    let md = state.open_meal(0);
    state.munch_flag(&md, &MunchFlag::GoToNextSd).unwrap();
    state.close_meal(&md).unwrap();
    state.start_dump(0).unwrap();
    let report = drain_all(&state, 0, 1, 16384);
    let mut expected = String::new();
    expected.push_str("[{\"per_sd_info\":[");
    expected.push_str("{\"sd\":{");
    expected.push_str("\"cpu\":null,\"cpumask\":null,\"cpu_idle_type\":null,");
    expected.push_str("\"group_balance_cpu_sg\":null,\"asym_cpucapacity\":null,");
    expected.push_str("\"asym_packing\":null,\"share_cpucapacity\":null,");
    expected.push_str("\"should_we_balance\":null,\"has_busiest\":null,\"avg_load\":null,");
    expected.push_str("\"imbalance_pct\":null,\"smt_active\":null,\"imbalance\":null");
    expected.push_str("},\"sgs\":[]}");
    expected.push_str("],\"per_cpu_info\":[");
    expected.push_str("{\"idle_cpu\":null,\"is_core_idle\":null,\"nr_running\":null,");
    expected.push_str("\"h_nr_running\":null,\"ttwu_pending\":null,\"capacity\":null,");
    expected.push_str("\"asym_cpu_priority\":null,\"rd_overutilized\":null,");
    expected.push_str("\"rd_pd_overlap\":null,\"arch_scale_cpu_capacity\":null,");
    expected.push_str("\"cpu_load\":null,\"cpu_util_cfs_boost\":null,");
    expected.push_str("\"misfit_task_load\":null}");
    expected.push_str("]}]");
    assert_eq!(report, expected);
}

#[test]
fn whole_buffer_drain_matches_the_unit_by_unit_drain() {
    let topology = vec![vec![vec![3usize], vec![]], vec![vec![]]];
    let mut state = RustMunchState::init(2, &topology);
    let md = state.open_meal(0);
    state
        .munch64(&md, &MunchLocationU64::ImbalancePct, 42)
        .unwrap();
    state.munch_flag(&md, &MunchFlag::GoToNextSd).unwrap();
    state.munch_flag(&md, &MunchFlag::GoToNextSd).unwrap();
    state
        .munch_bool_cpu(&md, &MunchLocationBoolCpu::TtwuPending, 0, true)
        .unwrap();
    state.close_meal(&md).unwrap();
    state.start_dump(0).unwrap();
    let unit_by_unit = drain_all(&state, 0, 2, 65536);
    let mut sink = SeqFileWriter::new(65536);
    munch::iter::dump_buffer(&mut sink, &state.bufs.as_ref().unwrap()[0].info).unwrap();
    let whole: String = sink.data().iter().collect();
    assert_eq!(unit_by_unit, whole);
    state.finalize_dump(0).unwrap();
}
