//! One ring-buffer slot: a record of a single load-balancing decision.
//!
//! A record holds one sub-record per scheduling domain of its processor, in
//! walk order, and one per logical CPU.  While it is being filled, a cursor
//! names the scheduling domain the producer is currently describing; a
//! domain is sealed, and the cursor advanced, by an explicit signal.  The
//! topology (how many domains, and which group identities each holds) is
//! fixed when the record is built and survives every reset.

use vstd::prelude::*;

use crate::errors::GroupId;
use crate::errors::SetError;
use crate::fields::CpuIdleType;
use crate::fields::CpuMask;
use crate::fields::DomainInfoView;
use crate::fields::GroupEntryView;
use crate::fields::GroupType;
use crate::fields::LBIPerCpu;
use crate::fields::LBIPerSchedDomainInfo;
use crate::fields::LBIPerSchedGroup;
use crate::fields::MunchFlag;
use crate::fields::MunchLocationBool;
use crate::fields::MunchLocationBoolCpu;
use crate::fields::MunchLocationU64;
use crate::fields::MunchLocationU64Cpu;
use crate::fields::MunchLocationU64Group;

verus! {

/// One per-scheduling-domain sub-record: its flat scalars, its group
/// entries, and the identities those entries answer to.
#[derive(Debug, PartialEq, Eq)]
pub struct LBIPerSchedDomain {
    /// Set when the producer moved past this domain.
    pub finished: bool,
    /// The domain's flat scalar fields.
    pub info: LBIPerSchedDomainInfo,
    /// The group identities fixed at construction; entry `i` of `groups`
    /// belongs to identity `i` of this list.
    pub group_ptrs: Vec<GroupId>,
    /// One entry per scheduling group of this domain.
    pub groups: Vec<LBIPerSchedGroup>,
}

/// The mathematical shape of a per-domain sub-record.
#[verifier::ext_equal]
pub ghost struct DomainEntryView {
    pub finished: bool,
    pub info: DomainInfoView,
    pub group_ptrs: Seq<GroupId>,
    pub groups: Seq<GroupEntryView>,
}

impl View for LBIPerSchedDomain {
    type V = DomainEntryView;

    open spec fn view(&self) -> DomainEntryView {
        DomainEntryView {
            finished: self.finished,
            info: self.info@,
            group_ptrs: self.group_ptrs@,
            groups: self.groups@.map_values(|g: LBIPerSchedGroup| g@),
        }
    }
}

impl DomainEntryView {
    /// As many group entries as group identities, and no more than a
    /// machine word can count.
    pub open spec fn wf(self) -> bool {
        &&& self.groups.len() == self.group_ptrs.len()
        &&& self.groups.len() <= usize::MAX
    }

    /// The emptied form of this sub-record: the topology stays, every field
    /// is forgotten, the seal is lifted.
    pub open spec fn resetted(self) -> DomainEntryView {
        DomainEntryView {
            finished: false,
            info: DomainInfoView::empty(),
            group_ptrs: self.group_ptrs,
            groups: Seq::new(self.groups.len(), |i: int| GroupEntryView::empty()),
        }
    }
}

/// The index of the first group identity equal to `ptr`, if any.
pub open spec fn find_group(ids: Seq<GroupId>, ptr: GroupId) -> Option<int>
    decreases ids.len(),
{
    if ids.len() == 0 {
        None
    } else if ids[0] == ptr {
        Some(0)
    } else {
        match find_group(ids.drop_first(), ptr) {
            None => None,
            Some(i) => Some(i + 1),
        }
    }
}

/// A first match at `i` pins `find_group` down.
pub proof fn lemma_find_group_first(ids: Seq<GroupId>, ptr: GroupId, i: int)
    requires
        0 <= i < ids.len(),
        ids[i] == ptr,
        forall|j: int| 0 <= j < i ==> ids[j] != ptr,
    ensures
        find_group(ids, ptr) == Some(i),
    decreases i,
{
    if i == 0 {
    } else {
        lemma_find_group_first(ids.drop_first(), ptr, i - 1);
    }
}

/// No match anywhere means `find_group` finds nothing.
pub proof fn lemma_find_group_none(ids: Seq<GroupId>, ptr: GroupId)
    requires
        forall|j: int| 0 <= j < ids.len() ==> ids[j] != ptr,
    ensures
        find_group(ids, ptr) is None,
    decreases ids.len(),
{
    if ids.len() > 0 {
        lemma_find_group_none(ids.drop_first(), ptr);
    }
}

/// A found index is in range and is the first match.
pub proof fn lemma_find_group_some(ids: Seq<GroupId>, ptr: GroupId)
    requires
        find_group(ids, ptr) is Some,
    ensures
        0 <= find_group(ids, ptr)->Some_0 < ids.len(),
        ids[find_group(ids, ptr)->Some_0] == ptr,
    decreases ids.len(),
{
    if ids.len() > 0 && ids[0] != ptr {
        lemma_find_group_some(ids.drop_first(), ptr);
    }
}

impl LBIPerSchedDomain {
    /// A fresh sub-record for the given group identities: one empty group
    /// entry per identity, nothing set, not sealed.
    pub fn new(group_ptrs: Vec<GroupId>) -> (r: LBIPerSchedDomain)
        ensures
            r@.wf(),
            r@.finished == false,
            r@.info == DomainInfoView::empty(),
            r@.group_ptrs == group_ptrs@,
            r@ == (DomainEntryView {
                finished: false,
                info: DomainInfoView::empty(),
                group_ptrs: group_ptrs@,
                groups: Seq::new(group_ptrs@.len(), |i: int| GroupEntryView::empty()),
            }),
    {
        let n = group_ptrs.len();
        let mut groups: Vec<LBIPerSchedGroup> = Vec::new();
        let mut i: usize = 0;
        while i < n
            invariant
                i <= n,
                groups@.len() == i,
                forall|k: int| 0 <= k < i ==> (#[trigger] groups@[k])@ == GroupEntryView::empty(),
            decreases n - i,
        {
            groups.push(LBIPerSchedGroup::new());
            i = i + 1;
        }
        let r = LBIPerSchedDomain {
            finished: false,
            info: LBIPerSchedDomainInfo::new(),
            group_ptrs,
            groups,
        };
        proof {
            assert(r@.groups =~= Seq::new(r.group_ptrs@.len(), |i: int| GroupEntryView::empty()));
            assert(r@ =~= (DomainEntryView {
                finished: false,
                info: DomainInfoView::empty(),
                group_ptrs: r.group_ptrs@,
                groups: Seq::new(r.group_ptrs@.len(), |i: int| GroupEntryView::empty()),
            }));
        }
        r
    }

    /// Forget every field and lift the seal; the topology stays.
    pub fn reset(&mut self)
        ensures
            final(self)@ == old(self)@.resetted(),
    {
        self.finished = false;
        self.info.reset();
        let n = self.groups.len();
        let mut i: usize = 0;
        while i < n
            invariant
                i <= n,
                n == self.groups@.len(),
                self.finished == false,
                self.info@ == DomainInfoView::empty(),
                self.group_ptrs@ == old(self).group_ptrs@,
                forall|k: int|
                    0 <= k < i ==> (#[trigger] self.groups@[k])@ == GroupEntryView::empty(),
            decreases n - i,
        {
            let g = &mut self.groups[i];
            g.reset();
            i = i + 1;
        }
        proof {
            assert(self@.groups =~= Seq::new(old(self)@.groups.len(), |i: int| GroupEntryView::empty()));
            assert(self@ =~= old(self)@.resetted());
        }
    }

    /// Seal this sub-record; sealing twice is a caller bug and is ruled out.
    pub fn mark_finished(&mut self)
        requires
            old(self).finished == false,
        ensures
            final(self)@ == (DomainEntryView { finished: true, ..old(self)@ }),
    {
        self.finished = true;
    }

    /// Look a group identity up in the topology snapshot: the index of the
    /// first match, or the fatal not-in-topology error.
    pub fn get_sg_index(&self, ptr: GroupId) -> (r: Result<usize, SetError>)
        ensures
            match r {
                Ok(i) => find_group(self@.group_ptrs, ptr) == Some(i as int),
                Err(e) => e == SetError::SchedGroupDoesNotExist(ptr) && find_group(
                    self@.group_ptrs,
                    ptr,
                ) is None,
            },
    {
        let n = self.group_ptrs.len();
        let mut i: usize = 0;
        while i < n
            invariant
                i <= n,
                n == self.group_ptrs@.len(),
                forall|j: int| 0 <= j < i ==> self.group_ptrs@[j] != ptr,
            decreases n - i,
        {
            if self.group_ptrs[i] == ptr {
                proof {
                    lemma_find_group_first(self.group_ptrs@, ptr, i as int);
                }
                return Ok(i);
            }
            i = i + 1;
        }
        proof {
            lemma_find_group_none(self.group_ptrs@, ptr);
        }
        Err(SetError::SchedGroupDoesNotExist(ptr))
    }
}

/// One whole record: sealed marker, per-domain sub-records in walk order,
/// one entry per logical CPU, and the cursor naming the domain currently
/// being described.
#[derive(Debug, PartialEq, Eq)]
pub struct LoadBalanceInfo {
    /// Set once the producer closed the record; a reader treats an unsealed
    /// record as absent.
    pub finished: bool,
    /// One sub-record per scheduling domain, in walk order.
    pub per_sd_info: Vec<LBIPerSchedDomain>,
    /// One entry per logical CPU, indexed by CPU number.
    pub per_cpu_info: Vec<LBIPerCpu>,
    /// The domain the producer is currently describing.
    pub current_sd: usize,
}

/// The mathematical shape of one record.
#[verifier::ext_equal]
pub ghost struct RecordView {
    pub finished: bool,
    pub per_sd_info: Seq<DomainEntryView>,
    pub per_cpu_info: Seq<LBIPerCpu>,
    pub current_sd: int,
}

impl View for LoadBalanceInfo {
    type V = RecordView;

    open spec fn view(&self) -> RecordView {
        RecordView {
            finished: self.finished,
            per_sd_info: self.per_sd_info@.map_values(|d: LBIPerSchedDomain| d@),
            per_cpu_info: self.per_cpu_info@,
            current_sd: self.current_sd as int,
        }
    }
}

impl RecordView {
    /// The record's standing invariant: the cursor never runs past the
    /// domain list, a domain is sealed exactly when the cursor moved past
    /// it, and every domain matches its topology snapshot.
    pub open spec fn wf(self) -> bool {
        &&& 0 <= self.current_sd <= self.per_sd_info.len()
        &&& self.per_sd_info.len() <= usize::MAX
        &&& self.per_cpu_info.len() <= usize::MAX
        &&& forall|i: int|
            0 <= i < self.per_sd_info.len() ==> (#[trigger] self.per_sd_info[i]).wf()
        &&& forall|i: int|
            0 <= i < self.per_sd_info.len() ==> ((#[trigger] self.per_sd_info[i]).finished <==> i
                < self.current_sd)
    }

    /// The emptied form of this record: the topology stays, everything else
    /// is forgotten.
    pub open spec fn resetted(self) -> RecordView {
        RecordView {
            finished: false,
            per_sd_info: Seq::new(self.per_sd_info.len(), |i: int| self.per_sd_info[i].resetted()),
            per_cpu_info: Seq::new(self.per_cpu_info.len(), |i: int| LBIPerCpu::spec_empty()),
            current_sd: 0,
        }
    }

    /// Whether this record looks freshly reset.
    pub open spec fn is_reset(self) -> bool {
        self == self.resetted()
    }
}

/// A domain's flat scalars after one boolean field was set.
pub open spec fn with_domain_bool(d: DomainInfoView, loc: MunchLocationBool, x: bool) -> DomainInfoView {
    match loc {
        MunchLocationBool::SwbResult => DomainInfoView { should_we_balance: Some(x), ..d },
        MunchLocationBool::AsymCpucapacity => DomainInfoView { asym_cpucapacity: Some(x), ..d },
        MunchLocationBool::AsymPacking => DomainInfoView { asym_packing: Some(x), ..d },
        MunchLocationBool::HasBusiest => DomainInfoView { has_busiest: Some(x), ..d },
        MunchLocationBool::SmtActive => DomainInfoView { smt_active: Some(x), ..d },
    }
}

/// A domain's flat scalars after one `u64` field was set.
pub open spec fn with_domain_u64(d: DomainInfoView, loc: MunchLocationU64, x: u64) -> DomainInfoView {
    match loc {
        MunchLocationU64::CpuNumber => DomainInfoView { cpu: Some(x), ..d },
        MunchLocationU64::SdAvgLoad => DomainInfoView { avg_load: Some(x), ..d },
        MunchLocationU64::ImbalancePct => DomainInfoView { imbalance_pct: Some(x), ..d },
        MunchLocationU64::Imbalance => DomainInfoView { imbalance: Some(x), ..d },
    }
}

/// A per-CPU entry after one `u64` field was set.
pub open spec fn with_cpu_u64(c: LBIPerCpu, loc: MunchLocationU64Cpu, x: u64) -> LBIPerCpu {
    match loc {
        MunchLocationU64Cpu::NrRunning => LBIPerCpu { nr_running: Some(x), ..c },
        MunchLocationU64Cpu::HNrRunning => LBIPerCpu { h_nr_running: Some(x), ..c },
        MunchLocationU64Cpu::CpuCapacity => LBIPerCpu { capacity: Some(x), ..c },
        MunchLocationU64Cpu::AsymCpuPriorityValue => LBIPerCpu { asym_cpu_priority: Some(x), ..c },
        MunchLocationU64Cpu::ArchScaleCpuCapacity => LBIPerCpu {
            arch_scale_cpu_capacity: Some(x),
            ..c
        },
        MunchLocationU64Cpu::CpuLoad => LBIPerCpu { cpu_load: Some(x), ..c },
        MunchLocationU64Cpu::CpuUtilCfsBoost => LBIPerCpu { cpu_util_cfs_boost: Some(x), ..c },
        MunchLocationU64Cpu::MisfitTaskLoad => LBIPerCpu { misfit_task_load: Some(x), ..c },
    }
}

/// A per-CPU entry after one boolean field was set.
pub open spec fn with_cpu_bool(c: LBIPerCpu, loc: MunchLocationBoolCpu, x: bool) -> LBIPerCpu {
    match loc {
        MunchLocationBoolCpu::IdleCpu => LBIPerCpu { idle_cpu: Some(x), ..c },
        MunchLocationBoolCpu::IsCoreIdle => LBIPerCpu { is_core_idle: Some(x), ..c },
        MunchLocationBoolCpu::TtwuPending => LBIPerCpu { ttwu_pending: Some(x), ..c },
        MunchLocationBoolCpu::RdOverutilized => LBIPerCpu { rd_overutilized: Some(x), ..c },
        MunchLocationBoolCpu::RdPdOverlap => LBIPerCpu { rd_pd_overlap: Some(x), ..c },
    }
}

/// A group entry after one `u64` field was set.
pub open spec fn with_group_u64(g: GroupEntryView, loc: MunchLocationU64Group, x: u64) -> GroupEntryView {
    match loc {
        MunchLocationU64Group::SumHNrRunning => GroupEntryView { sum_h_nr_running: Some(x), ..g },
        MunchLocationU64Group::SumNrRunning => GroupEntryView { sum_nr_running: Some(x), ..g },
        MunchLocationU64Group::SgcMaxCapacity => GroupEntryView { max_capacity: Some(x), ..g },
        MunchLocationU64Group::SgcMinCapacity => GroupEntryView { min_capacity: Some(x), ..g },
        MunchLocationU64Group::SgAvgLoad => GroupEntryView { avg_load: Some(x), ..g },
        MunchLocationU64Group::SgAsymPreferCpu => GroupEntryView { asym_prefer_cpu: Some(x), ..g },
        MunchLocationU64Group::MisfitTaskLoadSg => GroupEntryView { misfit_task_load: Some(x), ..g },
        MunchLocationU64Group::SgIdleCpus => GroupEntryView { idle_cpus: Some(x), ..g },
        MunchLocationU64Group::GroupBalanceCpu => GroupEntryView { group_balance_cpu: Some(x), ..g },
    }
}

/// A record after its current domain's flat scalars were replaced.
pub open spec fn record_with_domain_info(r: RecordView, info: DomainInfoView) -> RecordView {
    let d = r.per_sd_info[r.current_sd];
    RecordView {
        per_sd_info: r.per_sd_info.update(r.current_sd, DomainEntryView { info: info, ..d }),
        ..r
    }
}

/// What a domain-scoped setter does: update one scalar of the current
/// domain, or report the cursor out of bounds, leaving the record alone.
pub open spec fn spec_set_value_bool(r: RecordView, loc: MunchLocationBool, x: bool) -> (
    RecordView,
    Result<(), SetError>,
) {
    if r.current_sd < r.per_sd_info.len() {
        (record_with_domain_info(r, with_domain_bool(r.per_sd_info[r.current_sd].info, loc, x)), Ok(()))
    } else {
        (r, Err(SetError::SdOutOfBounds(r.current_sd as usize)))
    }
}

/// What a domain-scoped `u64` setter does.
pub open spec fn spec_set_value_u64(r: RecordView, loc: MunchLocationU64, x: u64) -> (
    RecordView,
    Result<(), SetError>,
) {
    if r.current_sd < r.per_sd_info.len() {
        (record_with_domain_info(r, with_domain_u64(r.per_sd_info[r.current_sd].info, loc, x)), Ok(()))
    } else {
        (r, Err(SetError::SdOutOfBounds(r.current_sd as usize)))
    }
}

/// What the idle-state setter does: tag the current domain.
pub open spec fn spec_set_cpu_idle_type(r: RecordView, t: CpuIdleType) -> (
    RecordView,
    Result<(), SetError>,
) {
    if r.current_sd < r.per_sd_info.len() {
        (
            record_with_domain_info(
                r,
                DomainInfoView { cpu_idle_type: Some(t), ..r.per_sd_info[r.current_sd].info },
            ),
            Ok(()),
        )
    } else {
        (r, Err(SetError::SdOutOfBounds(r.current_sd as usize)))
    }
}

/// What the mask setter does: store the mask on the current domain.
pub open spec fn spec_set_cpumask(r: RecordView, bits: Seq<u64>) -> (
    RecordView,
    Result<(), SetError>,
) {
    if r.current_sd < r.per_sd_info.len() {
        (
            record_with_domain_info(
                r,
                DomainInfoView { cpumask: Some(bits), ..r.per_sd_info[r.current_sd].info },
            ),
            Ok(()),
        )
    } else {
        (r, Err(SetError::SdOutOfBounds(r.current_sd as usize)))
    }
}

/// What the advance signal does: seal the current domain and move the
/// cursor past it, or report the cursor out of bounds.
pub open spec fn spec_process_flag(r: RecordView, flag: MunchFlag) -> (
    RecordView,
    Result<(), SetError>,
) {
    if r.current_sd < r.per_sd_info.len() {
        let d = r.per_sd_info[r.current_sd];
        (
            RecordView {
                per_sd_info: r.per_sd_info.update(
                    r.current_sd,
                    DomainEntryView { finished: true, ..d },
                ),
                current_sd: r.current_sd + 1,
                ..r
            },
            Ok(()),
        )
    } else {
        (r, Err(SetError::SdOutOfBounds(r.current_sd as usize)))
    }
}

/// What a per-CPU `u64` setter does: update one field of one CPU entry, or
/// report the CPU index out of bounds.
pub open spec fn spec_set_value_u64_cpu(
    r: RecordView,
    loc: MunchLocationU64Cpu,
    cpu: int,
    x: u64,
) -> (RecordView, Result<(), SetError>) {
    if cpu < r.per_cpu_info.len() {
        (
            RecordView {
                per_cpu_info: r.per_cpu_info.update(cpu, with_cpu_u64(r.per_cpu_info[cpu], loc, x)),
                ..r
            },
            Ok(()),
        )
    } else {
        (r, Err(SetError::CpuOutOfBounds(cpu as usize)))
    }
}

/// What a per-CPU boolean setter does.
pub open spec fn spec_set_value_bool_cpu(
    r: RecordView,
    loc: MunchLocationBoolCpu,
    cpu: int,
    x: bool,
) -> (RecordView, Result<(), SetError>) {
    if cpu < r.per_cpu_info.len() {
        (
            RecordView {
                per_cpu_info: r.per_cpu_info.update(cpu, with_cpu_bool(r.per_cpu_info[cpu], loc, x)),
                ..r
            },
            Ok(()),
        )
    } else {
        (r, Err(SetError::CpuOutOfBounds(cpu as usize)))
    }
}

/// A record after one group entry of its current domain was replaced.
pub open spec fn record_with_group(r: RecordView, gi: int, g: GroupEntryView) -> RecordView {
    let d = r.per_sd_info[r.current_sd];
    RecordView {
        per_sd_info: r.per_sd_info.update(
            r.current_sd,
            DomainEntryView { groups: d.groups.update(gi, g), ..d },
        ),
        ..r
    }
}

/// What a group-scoped `u64` setter does: find the identity in the current
/// domain's topology snapshot and update that entry; an unknown identity is
/// the fatal not-in-topology error, an out-of-range cursor the fatal
/// cursor error; either way the record is left alone.
pub open spec fn spec_set_value_u64_group(
    r: RecordView,
    loc: MunchLocationU64Group,
    ptr: GroupId,
    x: u64,
) -> (RecordView, Result<(), SetError>) {
    if r.current_sd < r.per_sd_info.len() {
        let d = r.per_sd_info[r.current_sd];
        match find_group(d.group_ptrs, ptr) {
            Some(gi) => (record_with_group(r, gi, with_group_u64(d.groups[gi], loc, x)), Ok(())),
            None => (r, Err(SetError::SchedGroupDoesNotExist(ptr))),
        }
    } else {
        (r, Err(SetError::SdOutOfBounds(r.current_sd as usize)))
    }
}

/// What the group mask setter does.
pub open spec fn spec_set_cpumask_group(r: RecordView, ptr: GroupId, bits: Seq<u64>) -> (
    RecordView,
    Result<(), SetError>,
) {
    if r.current_sd < r.per_sd_info.len() {
        let d = r.per_sd_info[r.current_sd];
        match find_group(d.group_ptrs, ptr) {
            Some(gi) => (
                record_with_group(r, gi, GroupEntryView { cpumask: Some(bits), ..d.groups[gi] }),
                Ok(()),
            ),
            None => (r, Err(SetError::SchedGroupDoesNotExist(ptr))),
        }
    } else {
        (r, Err(SetError::SdOutOfBounds(r.current_sd as usize)))
    }
}

/// What the group classification setter does.
pub open spec fn spec_set_group_type_group(r: RecordView, ptr: GroupId, t: GroupType) -> (
    RecordView,
    Result<(), SetError>,
) {
    if r.current_sd < r.per_sd_info.len() {
        let d = r.per_sd_info[r.current_sd];
        match find_group(d.group_ptrs, ptr) {
            Some(gi) => (
                record_with_group(r, gi, GroupEntryView { group_type: Some(t), ..d.groups[gi] }),
                Ok(()),
            ),
            None => (r, Err(SetError::SchedGroupDoesNotExist(ptr))),
        }
    } else {
        (r, Err(SetError::SdOutOfBounds(r.current_sd as usize)))
    }
}

/// A fresh per-domain sub-record for the given identities.
pub open spec fn fresh_domain(ids: Seq<GroupId>) -> DomainEntryView {
    DomainEntryView {
        finished: false,
        info: DomainInfoView::empty(),
        group_ptrs: ids,
        groups: Seq::new(ids.len(), |i: int| GroupEntryView::empty()),
    }
}

/// A fresh record for the given topology.
pub open spec fn fresh_record(topology: Seq<Seq<GroupId>>, cpu_count: nat) -> RecordView {
    RecordView {
        finished: false,
        per_sd_info: Seq::new(topology.len(), |i: int| fresh_domain(topology[i])),
        per_cpu_info: Seq::new(cpu_count, |i: int| LBIPerCpu::spec_empty()),
        current_sd: 0,
    }
}

impl LoadBalanceInfo {
    /// A fresh record: one sub-record per scheduling domain, built from that
    /// domain's group identities, and one empty entry per logical CPU.
    pub fn new(group_ptrs: Vec<Vec<GroupId>>, cpu_count: usize) -> (r: LoadBalanceInfo)
        ensures
            r@ == fresh_record(group_ptrs.deep_view(), cpu_count as nat),
            r@.wf(),
    {
        let ghost topo = group_ptrs.deep_view();
        let mut rem = group_ptrs;
        let mut sd_entries: Vec<LBIPerSchedDomain> = Vec::new();
        while rem.len() > 0
            invariant
                sd_entries@.len() + rem@.len() == topo.len(),
                forall|k: int|
                    0 <= k < rem@.len() ==> (#[trigger] rem@[k])@ == topo[sd_entries@.len() + k],
                forall|k: int|
                    0 <= k < sd_entries@.len() ==> (#[trigger] sd_entries@[k])@ == fresh_domain(
                        topo[k],
                    ),
                forall|k: int|
                    0 <= k < sd_entries@.len() ==> (#[trigger] sd_entries@[k])@.wf(),
            decreases rem@.len(),
        {
            let ids = rem.remove(0);
            sd_entries.push(LBIPerSchedDomain::new(ids));
        }
        let mut cpu_entries: Vec<LBIPerCpu> = Vec::new();
        let mut i: usize = 0;
        while i < cpu_count
            invariant
                i <= cpu_count,
                cpu_entries@.len() == i,
                forall|k: int|
                    0 <= k < i ==> #[trigger] cpu_entries@[k] == LBIPerCpu::spec_empty(),
            decreases cpu_count - i,
        {
            cpu_entries.push(LBIPerCpu::new());
            i = i + 1;
        }
        let r = LoadBalanceInfo {
            finished: false,
            per_sd_info: sd_entries,
            per_cpu_info: cpu_entries,
            current_sd: 0,
        };
        proof {
            assert(r@ =~~= fresh_record(topo, cpu_count as nat));
            assert(r.per_sd_info@.len() <= usize::MAX) by {
                assert(r.per_sd_info.len() == r.per_sd_info@.len());
            }
            assert(r.per_cpu_info@.len() <= usize::MAX) by {
                assert(r.per_cpu_info.len() == r.per_cpu_info@.len());
            }
            assert(r@.wf());
        }
        r
    }

    /// Empty the record in place: the topology stays, every field and both
    /// cursors are forgotten, the seal is lifted.
    pub fn reset(&mut self)
        requires
            old(self)@.wf(),
        ensures
            final(self)@ == old(self)@.resetted(),
            final(self)@.wf(),
    {
        self.finished = false;
        let n = self.per_sd_info.len();
        let mut i: usize = 0;
        while i < n
            invariant
                i <= n,
                n == self.per_sd_info@.len(),
                self.finished == false,
                self.per_cpu_info@ == old(self).per_cpu_info@,
                forall|k: int|
                    i <= k < n ==> (#[trigger] self.per_sd_info@[k])@ == old(self)@.per_sd_info[k],
                forall|k: int|
                    0 <= k < i ==> (#[trigger] self.per_sd_info@[k])@ == old(
                        self,
                    )@.per_sd_info[k].resetted(),
            decreases n - i,
        {
            let d = &mut self.per_sd_info[i];
            d.reset();
            i = i + 1;
        }
        let m = self.per_cpu_info.len();
        let mut j: usize = 0;
        while j < m
            invariant
                j <= m,
                m == self.per_cpu_info@.len(),
                self.finished == false,
                forall|k: int|
                    0 <= k < self.per_sd_info@.len() ==> (#[trigger] self.per_sd_info@[k])@ == old(
                        self,
                    )@.per_sd_info[k].resetted(),
                self.per_sd_info@.len() == old(self)@.per_sd_info.len(),
                forall|k: int|
                    j <= k < m ==> #[trigger] self.per_cpu_info@[k] == old(self)@.per_cpu_info[k],
                forall|k: int|
                    0 <= k < j ==> #[trigger] self.per_cpu_info@[k] == LBIPerCpu::spec_empty(),
            decreases m - j,
        {
            let c = &mut self.per_cpu_info[j];
            c.reset();
            j = j + 1;
        }
        self.current_sd = 0;
        proof {
            assert(self@ =~~= old(self)@.resetted());
        }
    }

    /// Seal the whole record; sealing twice is a caller bug and is ruled
    /// out.
    pub fn mark_finished(&mut self)
        requires
            old(self).finished == false,
        ensures
            final(self)@ == (RecordView { finished: true, ..old(self)@ }),
    {
        self.finished = true;
        proof {
            assert(self@ =~~= (RecordView { finished: true, ..old(self)@ }));
        }
    }

    /// Set one boolean scalar of the current domain.
    pub fn set_value_bool(&mut self, location: &MunchLocationBool, x: bool) -> (r: Result<
        (),
        SetError,
    >)
        requires
            old(self)@.wf(),
            old(self)@.finished == false,
        ensures
            final(self)@ == spec_set_value_bool(old(self)@, *location, x).0,
            r == spec_set_value_bool(old(self)@, *location, x).1,
            final(self)@.wf(),
    {
        let idx = self.current_sd;
        if idx < self.per_sd_info.len() {
            let sd = &mut self.per_sd_info[idx];
            match location {
                MunchLocationBool::SwbResult => sd.info.should_we_balance = Some(x),
                MunchLocationBool::AsymCpucapacity => sd.info.asym_cpucapacity = Some(x),
                MunchLocationBool::AsymPacking => sd.info.asym_packing = Some(x),
                MunchLocationBool::HasBusiest => sd.info.has_busiest = Some(x),
                MunchLocationBool::SmtActive => sd.info.smt_active = Some(x),
            }
            proof {
                assert(self@ =~~= spec_set_value_bool(old(self)@, *location, x).0);
            }
            Ok(())
        } else {
            Err(SetError::SdOutOfBounds(idx))
        }
    }

    /// Set one `u64` scalar of the current domain.
    pub fn set_value_u64(&mut self, location: &MunchLocationU64, x: u64) -> (r: Result<
        (),
        SetError,
    >)
        requires
            old(self)@.wf(),
            old(self)@.finished == false,
        ensures
            final(self)@ == spec_set_value_u64(old(self)@, *location, x).0,
            r == spec_set_value_u64(old(self)@, *location, x).1,
            final(self)@.wf(),
    {
        let idx = self.current_sd;
        if idx < self.per_sd_info.len() {
            let sd = &mut self.per_sd_info[idx];
            match location {
                MunchLocationU64::CpuNumber => sd.info.cpu = Some(x),
                MunchLocationU64::SdAvgLoad => sd.info.avg_load = Some(x),
                MunchLocationU64::ImbalancePct => sd.info.imbalance_pct = Some(x),
                MunchLocationU64::Imbalance => sd.info.imbalance = Some(x),
            }
            proof {
                assert(self@ =~~= spec_set_value_u64(old(self)@, *location, x).0);
            }
            Ok(())
        } else {
            Err(SetError::SdOutOfBounds(idx))
        }
    }

    /// Handle a flag-only signal: the one flag seals the current domain and
    /// advances the cursor.
    pub fn process_flag(&mut self, flag: &MunchFlag) -> (r: Result<(), SetError>)
        requires
            old(self)@.wf(),
            old(self)@.finished == false,
        ensures
            final(self)@ == spec_process_flag(old(self)@, *flag).0,
            r == spec_process_flag(old(self)@, *flag).1,
            final(self)@.wf(),
    {
        match flag {
            MunchFlag::GoToNextSd => self.mark_sd_finished(),
        }
    }

    /// Tag the current domain with the CPU's idle state.
    pub fn set_cpu_idle_type(&mut self, idle_type: &CpuIdleType) -> (r: Result<(), SetError>)
        requires
            old(self)@.wf(),
            old(self)@.finished == false,
        ensures
            final(self)@ == spec_set_cpu_idle_type(old(self)@, *idle_type).0,
            r == spec_set_cpu_idle_type(old(self)@, *idle_type).1,
            final(self)@.wf(),
    {
        let idx = self.current_sd;
        if idx < self.per_sd_info.len() {
            let sd = &mut self.per_sd_info[idx];
            sd.info.cpu_idle_type = Some(*idle_type);
            proof {
                assert(self@ =~~= spec_set_cpu_idle_type(old(self)@, *idle_type).0);
            }
            Ok(())
        } else {
            Err(SetError::SdOutOfBounds(idx))
        }
    }

    /// Store a membership mask on the current domain.
    pub fn set_cpumask(&mut self, mask: CpuMask) -> (r: Result<(), SetError>)
        requires
            old(self)@.wf(),
            old(self)@.finished == false,
        ensures
            final(self)@ == spec_set_cpumask(old(self)@, mask@).0,
            r == spec_set_cpumask(old(self)@, mask@).1,
            final(self)@.wf(),
    {
        let idx = self.current_sd;
        if idx < self.per_sd_info.len() {
            let sd = &mut self.per_sd_info[idx];
            sd.info.cpumask = Some(mask);
            proof {
                assert(self@ =~~= spec_set_cpumask(old(self)@, mask@).0);
            }
            Ok(())
        } else {
            Err(SetError::SdOutOfBounds(idx))
        }
    }

    /// Set one `u64` field of the per-CPU entry named by `cpu`.
    pub fn set_value_u64_cpu(&mut self, location: &MunchLocationU64Cpu, cpu: usize, x: u64) -> (r:
        Result<(), SetError>)
        requires
            old(self)@.wf(),
            old(self)@.finished == false,
        ensures
            final(self)@ == spec_set_value_u64_cpu(old(self)@, *location, cpu as int, x).0,
            r == spec_set_value_u64_cpu(old(self)@, *location, cpu as int, x).1,
            final(self)@.wf(),
    {
        if cpu < self.per_cpu_info.len() {
            let c = &mut self.per_cpu_info[cpu];
            match location {
                MunchLocationU64Cpu::NrRunning => c.nr_running = Some(x),
                MunchLocationU64Cpu::HNrRunning => c.h_nr_running = Some(x),
                MunchLocationU64Cpu::CpuCapacity => c.capacity = Some(x),
                MunchLocationU64Cpu::AsymCpuPriorityValue => c.asym_cpu_priority = Some(x),
                MunchLocationU64Cpu::ArchScaleCpuCapacity => c.arch_scale_cpu_capacity = Some(x),
                MunchLocationU64Cpu::CpuLoad => c.cpu_load = Some(x),
                MunchLocationU64Cpu::CpuUtilCfsBoost => c.cpu_util_cfs_boost = Some(x),
                MunchLocationU64Cpu::MisfitTaskLoad => c.misfit_task_load = Some(x),
            }
            proof {
                assert(self@ =~~= spec_set_value_u64_cpu(old(self)@, *location, cpu as int, x).0);
            }
            Ok(())
        } else {
            Err(SetError::CpuOutOfBounds(cpu))
        }
    }

    /// Set one boolean field of the per-CPU entry named by `cpu`.
    pub fn set_value_bool_cpu(&mut self, location: &MunchLocationBoolCpu, cpu: usize, x: bool) -> (
        r: Result<(), SetError>)
        requires
            old(self)@.wf(),
            old(self)@.finished == false,
        ensures
            final(self)@ == spec_set_value_bool_cpu(old(self)@, *location, cpu as int, x).0,
            r == spec_set_value_bool_cpu(old(self)@, *location, cpu as int, x).1,
            final(self)@.wf(),
    {
        if cpu < self.per_cpu_info.len() {
            let c = &mut self.per_cpu_info[cpu];
            match location {
                MunchLocationBoolCpu::IdleCpu => c.idle_cpu = Some(x),
                MunchLocationBoolCpu::IsCoreIdle => c.is_core_idle = Some(x),
                MunchLocationBoolCpu::TtwuPending => c.ttwu_pending = Some(x),
                MunchLocationBoolCpu::RdOverutilized => c.rd_overutilized = Some(x),
                MunchLocationBoolCpu::RdPdOverlap => c.rd_pd_overlap = Some(x),
            }
            proof {
                assert(self@ =~~= spec_set_value_bool_cpu(old(self)@, *location, cpu as int, x).0);
            }
            Ok(())
        } else {
            Err(SetError::CpuOutOfBounds(cpu))
        }
    }

    /// Set one `u64` field of the group entry answering to `sg_ptr` in the
    /// current domain.
    pub fn set_value_u64_group(
        &mut self,
        location: &MunchLocationU64Group,
        sg_ptr: GroupId,
        x: u64,
    ) -> (r: Result<(), SetError>)
        requires
            old(self)@.wf(),
            old(self)@.finished == false,
        ensures
            final(self)@ == spec_set_value_u64_group(old(self)@, *location, sg_ptr, x).0,
            r == spec_set_value_u64_group(old(self)@, *location, sg_ptr, x).1,
            final(self)@.wf(),
    {
        let idx = self.current_sd;
        if idx < self.per_sd_info.len() {
            let found = self.per_sd_info[idx].get_sg_index(sg_ptr);
            match found {
                Ok(gi) => {
                    proof {
                        lemma_find_group_some(old(self)@.per_sd_info[idx as int].group_ptrs, sg_ptr);
                    }
                    let sd = &mut self.per_sd_info[idx];
                    let g = &mut sd.groups[gi];
                    match location {
                        MunchLocationU64Group::SumHNrRunning => g.sum_h_nr_running = Some(x),
                        MunchLocationU64Group::SumNrRunning => g.sum_nr_running = Some(x),
                        MunchLocationU64Group::SgcMaxCapacity => g.max_capacity = Some(x),
                        MunchLocationU64Group::SgcMinCapacity => g.min_capacity = Some(x),
                        MunchLocationU64Group::SgAvgLoad => g.avg_load = Some(x),
                        MunchLocationU64Group::SgAsymPreferCpu => g.asym_prefer_cpu = Some(x),
                        MunchLocationU64Group::MisfitTaskLoadSg => g.misfit_task_load = Some(x),
                        MunchLocationU64Group::SgIdleCpus => g.idle_cpus = Some(x),
                        MunchLocationU64Group::GroupBalanceCpu => g.group_balance_cpu = Some(x),
                    }
                    proof {
                        assert(self@ =~~= spec_set_value_u64_group(
                            old(self)@,
                            *location,
                            sg_ptr,
                            x,
                        ).0);
                    }
                    Ok(())
                },
                Err(e) => Err(e),
            }
        } else {
            Err(SetError::SdOutOfBounds(idx))
        }
    }

    /// Store a membership mask on the group entry answering to `sg_ptr` in
    /// the current domain.
    pub fn set_cpumask_group(&mut self, sg_ptr: GroupId, cpumask: CpuMask) -> (r: Result<
        (),
        SetError,
    >)
        requires
            old(self)@.wf(),
            old(self)@.finished == false,
        ensures
            final(self)@ == spec_set_cpumask_group(old(self)@, sg_ptr, cpumask@).0,
            r == spec_set_cpumask_group(old(self)@, sg_ptr, cpumask@).1,
            final(self)@.wf(),
    {
        let idx = self.current_sd;
        if idx < self.per_sd_info.len() {
            let found = self.per_sd_info[idx].get_sg_index(sg_ptr);
            match found {
                Ok(gi) => {
                    proof {
                        lemma_find_group_some(old(self)@.per_sd_info[idx as int].group_ptrs, sg_ptr);
                    }
                    let sd = &mut self.per_sd_info[idx];
                    let g = &mut sd.groups[gi];
                    g.cpumask = Some(cpumask);
                    proof {
                        assert(self@ =~~= spec_set_cpumask_group(old(self)@, sg_ptr, cpumask@).0);
                    }
                    Ok(())
                },
                Err(e) => Err(e),
            }
        } else {
            Err(SetError::SdOutOfBounds(idx))
        }
    }

    /// Tag the group entry answering to `sg_ptr` in the current domain with
    /// its classification.
    pub fn set_group_type_group(&mut self, sg_ptr: GroupId, group_type: GroupType) -> (r: Result<
        (),
        SetError,
    >)
        requires
            old(self)@.wf(),
            old(self)@.finished == false,
        ensures
            final(self)@ == spec_set_group_type_group(old(self)@, sg_ptr, group_type).0,
            r == spec_set_group_type_group(old(self)@, sg_ptr, group_type).1,
            final(self)@.wf(),
    {
        let idx = self.current_sd;
        if idx < self.per_sd_info.len() {
            let found = self.per_sd_info[idx].get_sg_index(sg_ptr);
            match found {
                Ok(gi) => {
                    proof {
                        lemma_find_group_some(old(self)@.per_sd_info[idx as int].group_ptrs, sg_ptr);
                    }
                    let sd = &mut self.per_sd_info[idx];
                    let g = &mut sd.groups[gi];
                    g.group_type = Some(group_type);
                    proof {
                        assert(self@ =~~= spec_set_group_type_group(
                            old(self)@,
                            sg_ptr,
                            group_type,
                        ).0);
                    }
                    Ok(())
                },
                Err(e) => Err(e),
            }
        } else {
            Err(SetError::SdOutOfBounds(idx))
        }
    }

    /// Seal the current domain and advance the cursor past it; running past
    /// the last domain is the fatal cursor error.
    pub fn mark_sd_finished(&mut self) -> (r: Result<(), SetError>)
        requires
            old(self)@.wf(),
            old(self)@.finished == false,
        ensures
            final(self)@ == spec_process_flag(old(self)@, MunchFlag::GoToNextSd).0,
            r == spec_process_flag(old(self)@, MunchFlag::GoToNextSd).1,
            final(self)@.wf(),
    {
        let idx = self.current_sd;
        if idx < self.per_sd_info.len() {
            let sd = &mut self.per_sd_info[idx];
            sd.mark_finished();
            self.current_sd = idx + 1;
            proof {
                assert(self@ =~~= spec_process_flag(old(self)@, MunchFlag::GoToNextSd).0);
            }
            Ok(())
        } else {
            Err(SetError::SdOutOfBounds(idx))
        }
    }
}

/// A fresh copy of a topology snapshot, made element by element so that the
/// copy provably mirrors the original.
pub fn copy_topology(t: &Vec<Vec<GroupId>>) -> (r: Vec<Vec<GroupId>>)
    ensures
        r.deep_view() == t.deep_view(),
{
    let n = t.len();
    let mut r: Vec<Vec<GroupId>> = Vec::new();
    let mut i: usize = 0;
    while i < n
        invariant
            i <= n,
            n == t@.len(),
            r@.len() == i,
            forall|k: int| 0 <= k < i ==> (#[trigger] r@[k])@ == t@[k]@,
        decreases n - i,
    {
        let inner = &t[i];
        let m = inner.len();
        let mut c: Vec<GroupId> = Vec::new();
        let mut j: usize = 0;
        while j < m
            invariant
                j <= m,
                m == inner@.len(),
                c@ == inner@.take(j as int),
            decreases m - j,
        {
            c.push(inner[j]);
            j = j + 1;
            proof {
                assert(c@ =~= inner@.take(j as int));
            }
        }
        proof {
            assert(c@ =~= inner@);
        }
        r.push(c);
        i = i + 1;
    }
    proof {
        assert(r.deep_view() =~~= t.deep_view());
    }
    r
}

} // verus!
