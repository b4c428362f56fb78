//! The recorder: one guarded ring buffer per processor, and the operation
//! set the host calls through.
//!
//! Every write-side operation resolves its handle first: an invalid handle,
//! a missing buffer table, a buffer locked for draining, or an epoch the
//! buffer has moved past all drop the write and leave every record exactly
//! as it was.  Only a handle that passes every check routes to its record.

use vstd::prelude::*;

use crate::errors::DumpError;
use crate::errors::GroupId;
use crate::errors::SetError;
use crate::fields::CpuIdleType;
use crate::fields::CpuMask;
use crate::fields::GroupType;
use crate::fields::MunchFlag;
use crate::fields::MunchLocationBool;
use crate::fields::MunchLocationBoolCpu;
use crate::fields::MunchLocationU64;
use crate::fields::MunchLocationU64Cpu;
use crate::fields::MunchLocationU64Group;
use crate::iter::print_post;
use crate::iter::print_munch_iterator;
use crate::iter::next_munch_iterator;
use crate::iter::spec_next_iterator;
use crate::iter::step_valid;
use crate::iter::MunchIterator;
use crate::record::fresh_record;
use crate::record::spec_process_flag;
use crate::record::spec_set_cpu_idle_type;
use crate::record::spec_set_cpumask;
use crate::record::spec_set_cpumask_group;
use crate::record::spec_set_group_type_group;
use crate::record::spec_set_value_bool;
use crate::record::spec_set_value_bool_cpu;
use crate::record::spec_set_value_u64;
use crate::record::spec_set_value_u64_cpu;
use crate::record::spec_set_value_u64_group;
use crate::record::RecordView;
use crate::ring::md_invalid;
use crate::ring::md_is_invalid;
use crate::ring::spec_md_is_invalid;
use crate::ring::BufLockView;
use crate::ring::MealDescriptor;
use crate::ring::RingBufferLock;
use crate::ring::RingBufferView;
use crate::writer::SeqFileWriter;

verus! {

/// The whole recorder: one guarded buffer per processor, or nothing while
/// the subsystem is not initialized.
#[derive(Debug, PartialEq, Eq)]
pub struct RustMunchState {
    pub bufs: Option<Vec<RingBufferLock>>,
}

/// The mathematical shape of the recorder.
#[verifier::ext_equal]
pub ghost struct StateView {
    pub bufs: Option<Seq<BufLockView>>,
}

impl View for RustMunchState {
    type V = StateView;

    open spec fn view(&self) -> StateView {
        StateView {
            bufs: match self.bufs {
                None => None,
                Some(v) => Some(v@.map_values(|b: RingBufferLock| b@)),
            },
        }
    }
}

impl StateView {
    /// The recorder's standing invariant: every buffer is well formed and
    /// sits in the slot of its own processor.
    pub open spec fn wf(self) -> bool {
        match self.bufs {
            None => true,
            Some(bs) => {
                &&& bs.len() <= usize::MAX
                &&& forall|i: int| 0 <= i < bs.len() ==> (#[trigger] bs[i]).wf()
                &&& forall|i: int| 0 <= i < bs.len() ==> (#[trigger] bs[i]).info.cpu == i
            },
        }
    }
}

/// Which check a handle fails, if any: the sentinel, a missing buffer
/// table, and a stale epoch all read as a stale handle; a buffer locked for
/// draining reads as locked.  The checks run in exactly this order.
pub open spec fn spec_resolve(s: StateView, md: MealDescriptor) -> Result<(), SetError> {
    if spec_md_is_invalid(md) {
        Err(SetError::OldMealDescriptor)
    } else {
        match s.bufs {
            None => Err(SetError::OldMealDescriptor),
            Some(bs) => {
                let b = bs[md.cpu_number as int];
                if b.readonly {
                    Err(SetError::LockedForReading)
                } else if b.info.age != md.age {
                    Err(SetError::OldMealDescriptor)
                } else {
                    Ok(())
                }
            },
        }
    }
}

/// The record a valid handle routes to.
pub open spec fn state_record(s: StateView, md: MealDescriptor) -> RecordView {
    s.bufs->Some_0[md.cpu_number as int].info.entries[md.entry_idx as int]
}

/// The recorder with the handle's record replaced.
pub open spec fn state_with_record(s: StateView, md: MealDescriptor, rec: RecordView) -> StateView {
    let bs = s.bufs->Some_0;
    let b = bs[md.cpu_number as int];
    StateView {
        bufs: Some(
            bs.update(
                md.cpu_number as int,
                BufLockView {
                    info: RingBufferView {
                        entries: b.info.entries.update(md.entry_idx as int, rec),
                        ..b.info
                    },
                    ..b
                },
            ),
        ),
    }
}

/// What any field-set or close call does to the recorder: nothing at all
/// when the handle fails a check, else exactly the record transition `f`
/// on the record the handle routes to.
pub open spec fn spec_apply_set(
    s: StateView,
    md: MealDescriptor,
    f: spec_fn(RecordView) -> (RecordView, Result<(), SetError>),
) -> (StateView, Result<(), SetError>) {
    match spec_resolve(s, md) {
        Err(e) => (s, Err(e)),
        Ok(_) => (state_with_record(s, md, f(state_record(s, md)).0), f(state_record(s, md)).1),
    }
}

/// A handle a caller may present: its indices name a buffer and a slot that
/// exist, unless a check drops the call before they are looked up.
pub open spec fn md_in_bounds(s: StateView, md: MealDescriptor) -> bool {
    (!spec_md_is_invalid(md) && s.bufs is Some) ==> {
        &&& (md.cpu_number as int) < s.bufs->Some_0.len()
        &&& (spec_resolve(s, md) is Ok ==> (md.entry_idx as int) < s.bufs->Some_0[md.cpu_number as int].info.entries.len())
    }
}

/// Writes reach only records that are still open: a handle that passes
/// every check must route to an unsealed record.
pub open spec fn can_write(s: StateView, md: MealDescriptor) -> bool {
    spec_resolve(s, md) is Ok ==> !state_record(s, md).finished
}

/// The record transition of the boolean domain setter.
pub open spec fn set_bool_f(loc: MunchLocationBool, x: bool) -> spec_fn(RecordView) -> (
    RecordView,
    Result<(), SetError>,
) {
    |rec: RecordView| spec_set_value_bool(rec, loc, x)
}

/// The record transition of the `u64` domain setter.
pub open spec fn set_u64_f(loc: MunchLocationU64, x: u64) -> spec_fn(RecordView) -> (
    RecordView,
    Result<(), SetError>,
) {
    |rec: RecordView| spec_set_value_u64(rec, loc, x)
}

/// The record transition of the flag signal.
pub open spec fn process_flag_f(flag: MunchFlag) -> spec_fn(RecordView) -> (
    RecordView,
    Result<(), SetError>,
) {
    |rec: RecordView| spec_process_flag(rec, flag)
}

/// The record transition of the idle-state setter.
pub open spec fn set_idle_f(t: CpuIdleType) -> spec_fn(RecordView) -> (
    RecordView,
    Result<(), SetError>,
) {
    |rec: RecordView| spec_set_cpu_idle_type(rec, t)
}

/// The record transition of the domain mask setter.
pub open spec fn set_mask_f(bits: Seq<u64>) -> spec_fn(RecordView) -> (
    RecordView,
    Result<(), SetError>,
) {
    |rec: RecordView| spec_set_cpumask(rec, bits)
}

/// The record transition of the per-CPU `u64` setter.
pub open spec fn set_u64_cpu_f(loc: MunchLocationU64Cpu, cpu: int, x: u64) -> spec_fn(RecordView) -> (
    RecordView,
    Result<(), SetError>,
) {
    |rec: RecordView| spec_set_value_u64_cpu(rec, loc, cpu, x)
}

/// The record transition of the per-CPU boolean setter.
pub open spec fn set_bool_cpu_f(loc: MunchLocationBoolCpu, cpu: int, x: bool) -> spec_fn(
    RecordView,
) -> (RecordView, Result<(), SetError>) {
    |rec: RecordView| spec_set_value_bool_cpu(rec, loc, cpu, x)
}

/// The record transition of the per-group `u64` setter.
pub open spec fn set_u64_group_f(loc: MunchLocationU64Group, ptr: GroupId, x: u64) -> spec_fn(
    RecordView,
) -> (RecordView, Result<(), SetError>) {
    |rec: RecordView| spec_set_value_u64_group(rec, loc, ptr, x)
}

/// The record transition of the group mask setter.
pub open spec fn set_mask_group_f(ptr: GroupId, bits: Seq<u64>) -> spec_fn(RecordView) -> (
    RecordView,
    Result<(), SetError>,
) {
    |rec: RecordView| spec_set_cpumask_group(rec, ptr, bits)
}

/// The record transition of the group classification setter.
pub open spec fn set_group_type_f(ptr: GroupId, t: GroupType) -> spec_fn(RecordView) -> (
    RecordView,
    Result<(), SetError>,
) {
    |rec: RecordView| spec_set_group_type_group(rec, ptr, t)
}

/// The record transition of the close call: seal the record.
pub open spec fn close_f() -> spec_fn(RecordView) -> (RecordView, Result<(), SetError>) {
    |rec: RecordView| (RecordView { finished: true, ..rec }, Ok(()))
}

impl RustMunchState {
    /// A recorder with no buffers yet: every handle reads as stale, every
    /// drain call reports the missing table.
    pub fn uninitialized() -> (r: RustMunchState)
        ensures
            r@ == (StateView { bufs: None::<Seq<BufLockView>> }),
            r@.wf(),
    {
        RustMunchState { bufs: None }
    }

    /// Run the handle checks in the order every write-side operation uses.
    fn check_md(&self, md: &MealDescriptor) -> (r: Result<(), SetError>)
        requires
            self@.wf(),
            md_in_bounds(self@, *md),
        ensures
            r == spec_resolve(self@, *md),
    {
        if md_is_invalid(md) {
            return Err(SetError::OldMealDescriptor);
        }
        match &self.bufs {
            None => Err(SetError::OldMealDescriptor),
            Some(bufs) => {
                let b = &bufs[md.cpu_number];
                if b.readonly {
                    Err(SetError::LockedForReading)
                } else if b.info.age != md.age {
                    Err(SetError::OldMealDescriptor)
                } else {
                    Ok(())
                }
            },
        }
    }

    /// Whether a handle may be presented to a field-set or close call: its
    /// indices are real, and if it would route to a record, that record is
    /// still open.  The host checks this before every such call, and treats
    /// a refusal as the caller bug it is.
    pub fn can_apply(&self, md: &MealDescriptor) -> (r: bool)
        requires
            self@.wf(),
        ensures
            r == (md_in_bounds(self@, *md) && can_write(self@, *md)),
    {
        if md_is_invalid(md) {
            return true;
        }
        match &self.bufs {
            None => true,
            Some(bufs) => {
                if md.cpu_number >= bufs.len() {
                    return false;
                }
                let b = &bufs[md.cpu_number];
                if b.readonly {
                    true
                } else if b.info.age != md.age {
                    true
                } else if md.entry_idx >= b.info.entries.len() {
                    false
                } else {
                    !b.info.entries[md.entry_idx].finished
                }
            },
        }
    }

    /// Set one boolean scalar of the current domain of the handle's record.
    pub fn munch_bool(&mut self, md: &MealDescriptor, location: &MunchLocationBool, x: bool) -> (r:
        Result<(), SetError>)
        requires
            old(self)@.wf(),
            md_in_bounds(old(self)@, *md),
            can_write(old(self)@, *md),
        ensures
            final(self)@ == spec_apply_set(old(self)@, *md, set_bool_f(*location, x)).0,
            r == spec_apply_set(old(self)@, *md, set_bool_f(*location, x)).1,
            final(self)@.wf(),
    {
        match self.check_md(md) {
            Err(e) => Err(e),
            Ok(_) => {
                match &mut self.bufs {
                    None => {
                        proof {
                            assert(false);
                        }
                        Err(SetError::OldMealDescriptor)
                    },
                    Some(bufs) => {
                        proof {
                            assert(old(self)@.bufs->Some_0[md.cpu_number as int].wf());
                        }
                        let bl = &mut bufs[md.cpu_number];
                        let rec = &mut bl.info.entries[md.entry_idx];
                        let r = rec.set_value_bool(location, x);
                        proof {
                            assert(self@ =~~= spec_apply_set(
                                old(self)@,
                                *md,
                                set_bool_f(*location, x),
                            ).0);
                        }
                        r
                    },
                }
            },
        }
    }

    /// Handle a flag-only signal addressed to the handle's record.
    pub fn munch_flag(&mut self, md: &MealDescriptor, flag: &MunchFlag) -> (r: Result<(), SetError>)
        requires
            old(self)@.wf(),
            md_in_bounds(old(self)@, *md),
            can_write(old(self)@, *md),
        ensures
            final(self)@ == spec_apply_set(old(self)@, *md, process_flag_f(*flag)).0,
            r == spec_apply_set(old(self)@, *md, process_flag_f(*flag)).1,
            final(self)@.wf(),
    {
        match self.check_md(md) {
            Err(e) => Err(e),
            Ok(_) => {
                match &mut self.bufs {
                    None => {
                        proof {
                            assert(false);
                        }
                        Err(SetError::OldMealDescriptor)
                    },
                    Some(bufs) => {
                        proof {
                            assert(old(self)@.bufs->Some_0[md.cpu_number as int].wf());
                        }
                        let bl = &mut bufs[md.cpu_number];
                        let rec = &mut bl.info.entries[md.entry_idx];
                        let r = rec.process_flag(flag);
                        proof {
                            assert(self@ =~~= spec_apply_set(
                                old(self)@,
                                *md,
                                process_flag_f(*flag),
                            ).0);
                        }
                        r
                    },
                }
            },
        }
    }

    /// Set one `u64` scalar of the current domain of the handle's record.
    pub fn munch64(&mut self, md: &MealDescriptor, location: &MunchLocationU64, x: u64) -> (r: Result<(), SetError>)
        requires
            old(self)@.wf(),
            md_in_bounds(old(self)@, *md),
            can_write(old(self)@, *md),
        ensures
            final(self)@ == spec_apply_set(old(self)@, *md, set_u64_f(*location, x)).0,
            r == spec_apply_set(old(self)@, *md, set_u64_f(*location, x)).1,
            final(self)@.wf(),
    {
        match self.check_md(md) {
            Err(e) => Err(e),
            Ok(_) => {
                match &mut self.bufs {
                    None => {
                        proof {
                            assert(false);
                        }
                        Err(SetError::OldMealDescriptor)
                    },
                    Some(bufs) => {
                        proof {
                            assert(old(self)@.bufs->Some_0[md.cpu_number as int].wf());
                        }
                        let bl = &mut bufs[md.cpu_number];
                        let rec = &mut bl.info.entries[md.entry_idx];
                        let r = rec.set_value_u64(location, x);
                        proof {
                            assert(self@ =~~= spec_apply_set(
                                old(self)@,
                                *md,
                                set_u64_f(*location, x),
                            ).0);
                        }
                        r
                    },
                }
            },
        }
    }

    /// Tag the current domain of the handle's record with the idle state.
    pub fn munch_cpu_idle_type(&mut self, md: &MealDescriptor, idle_type: &CpuIdleType) -> (r: Result<(), SetError>)
        requires
            old(self)@.wf(),
            md_in_bounds(old(self)@, *md),
            can_write(old(self)@, *md),
        ensures
            final(self)@ == spec_apply_set(old(self)@, *md, set_idle_f(*idle_type)).0,
            r == spec_apply_set(old(self)@, *md, set_idle_f(*idle_type)).1,
            final(self)@.wf(),
    {
        match self.check_md(md) {
            Err(e) => Err(e),
            Ok(_) => {
                match &mut self.bufs {
                    None => {
                        proof {
                            assert(false);
                        }
                        Err(SetError::OldMealDescriptor)
                    },
                    Some(bufs) => {
                        proof {
                            assert(old(self)@.bufs->Some_0[md.cpu_number as int].wf());
                        }
                        let bl = &mut bufs[md.cpu_number];
                        let rec = &mut bl.info.entries[md.entry_idx];
                        let r = rec.set_cpu_idle_type(idle_type);
                        proof {
                            assert(self@ =~~= spec_apply_set(
                                old(self)@,
                                *md,
                                set_idle_f(*idle_type),
                            ).0);
                        }
                        r
                    },
                }
            },
        }
    }

    /// Store a membership mask on the current domain of the handle's record.
    pub fn munch_cpumask(&mut self, md: &MealDescriptor, cpumask: CpuMask) -> (r: Result<(), SetError>)
        requires
            old(self)@.wf(),
            md_in_bounds(old(self)@, *md),
            can_write(old(self)@, *md),
        ensures
            final(self)@ == spec_apply_set(old(self)@, *md, set_mask_f(cpumask@)).0,
            r == spec_apply_set(old(self)@, *md, set_mask_f(cpumask@)).1,
            final(self)@.wf(),
    {
        match self.check_md(md) {
            Err(e) => Err(e),
            Ok(_) => {
                match &mut self.bufs {
                    None => {
                        proof {
                            assert(false);
                        }
                        Err(SetError::OldMealDescriptor)
                    },
                    Some(bufs) => {
                        proof {
                            assert(old(self)@.bufs->Some_0[md.cpu_number as int].wf());
                        }
                        let bl = &mut bufs[md.cpu_number];
                        let rec = &mut bl.info.entries[md.entry_idx];
                        let r = rec.set_cpumask(cpumask);
                        proof {
                            assert(self@ =~~= spec_apply_set(
                                old(self)@,
                                *md,
                                set_mask_f(cpumask@),
                            ).0);
                        }
                        r
                    },
                }
            },
        }
    }

    /// Set one `u64` field of one per-CPU entry of the handle's record.
    pub fn munch_u64_cpu(&mut self, md: &MealDescriptor, location: &MunchLocationU64Cpu, cpu: usize, x: u64) -> (r: Result<(), SetError>)
        requires
            old(self)@.wf(),
            md_in_bounds(old(self)@, *md),
            can_write(old(self)@, *md),
        ensures
            final(self)@ == spec_apply_set(old(self)@, *md, set_u64_cpu_f(*location, cpu as int, x)).0,
            r == spec_apply_set(old(self)@, *md, set_u64_cpu_f(*location, cpu as int, x)).1,
            final(self)@.wf(),
    {
        match self.check_md(md) {
            Err(e) => Err(e),
            Ok(_) => {
                match &mut self.bufs {
                    None => {
                        proof {
                            assert(false);
                        }
                        Err(SetError::OldMealDescriptor)
                    },
                    Some(bufs) => {
                        proof {
                            assert(old(self)@.bufs->Some_0[md.cpu_number as int].wf());
                        }
                        let bl = &mut bufs[md.cpu_number];
                        let rec = &mut bl.info.entries[md.entry_idx];
                        let r = rec.set_value_u64_cpu(location, cpu, x);
                        proof {
                            assert(self@ =~~= spec_apply_set(
                                old(self)@,
                                *md,
                                set_u64_cpu_f(*location, cpu as int, x),
                            ).0);
                        }
                        r
                    },
                }
            },
        }
    }

    /// Set one boolean field of one per-CPU entry of the handle's record.
    pub fn munch_bool_cpu(&mut self, md: &MealDescriptor, location: &MunchLocationBoolCpu, cpu: usize, x: bool) -> (r: Result<(), SetError>)
        requires
            old(self)@.wf(),
            md_in_bounds(old(self)@, *md),
            can_write(old(self)@, *md),
        ensures
            final(self)@ == spec_apply_set(old(self)@, *md, set_bool_cpu_f(*location, cpu as int, x)).0,
            r == spec_apply_set(old(self)@, *md, set_bool_cpu_f(*location, cpu as int, x)).1,
            final(self)@.wf(),
    {
        match self.check_md(md) {
            Err(e) => Err(e),
            Ok(_) => {
                match &mut self.bufs {
                    None => {
                        proof {
                            assert(false);
                        }
                        Err(SetError::OldMealDescriptor)
                    },
                    Some(bufs) => {
                        proof {
                            assert(old(self)@.bufs->Some_0[md.cpu_number as int].wf());
                        }
                        let bl = &mut bufs[md.cpu_number];
                        let rec = &mut bl.info.entries[md.entry_idx];
                        let r = rec.set_value_bool_cpu(location, cpu, x);
                        proof {
                            assert(self@ =~~= spec_apply_set(
                                old(self)@,
                                *md,
                                set_bool_cpu_f(*location, cpu as int, x),
                            ).0);
                        }
                        r
                    },
                }
            },
        }
    }

    /// Set one `u64` field of the group entry answering to `sg` in the current domain of the handle's record.
    pub fn munch_u64_group(&mut self, md: &MealDescriptor, location: &MunchLocationU64Group, sg: GroupId, x: u64) -> (r: Result<(), SetError>)
        requires
            old(self)@.wf(),
            md_in_bounds(old(self)@, *md),
            can_write(old(self)@, *md),
        ensures
            final(self)@ == spec_apply_set(old(self)@, *md, set_u64_group_f(*location, sg, x)).0,
            r == spec_apply_set(old(self)@, *md, set_u64_group_f(*location, sg, x)).1,
            final(self)@.wf(),
    {
        match self.check_md(md) {
            Err(e) => Err(e),
            Ok(_) => {
                match &mut self.bufs {
                    None => {
                        proof {
                            assert(false);
                        }
                        Err(SetError::OldMealDescriptor)
                    },
                    Some(bufs) => {
                        proof {
                            assert(old(self)@.bufs->Some_0[md.cpu_number as int].wf());
                        }
                        let bl = &mut bufs[md.cpu_number];
                        let rec = &mut bl.info.entries[md.entry_idx];
                        let r = rec.set_value_u64_group(location, sg, x);
                        proof {
                            assert(self@ =~~= spec_apply_set(
                                old(self)@,
                                *md,
                                set_u64_group_f(*location, sg, x),
                            ).0);
                        }
                        r
                    },
                }
            },
        }
    }

    /// Store a membership mask on the group entry answering to `sg` in the current domain of the handle's record.
    pub fn munch_cpumask_group(&mut self, md: &MealDescriptor, sg: GroupId, cpumask: CpuMask) -> (r: Result<(), SetError>)
        requires
            old(self)@.wf(),
            md_in_bounds(old(self)@, *md),
            can_write(old(self)@, *md),
        ensures
            final(self)@ == spec_apply_set(old(self)@, *md, set_mask_group_f(sg, cpumask@)).0,
            r == spec_apply_set(old(self)@, *md, set_mask_group_f(sg, cpumask@)).1,
            final(self)@.wf(),
    {
        match self.check_md(md) {
            Err(e) => Err(e),
            Ok(_) => {
                match &mut self.bufs {
                    None => {
                        proof {
                            assert(false);
                        }
                        Err(SetError::OldMealDescriptor)
                    },
                    Some(bufs) => {
                        proof {
                            assert(old(self)@.bufs->Some_0[md.cpu_number as int].wf());
                        }
                        let bl = &mut bufs[md.cpu_number];
                        let rec = &mut bl.info.entries[md.entry_idx];
                        let r = rec.set_cpumask_group(sg, cpumask);
                        proof {
                            assert(self@ =~~= spec_apply_set(
                                old(self)@,
                                *md,
                                set_mask_group_f(sg, cpumask@),
                            ).0);
                        }
                        r
                    },
                }
            },
        }
    }

    /// Tag the group entry answering to `sg` in the current domain of the handle's record with its classification.
    pub fn munch_group_type_group(&mut self, md: &MealDescriptor, sg: GroupId, group_type: GroupType) -> (r: Result<(), SetError>)
        requires
            old(self)@.wf(),
            md_in_bounds(old(self)@, *md),
            can_write(old(self)@, *md),
        ensures
            final(self)@ == spec_apply_set(old(self)@, *md, set_group_type_f(sg, group_type)).0,
            r == spec_apply_set(old(self)@, *md, set_group_type_f(sg, group_type)).1,
            final(self)@.wf(),
    {
        match self.check_md(md) {
            Err(e) => Err(e),
            Ok(_) => {
                match &mut self.bufs {
                    None => {
                        proof {
                            assert(false);
                        }
                        Err(SetError::OldMealDescriptor)
                    },
                    Some(bufs) => {
                        proof {
                            assert(old(self)@.bufs->Some_0[md.cpu_number as int].wf());
                        }
                        let bl = &mut bufs[md.cpu_number];
                        let rec = &mut bl.info.entries[md.entry_idx];
                        let r = rec.set_group_type_group(sg, group_type);
                        proof {
                            assert(self@ =~~= spec_apply_set(
                                old(self)@,
                                *md,
                                set_group_type_f(sg, group_type),
                            ).0);
                        }
                        r
                    },
                }
            },
        }
    }

    /// Close the handle's record: seal it so the drain will report it.  A
    /// handle that fails a check is dropped like any late write.
    pub fn close_meal(&mut self, md: &MealDescriptor) -> (r: Result<(), SetError>)
        requires
            old(self)@.wf(),
            md_in_bounds(old(self)@, *md),
            can_write(old(self)@, *md),
        ensures
            final(self)@ == spec_apply_set(old(self)@, *md, close_f()).0,
            r == spec_apply_set(old(self)@, *md, close_f()).1,
            final(self)@.wf(),
    {
        match self.check_md(md) {
            Err(e) => Err(e),
            Ok(_) => {
                match &mut self.bufs {
                    None => {
                        proof {
                            assert(false);
                        }
                        Err(SetError::OldMealDescriptor)
                    },
                    Some(bufs) => {
                        proof {
                            assert(old(self)@.bufs->Some_0[md.cpu_number as int].wf());
                        }
                        let bl = &mut bufs[md.cpu_number];
                        let rec = &mut bl.info.entries[md.entry_idx];
                        rec.mark_finished();
                        proof {
                            assert(self@ =~~= spec_apply_set(old(self)@, *md, close_f()).0);
                        }
                        Ok(())
                    },
                }
            },
        }
    }

    /// Hand out the next slot of a processor's buffer, or the sentinel
    /// handle if the recorder has no buffers or the buffer is locked for
    /// draining.
    pub fn open_meal(&mut self, cpu_number: usize) -> (md: MealDescriptor)
        requires
            old(self)@.wf(),
            old(self)@.bufs is Some ==> (cpu_number as int) < old(self)@.bufs->Some_0.len(),
        ensures
            final(self)@.wf(),
            match old(self)@.bufs {
                None => final(self)@ == old(self)@ && spec_md_is_invalid(md),
                Some(bs) => {
                    let b = bs[cpu_number as int];
                    if b.readonly {
                        final(self)@ == old(self)@ && spec_md_is_invalid(md)
                    } else {
                        &&& final(self)@ == (StateView {
                            bufs: Some(
                                bs.update(
                                    cpu_number as int,
                                    BufLockView { readonly: false, info: b.info.opened() },
                                ),
                            ),
                        })
                        &&& md == b.info.opened_md()
                        &&& !spec_md_is_invalid(md)
                    }
                },
            },
    {
        let can_open = match &self.bufs {
            None => false,
            Some(bufs) => !bufs[cpu_number].readonly,
        };
        if !can_open {
            return md_invalid();
        }
        match &mut self.bufs {
            None => {
                proof {
                    assert(false);
                }
                md_invalid()
            },
            Some(bufs) => {
                {
                    proof {
                        assert(old(self)@.bufs->Some_0[cpu_number as int].wf());
                    }
                    let bl = &mut bufs[cpu_number];
                    let md = bl.info.open_meal_descriptor();
                    proof {
                        assert(self@ =~~= (StateView {
                            bufs: Some(
                                old(self)@.bufs->Some_0.update(
                                    cpu_number as int,
                                    BufLockView {
                                        readonly: false,
                                        info: old(self)@.bufs->Some_0[cpu_number as int].info.opened(),
                                    },
                                ),
                            ),
                        }));
                        let bs2 = self@.bufs->Some_0;
                        assert forall|i: int| 0 <= i < bs2.len() implies (#[trigger] bs2[i]).wf()
                            && bs2[i].info.cpu == i by {
                            if i != cpu_number as int {
                                assert(old(self)@.bufs->Some_0[i].wf());
                                assert(old(self)@.bufs->Some_0[i].info.cpu == i);
                            }
                        }
                    }
                    md
                }
            },
        }
    }

    /// Build the recorder at subsystem start-up: one buffer of `entries`
    /// slots per processor, each record shaped by that processor's topology
    /// snapshot, with the processor count taken from the snapshot's length.
    pub fn init(entries: usize, topology: &Vec<Vec<Vec<GroupId>>>) -> (r: RustMunchState)
        requires
            entries >= 1,
        ensures
            r@.wf(),
            r@.bufs is Some,
            r@.bufs->Some_0.len() == topology@.len(),
            forall|c: int|
                0 <= c < topology@.len() ==> r@.bufs->Some_0[c] == (BufLockView {
                    readonly: false,
                    info: RingBufferView {
                        age: 0,
                        cpu: c as usize,
                        entries: Seq::new(
                            entries as nat,
                            |i: int| fresh_record((#[trigger] topology@[c]).deep_view(), topology@.len() as nat),
                        ),
                        head: 0,
                    },
                }),
    {
        let cpu_count = topology.len();
        let mut bufs: Vec<RingBufferLock> = Vec::new();
        let mut c: usize = 0;
        while c < cpu_count
            invariant
                entries >= 1,
                c <= cpu_count,
                cpu_count == topology@.len(),
                bufs@.len() == c,
                forall|k: int|
                    0 <= k < c ==> (#[trigger] bufs@[k])@ == (BufLockView {
                        readonly: false,
                        info: RingBufferView {
                            age: 0,
                            cpu: k as usize,
                            entries: Seq::new(
                                entries as nat,
                                |i: int| fresh_record(topology@[k].deep_view(), cpu_count as nat),
                            ),
                            head: 0,
                        },
                    }),
                forall|k: int| 0 <= k < c ==> (#[trigger] bufs@[k])@.wf(),
            decreases cpu_count - c,
        {
            let t_c = &topology[c];
            bufs.push(RingBufferLock::new(entries, c, t_c, cpu_count));
            c = c + 1;
        }
        let r = RustMunchState { bufs: Some(bufs) };
        proof {
            assert(r@.wf());
        }
        r
    }

    /// Lock a processor's buffer for draining.  The recorder having no
    /// buffers, or a processor it does not know, is reported; locking twice
    /// keeps the lock and succeeds, for the host to log.
    pub fn start_dump(&mut self, cpu: usize) -> (r: Result<(), DumpError>)
        requires
            old(self)@.wf(),
        ensures
            final(self)@.wf(),
            match old(self)@.bufs {
                None => r == Err::<(), DumpError>(DumpError::RingBufferUninitialized)
                    && final(self)@ == old(self)@,
                Some(bs) => {
                    if cpu as int >= bs.len() {
                        r == Err::<(), DumpError>(DumpError::CpuOutOfBounds(cpu)) && final(self)@
                            == old(self)@
                    } else {
                        r == Ok::<(), DumpError>(()) && final(self)@ == (StateView {
                            bufs: Some(
                                bs.update(
                                    cpu as int,
                                    BufLockView { readonly: true, ..bs[cpu as int] },
                                ),
                            ),
                        })
                    }
                },
            },
    {
        match &mut self.bufs {
            None => Err(DumpError::RingBufferUninitialized),
            Some(bufs) => {
                if cpu >= bufs.len() {
                    Err(DumpError::CpuOutOfBounds(cpu))
                } else {
                    let bl = &mut bufs[cpu];
                    bl.lock_readonly();
                    proof {
                        assert(self@ =~~= (StateView {
                            bufs: Some(
                                old(self)@.bufs->Some_0.update(
                                    cpu as int,
                                    BufLockView {
                                        readonly: true,
                                        ..old(self)@.bufs->Some_0[cpu as int]
                                    },
                                ),
                            ),
                        }));
                    }
                    Ok(())
                }
            },
        }
    }

    /// Print one unit of a locked buffer's report into the sink.  The
    /// missing table, an unknown processor, and a buffer that was never
    /// locked are each reported with the sink untouched; otherwise the call
    /// behaves exactly as one print of the cursor's unit.
    pub fn get_data(&self, seq_file: &mut SeqFileWriter, it: &MunchIterator) -> (r: Result<
        (),
        DumpError,
    >)
        requires
            self@.wf(),
            old(seq_file).wf(),
        ensures
            final(seq_file).wf(),
            final(seq_file).spec_capacity() == old(seq_file).spec_capacity(),
            match self@.bufs {
                None => r == Err::<(), DumpError>(DumpError::RingBufferUninitialized)
                    && final(seq_file)@ == old(seq_file)@,
                Some(bs) => {
                    if it.cpu as int >= bs.len() {
                        r == Err::<(), DumpError>(DumpError::CpuOutOfBounds(it.cpu))
                            && final(seq_file)@ == old(seq_file)@
                    } else if !bs[it.cpu as int].readonly {
                        r == Err::<(), DumpError>(DumpError::NotReadOnly) && final(seq_file)@
                            == old(seq_file)@
                    } else {
                        print_post(
                            bs[it.cpu as int].info,
                            *it,
                            old(seq_file)@,
                            old(seq_file).spec_capacity(),
                            final(seq_file)@,
                            r,
                        )
                    }
                },
            },
    {
        match &self.bufs {
            None => Err(DumpError::RingBufferUninitialized),
            Some(bufs) => {
                if it.cpu >= bufs.len() {
                    Err(DumpError::CpuOutOfBounds(it.cpu))
                } else {
                    let bl = &bufs[it.cpu];
                    if !bl.readonly {
                        Err(DumpError::NotReadOnly)
                    } else {
                        print_munch_iterator(seq_file, &bl.info, it)
                    }
                }
            },
        }
    }

    /// Step a drain cursor one unit further over a locked buffer.
    pub fn get_next_iterator(&self, it: &MunchIterator) -> (r: MunchIterator)
        requires
            self@.wf(),
            self@.bufs is Some,
            (it.cpu as int) < self@.bufs->Some_0.len(),
            self@.bufs->Some_0[it.cpu as int].readonly,
            step_valid(self@.bufs->Some_0[it.cpu as int].info, *it),
        ensures
            r == spec_next_iterator(self@.bufs->Some_0[it.cpu as int].info, *it),
    {
        match &self.bufs {
            None => {
                proof {
                    assert(false);
                }
                *it
            },
            Some(bufs) => {
                let bl = &bufs[it.cpu];
                next_munch_iterator(it, &bl.info)
            },
        }
    }

    /// Step a drain cursor one unit further; the pure cursor function of
    /// the host-facing operation set.
    pub fn move_iterator(&self, it: &MunchIterator) -> (r: MunchIterator)
        requires
            self@.wf(),
            self@.bufs is Some,
            (it.cpu as int) < self@.bufs->Some_0.len(),
            self@.bufs->Some_0[it.cpu as int].readonly,
            step_valid(self@.bufs->Some_0[it.cpu as int].info, *it),
        ensures
            r == spec_next_iterator(self@.bufs->Some_0[it.cpu as int].info, *it),
    {
        self.get_next_iterator(it)
    }

    /// Unlock a processor's buffer and reset it: every record emptied, the
    /// cursor rewound, the epoch stepped, every outstanding handle dead.
    /// The missing table and an unknown processor are reported; resetting
    /// an unlocked buffer proceeds, for the host to log.
    pub fn finalize_dump(&mut self, cpu: usize) -> (r: Result<(), DumpError>)
        requires
            old(self)@.wf(),
        ensures
            final(self)@.wf(),
            match old(self)@.bufs {
                None => r == Err::<(), DumpError>(DumpError::RingBufferUninitialized)
                    && final(self)@ == old(self)@,
                Some(bs) => {
                    if cpu as int >= bs.len() {
                        r == Err::<(), DumpError>(DumpError::CpuOutOfBounds(cpu)) && final(self)@
                            == old(self)@
                    } else {
                        r == Ok::<(), DumpError>(()) && final(self)@ == (StateView {
                            bufs: Some(
                                bs.update(
                                    cpu as int,
                                    BufLockView {
                                        readonly: false,
                                        info: bs[cpu as int].info.resetted(),
                                    },
                                ),
                            ),
                        })
                    }
                },
            },
    {
        match &mut self.bufs {
            None => Err(DumpError::RingBufferUninitialized),
            Some(bufs) => {
                if cpu >= bufs.len() {
                    Err(DumpError::CpuOutOfBounds(cpu))
                } else {
                    proof {
                        assert(old(self)@.bufs->Some_0[cpu as int].wf());
                    }
                    let bl = &mut bufs[cpu];
                    bl.reset();
                    proof {
                        assert(self@ =~~= (StateView {
                            bufs: Some(
                                old(self)@.bufs->Some_0.update(
                                    cpu as int,
                                    BufLockView {
                                        readonly: false,
                                        info: old(self)@.bufs->Some_0[cpu as int].info.resetted(),
                                    },
                                ),
                            ),
                        }));
                    }
                    Ok(())
                }
            },
        }
    }
}

} // verus!
