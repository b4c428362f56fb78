//! The protocol's laws, proved over the recorder's transitions.
//!
//! Each proof function here states one guarantee of the write and drain
//! protocols as a whole: what a stale or locked-out write can touch, what a
//! freshly opened slot looks like, that a record is sealed exactly once
//! between resets, and what two resets in a row leave behind.

use vstd::prelude::*;

use crate::errors::GroupId;
use crate::errors::SetError;
use crate::fields::CpuIdleType;
use crate::fields::GroupType;
use crate::fields::MunchFlag;
use crate::fields::MunchLocationBool;
use crate::fields::MunchLocationBoolCpu;
use crate::fields::MunchLocationU64;
use crate::fields::MunchLocationU64Cpu;
use crate::fields::MunchLocationU64Group;
use crate::record::spec_process_flag;
use crate::record::spec_set_cpu_idle_type;
use crate::record::spec_set_cpumask;
use crate::record::spec_set_cpumask_group;
use crate::record::spec_set_group_type_group;
use crate::record::spec_set_value_bool;
use crate::record::spec_set_value_bool_cpu;
use crate::record::spec_set_value_u64;
use crate::record::spec_set_value_u64_cpu;
use crate::record::spec_set_value_u64_group;
use crate::record::RecordView;
use crate::ring::spec_md_is_invalid;
use crate::ring::BufLockView;
use crate::ring::MealDescriptor;
use crate::ring::RingBufferView;
use crate::state::can_write;
use crate::state::spec_apply_set;
use crate::state::spec_resolve;
use crate::state::state_record;
use crate::state::StateView;

verus! {

/// No field-set transition touches a record's seal: every setter updates
/// scalars, masks, tags or the domain cursor, and leaves `finished` alone.
pub proof fn lemma_setters_preserve_seal(rec: RecordView)
    ensures
        forall|loc: MunchLocationBool, x: bool|
            (#[trigger] spec_set_value_bool(rec, loc, x)).0.finished == rec.finished,
        forall|loc: MunchLocationU64, x: u64|
            (#[trigger] spec_set_value_u64(rec, loc, x)).0.finished == rec.finished,
        forall|flag: MunchFlag|
            (#[trigger] spec_process_flag(rec, flag)).0.finished == rec.finished,
        forall|t: CpuIdleType|
            (#[trigger] spec_set_cpu_idle_type(rec, t)).0.finished == rec.finished,
        forall|bits: Seq<u64>| (#[trigger] spec_set_cpumask(rec, bits)).0.finished == rec.finished,
        forall|loc: MunchLocationU64Cpu, cpu: int, x: u64|
            (#[trigger] spec_set_value_u64_cpu(rec, loc, cpu, x)).0.finished == rec.finished,
        forall|loc: MunchLocationBoolCpu, cpu: int, x: bool|
            (#[trigger] spec_set_value_bool_cpu(rec, loc, cpu, x)).0.finished == rec.finished,
        forall|loc: MunchLocationU64Group, ptr: GroupId, x: u64|
            (#[trigger] spec_set_value_u64_group(rec, loc, ptr, x)).0.finished == rec.finished,
        forall|ptr: GroupId, bits: Seq<u64>|
            (#[trigger] spec_set_cpumask_group(rec, ptr, bits)).0.finished == rec.finished,
        forall|ptr: GroupId, t: GroupType|
            (#[trigger] spec_set_group_type_group(rec, ptr, t)).0.finished == rec.finished,
{
}

/// Law: a write presented under an epoch the buffer has moved past has zero
/// effect, whatever field it addressed: the recorder is unchanged and the
/// write is reported dropped.
pub proof fn lemma_stale_handle_no_effect(
    s: StateView,
    md: MealDescriptor,
    f: spec_fn(RecordView) -> (RecordView, Result<(), SetError>),
)
    requires
        s.bufs is Some,
        !spec_md_is_invalid(md),
        s.bufs->Some_0[md.cpu_number as int].info.age != md.age,
    ensures
        spec_apply_set(s, md, f).0 == s,
        spec_apply_set(s, md, f).1 is Err,
{
}

/// Law: once a buffer is locked for draining, no field-set or close call
/// routed at it mutates any record, whatever handle it carries, until the
/// unlock-and-reset runs: the recorder is unchanged and the write is
/// reported dropped.
pub proof fn lemma_locked_no_effect(
    s: StateView,
    md: MealDescriptor,
    f: spec_fn(RecordView) -> (RecordView, Result<(), SetError>),
)
    requires
        match s.bufs {
            None => true,
            Some(bs) => !spec_md_is_invalid(md) ==> bs[md.cpu_number as int].readonly,
        },
    ensures
        spec_apply_set(s, md, f).0 == s,
        spec_apply_set(s, md, f).1 is Err,
{
}

/// Law: between two resets a record is sealed exactly once.  A slot handed
/// out while no drain is in progress comes back unsealed, under a handle
/// that resolves; closing that handle seals the record; a second close of
/// the same handle is no longer permitted; and no field-set call, wherever
/// it is aimed, unseals the record again.
pub proof fn lemma_record_finished_exactly_once(s: StateView, cpu: int)
    requires
        s.wf(),
        s.bufs is Some,
        0 <= cpu < s.bufs->Some_0.len(),
        !s.bufs->Some_0[cpu].readonly,
    ensures
        ({
            let b = s.bufs->Some_0[cpu];
            let md = b.info.opened_md();
            let s1 = StateView {
                bufs: Some(
                    s.bufs->Some_0.update(
                        cpu,
                        BufLockView { readonly: false, info: b.info.opened() },
                    ),
                ),
            };
            let s2 = spec_apply_set(s1, md, crate::state::close_f()).0;
            &&& !spec_md_is_invalid(md)
            &&& spec_resolve(s1, md) is Ok
            &&& !state_record(s1, md).finished
            &&& can_write(s1, md)
            &&& state_record(s2, md).finished
            &&& spec_apply_set(s1, md, crate::state::close_f()).1 is Ok
            &&& !can_write(s2, md)
            &&& forall|md2: MealDescriptor, f: spec_fn(RecordView) -> (RecordView, Result<(), SetError>)|
                crate::state::md_in_bounds(s2, md2) && (forall|rec: RecordView|
                    (#[trigger] f(rec)).0.finished == rec.finished)
                    ==> state_record(#[trigger] spec_apply_set(s2, md2, f).0, md).finished
        }),
{
    let bs = s.bufs->Some_0;
    let b = bs[cpu];
    let md = b.info.opened_md();
    assert(b.info.cpu == cpu);
    assert(md.cpu_number == cpu as usize);
    assert(md.entry_idx as int == b.info.head as int);
    assert((b.info.head as int) < b.info.entries.len());
    assert(b.info.entries.len() <= usize::MAX);
    assert(bs.len() <= usize::MAX);
    assert(!spec_md_is_invalid(md));
    let s1 = StateView {
        bufs: Some(bs.update(cpu, BufLockView { readonly: false, info: b.info.opened() })),
    };
    assert(spec_resolve(s1, md) is Ok);
    assert(state_record(s1, md) == b.info.entries[b.info.head as int].resetted());
    let s2 = spec_apply_set(s1, md, crate::state::close_f()).0;
    assert(state_record(s2, md).finished);
    assert forall|md2: MealDescriptor, f: spec_fn(RecordView) -> (RecordView, Result<(), SetError>)|
        crate::state::md_in_bounds(s2, md2) && (forall|rec: RecordView|
            (#[trigger] f(rec)).0.finished == rec.finished) implies state_record(
        #[trigger] spec_apply_set(s2, md2, f).0,
        md,
    ).finished by {
        let s3 = spec_apply_set(s2, md2, f).0;
        if spec_resolve(s2, md2) is Ok {
            let target = state_record(s2, md2);
            assert(f(target).0.finished == target.finished);
            if md2.cpu_number == md.cpu_number && md2.entry_idx == md.entry_idx {
                assert(state_record(s3, md) == f(target).0);
                assert(target == state_record(s2, md));
            } else {
                assert(state_record(s3, md) == state_record(s2, md));
            }
        }
    }
}

/// A reset record is a fixed point: resetting it again changes nothing.
pub proof fn lemma_record_reset_idempotent(r: RecordView)
    ensures
        r.resetted().resetted() == r.resetted(),
{
    assert(r.resetted().resetted() =~~= r.resetted());
}

/// Law: the unlock-and-reset is idempotent on the records and strictly
/// monotone on the epoch.  Run twice in a row, the second pass leaves every
/// record exactly as the first left it — all empty — and each pass steps
/// the epoch strictly upward, short of the counter's wrap.
pub proof fn lemma_unlock_reset_idempotent(b: RingBufferView)
    requires
        b.wf(),
        b.age + 2 <= usize::MAX,
    ensures
        b.resetted().age > b.age,
        b.resetted().resetted().age > b.resetted().age,
        b.resetted().resetted().entries == b.resetted().entries,
        forall|i: int|
            0 <= i < b.resetted().entries.len() ==> (#[trigger] b.resetted().entries[i]).is_reset(),
        b.resetted().head == 0,
        b.resetted().resetted().head == 0,
{
    assert forall|i: int| 0 <= i < b.resetted().entries.len() implies (#[trigger] b.resetted()
        .entries[i]).is_reset() by {
        lemma_record_reset_idempotent(b.entries[i]);
    }
    assert(b.resetted().resetted().entries =~~= b.resetted().entries);
}

/// Law: at the recorder level, two unlock-and-resets in a row leave a
/// processor's records exactly as one does — all empty — and step its epoch
/// strictly upward both times, short of the counter's wrap.  The buffer
/// ends writable either way.
pub proof fn lemma_finalize_twice(s: StateView, cpu: int)
    requires
        s.wf(),
        s.bufs is Some,
        0 <= cpu < s.bufs->Some_0.len(),
        s.bufs->Some_0[cpu].info.age + 2 <= usize::MAX,
    ensures
        ({
            let b = s.bufs->Some_0[cpu].info;
            &&& b.resetted().age > b.age
            &&& b.resetted().resetted().age > b.resetted().age
            &&& b.resetted().resetted().entries == b.resetted().entries
            &&& forall|i: int|
                0 <= i < b.resetted().entries.len() ==> (#[trigger] b.resetted()
                    .entries[i]).is_reset()
        }),
{
    assert(s.bufs->Some_0[cpu].wf());
    lemma_unlock_reset_idempotent(s.bufs->Some_0[cpu].info);
}

} // verus!
