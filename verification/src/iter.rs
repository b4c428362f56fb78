//! The resumable drain cursor and its state machine.
//!
//! A cursor names one unit of a buffer's report: one domain's flat scalars,
//! one group entry, one per-CPU entry, or the null placeholder of an
//! unsealed record.  Printing a unit emits its text plus whatever structural
//! punctuation keeps the concatenation of all units, in cursor order, one
//! well-formed nested document.  A unit lands in the sink completely or not
//! at all, so a caller whose sink ran out of room retries the same cursor
//! against a fresh sink.

use vstd::prelude::*;

use crate::errors::DumpError;
use crate::record::DomainEntryView;
use crate::record::LoadBalanceInfo;
use crate::record::LBIPerSchedDomain;
use crate::record::RecordView;
use crate::ring::RingBuffer;
use crate::ring::RingBufferView;
use crate::writer::push_cpu_entry;
use crate::writer::push_domain_info;
use crate::writer::push_group_entry;
use crate::writer::push_str;
use crate::writer::render_cpu_entry;
use crate::writer::render_domain_info;
use crate::writer::render_group_entry;
use crate::writer::SeqFileWriter;

verus! {

/// The drain cursor: which slot, which domain within it, whether that
/// domain's flat scalars are already out, which group, which CPU entry.
#[derive(Clone, Copy, Debug, PartialEq, Eq, Structural)]
pub struct MunchIterator {
    pub cpu: usize,
    pub entry_index: usize,
    pub sd_index: usize,
    pub sd_main_finished: bool,
    pub sg_index: usize,
    pub cpu_index: usize,
}

/// A cursor for the start of processor `cpu`'s report.
pub fn create_munch_iterator(cpu: usize) -> (it: MunchIterator)
    ensures
        it == (MunchIterator {
            cpu: cpu,
            entry_index: 0,
            sd_index: 0,
            sd_main_finished: false,
            sg_index: 0,
            cpu_index: 0,
        }),
{
    MunchIterator {
        cpu: cpu,
        entry_index: 0,
        sd_index: 0,
        sd_main_finished: false,
        sg_index: 0,
        cpu_index: 0,
    }
}

/// Whether the cursor sits at the start of a slot's report.
pub open spec fn spec_is_start_of_entry(it: MunchIterator) -> bool {
    it.sd_index == 0 && !it.sd_main_finished && it.sg_index == 0 && it.cpu_index == 0
}

/// Whether the cursor sits at the very start of the whole report.
pub open spec fn spec_is_start_of_buffer(it: MunchIterator) -> bool {
    it.entry_index == 0 && spec_is_start_of_entry(it)
}

/// Whether the cursor still walks the domain list of this record.
pub open spec fn spec_is_printing_sd(it: MunchIterator, entry: RecordView) -> bool {
    (it.sd_index as int) < entry.per_sd_info.len()
}

/// Whether the cursor's domain is the record's last.
pub open spec fn spec_is_last_sd(it: MunchIterator, entry: RecordView) -> bool {
    spec_is_printing_sd(it, entry) && it.sd_index as int + 1 == entry.per_sd_info.len()
}

/// Whether the cursor's group is its domain's last.
pub open spec fn spec_is_last_sg(it: MunchIterator, entry: RecordView, sd: DomainEntryView) -> bool {
    spec_is_printing_sd(it, entry) && it.sd_main_finished && it.sg_index as int + 1
        == sd.groups.len()
}

/// Whether the cursor sits on the first per-CPU entry.
pub open spec fn spec_is_start_of_cpu(it: MunchIterator, entry: RecordView) -> bool {
    !spec_is_printing_sd(it, entry) && it.cpu_index == 0
}

/// Whether the cursor's per-CPU entry is the record's last.
pub open spec fn spec_is_last_cpu(it: MunchIterator, entry: RecordView) -> bool {
    !spec_is_printing_sd(it, entry) && it.cpu_index as int + 1 == entry.per_cpu_info.len()
}

/// Whether the cursor's slot is the buffer's last.
pub open spec fn spec_is_last_entry(it: MunchIterator, buffer: RingBufferView) -> bool {
    it.entry_index as int + 1 == buffer.entries.len()
}

/// Whether the cursor sits at the start of a slot's report.
pub fn is_start_of_entry(it: &MunchIterator) -> (r: bool)
    ensures
        r == spec_is_start_of_entry(*it),
{
    it.sd_index == 0 && !it.sd_main_finished && it.sg_index == 0 && it.cpu_index == 0
}

/// Whether the cursor sits at the very start of the whole report.
pub fn is_start_of_buffer(it: &MunchIterator) -> (r: bool)
    ensures
        r == spec_is_start_of_buffer(*it),
{
    it.entry_index == 0 && is_start_of_entry(it)
}

/// Whether the cursor still walks the domain list of this record.
pub fn is_printing_sd(it: &MunchIterator, entry: &LoadBalanceInfo) -> (r: bool)
    ensures
        r == spec_is_printing_sd(*it, entry@),
{
    it.sd_index < entry.per_sd_info.len()
}

/// Whether the cursor's domain is the record's last.
pub fn is_last_sd(it: &MunchIterator, entry: &LoadBalanceInfo) -> (r: bool)
    requires
        it.sd_index < usize::MAX,
    ensures
        r == spec_is_last_sd(*it, entry@),
{
    is_printing_sd(it, entry) && it.sd_index + 1 == entry.per_sd_info.len()
}

/// Whether the cursor's group is its domain's last.
pub fn is_last_sg(it: &MunchIterator, entry: &LoadBalanceInfo, sd: &LBIPerSchedDomain) -> (r: bool)
    requires
        it.sg_index < usize::MAX,
    ensures
        r == spec_is_last_sg(*it, entry@, sd@),
{
    is_printing_sd(it, entry) && it.sd_main_finished && it.sg_index + 1 == sd.groups.len()
}

/// Whether the cursor sits on the first per-CPU entry.
pub fn is_start_of_cpu(it: &MunchIterator, entry: &LoadBalanceInfo) -> (r: bool)
    ensures
        r == spec_is_start_of_cpu(*it, entry@),
{
    !is_printing_sd(it, entry) && it.cpu_index == 0
}

/// Whether the cursor's per-CPU entry is the record's last.
pub fn is_last_cpu(it: &MunchIterator, entry: &LoadBalanceInfo) -> (r: bool)
    requires
        it.cpu_index < usize::MAX,
    ensures
        r == spec_is_last_cpu(*it, entry@),
{
    !is_printing_sd(it, entry) && it.cpu_index + 1 == entry.per_cpu_info.len()
}

/// Whether the cursor's slot is the buffer's last.
pub fn is_last_entry(it: &MunchIterator, buffer: &RingBuffer) -> (r: bool)
    requires
        it.entry_index < usize::MAX,
    ensures
        r == spec_is_last_entry(*it, buffer@),
{
    it.entry_index + 1 == buffer.entries.len()
}

/// Whether the cursor names a printable unit of this buffer: its slot
/// exists, and within a sealed record its group or CPU index is real.
pub open spec fn step_valid(buffer: RingBufferView, it: MunchIterator) -> bool {
    &&& (it.entry_index as int) < buffer.entries.len()
    &&& {
        let e = buffer.entries[it.entry_index as int];
        e.finished ==> {
            if spec_is_printing_sd(it, e) {
                it.sd_main_finished ==> (it.sg_index as int)
                    < e.per_sd_info[it.sd_index as int].groups.len()
            } else {
                (it.cpu_index as int) < e.per_cpu_info.len()
            }
        }
    }
}

/// The text of the unit the cursor names, punctuation included: the opening
/// bracket with the first unit, separators after each unit, and the closing
/// brackets of a domain's group list, of a record, and of the whole report
/// with the unit that ends each of them.
pub open spec fn render_step(buffer: RingBufferView, it: MunchIterator) -> Seq<char> {
    let e = buffer.entries[it.entry_index as int];
    let cpu_count = e.per_cpu_info.len();
    let pre_buffer: Seq<char> = if spec_is_start_of_buffer(it) {
        "["@
    } else {
        Seq::empty()
    };
    let entry_sep: Seq<char> = if spec_is_last_entry(it, buffer) {
        "]"@
    } else {
        ","@
    };
    if !e.finished {
        pre_buffer + "null"@ + entry_sep
    } else {
        let pre_entry: Seq<char> = if spec_is_start_of_entry(it) {
            "{\"per_sd_info\":["@
        } else {
            Seq::empty()
        };
        if spec_is_printing_sd(it, e) {
            let sd = e.per_sd_info[it.sd_index as int];
            let sd_close: Seq<char> = "]}"@ + (if spec_is_last_sd(it, e) {
                "],"@
            } else {
                ","@
            });
            if !it.sd_main_finished {
                pre_buffer + pre_entry + "{\"sd\":"@ + render_domain_info(sd.info, cpu_count)
                    + ",\"sgs\":["@ + (if sd.groups.len() == 0 {
                    sd_close
                } else {
                    Seq::empty()
                })
            } else {
                render_group_entry(sd.groups[it.sg_index as int], cpu_count) + (if spec_is_last_sg(
                    it,
                    e,
                    sd,
                ) {
                    sd_close
                } else {
                    ","@
                })
            }
        } else {
            let pre_cpu: Seq<char> = if spec_is_start_of_cpu(it, e) {
                (if e.per_sd_info.len() == 0 {
                    "],"@
                } else {
                    Seq::empty()
                }) + "\"per_cpu_info\":["@
            } else {
                Seq::empty()
            };
            pre_buffer + pre_entry + pre_cpu + render_cpu_entry(e.per_cpu_info[it.cpu_index as int])
                + (if spec_is_last_cpu(it, e) {
                "]}"@ + entry_sep
            } else {
                ","@
            })
        }
    }
}

/// What one print call guarantees: the sink's text went from `pre` to
/// `post` under capacity `cap`, and the result `r` names exactly what
/// happened.  On success the unit's text was appended whole; any error
/// leaves the sink untouched and is tied to its exact cause: a slot, group
/// or CPU index the buffer does not have, or a unit that does not fit.
pub open spec fn print_post(
    buffer: RingBufferView,
    it: MunchIterator,
    pre: Seq<char>,
    cap: nat,
    post: Seq<char>,
    r: Result<(), DumpError>,
) -> bool {
    match r {
        Ok(()) => step_valid(buffer, it) && pre.len() + render_step(buffer, it).len() <= cap
            && post == pre + render_step(buffer, it),
        Err(e) => post == pre && match e {
            DumpError::EntryOutOfBounds(i) => i == it.entry_index && buffer.entries.len()
                <= it.entry_index as int,
            DumpError::SgOutOfBounds(i) => i == it.sg_index && (it.entry_index as int)
                < buffer.entries.len() && {
                let en = buffer.entries[it.entry_index as int];
                en.finished && spec_is_printing_sd(it, en) && it.sd_main_finished
                    && en.per_sd_info[it.sd_index as int].groups.len() <= it.sg_index as int
            },
            DumpError::CpuOutOfBounds(i) => i == it.cpu_index && (it.entry_index as int)
                < buffer.entries.len() && {
                let en = buffer.entries[it.entry_index as int];
                en.finished && !spec_is_printing_sd(it, en) && en.per_cpu_info.len()
                    <= it.cpu_index as int
            },
            DumpError::BufferOutOfBounds(n) => n == pre.len() && step_valid(buffer, it)
                && pre.len() + render_step(buffer, it).len() > cap,
            _ => false,
        },
    }
}

/// Print the unit the cursor names into the sink, whole or not at all.
///
/// On success the sink grew by exactly the unit's text.  Overflow leaves
/// the sink untouched and is reported with the number of characters it
/// holds, so the caller can retry the same cursor against a fresh sink.  A
/// cursor whose slot, group or CPU index does not exist is reported out of
/// bounds, with the sink untouched.
#[verifier::rlimit(100)]
#[verifier::spinoff_prover]
pub fn print_munch_iterator(
    seq_file: &mut SeqFileWriter,
    buffer: &RingBuffer,
    it: &MunchIterator,
) -> (r: Result<(), DumpError>)
    requires
        old(seq_file).wf(),
    ensures
        final(seq_file).wf(),
        final(seq_file).spec_capacity() == old(seq_file).spec_capacity(),
        print_post(
            buffer@,
            *it,
            old(seq_file)@,
            old(seq_file).spec_capacity(),
            final(seq_file)@,
            r,
        ),
{
    let entry_index = it.entry_index;
    if entry_index >= buffer.entries.len() {
        return Err(DumpError::EntryOutOfBounds(entry_index));
    }
    let entry = &buffer.entries[entry_index];
    let cpu_count = entry.per_cpu_info.len();
    let nsd = entry.per_sd_info.len();
    let mut unit: Vec<char> = Vec::new();
    if is_start_of_buffer(it) {
        push_str(&mut unit, "[");
    }
    if entry.finished {
        if is_start_of_entry(it) {
            push_str(&mut unit, "{\"per_sd_info\":[");
        }
        if is_printing_sd(it, entry) {
            proof {
                assert(it.sd_index < nsd);
            }
            let sd = &entry.per_sd_info[it.sd_index];
            if !it.sd_main_finished {
                push_str(&mut unit, "{\"sd\":");
                push_domain_info(&mut unit, &sd.info, cpu_count);
                push_str(&mut unit, ",\"sgs\":[");
                if sd.groups.len() == 0 {
                    push_str(&mut unit, "]}");
                    if is_last_sd(it, entry) {
                        push_str(&mut unit, "],");
                    } else {
                        push_str(&mut unit, ",");
                    }
                }
                proof {
                    assert(unit@ =~~= render_step(buffer@, *it));
                }
            } else {
                if it.sg_index >= sd.groups.len() {
                    return Err(DumpError::SgOutOfBounds(it.sg_index));
                }
                push_group_entry(&mut unit, &sd.groups[it.sg_index], cpu_count);
                if is_last_sg(it, entry, sd) {
                    push_str(&mut unit, "]}");
                    if is_last_sd(it, entry) {
                        push_str(&mut unit, "],");
                    } else {
                        push_str(&mut unit, ",");
                    }
                } else {
                    push_str(&mut unit, ",");
                }
                proof {
                    assert(unit@ =~~= render_step(buffer@, *it));
                }
            }
        } else {
            if it.cpu_index >= entry.per_cpu_info.len() {
                return Err(DumpError::CpuOutOfBounds(it.cpu_index));
            }
            if is_start_of_cpu(it, entry) {
                if entry.per_sd_info.len() == 0 {
                    push_str(&mut unit, "],");
                }
                push_str(&mut unit, "\"per_cpu_info\":[");
            }
            push_cpu_entry(&mut unit, &entry.per_cpu_info[it.cpu_index]);
            if is_last_cpu(it, entry) {
                push_str(&mut unit, "]}");
                if is_last_entry(it, buffer) {
                    push_str(&mut unit, "]");
                } else {
                    push_str(&mut unit, ",");
                }
            } else {
                push_str(&mut unit, ",");
            }
            proof {
                assert(unit@ =~~= render_step(buffer@, *it));
            }
        }
    } else {
        push_str(&mut unit, "null");
        if is_last_entry(it, buffer) {
            push_str(&mut unit, "]");
        } else {
            push_str(&mut unit, ",");
        }
        proof {
            assert(unit@ =~~= render_step(buffer@, *it));
        }
    }
    proof {
        assert(old(seq_file)@.len() <= usize::MAX);
    }
    seq_file.write_chars(&unit)
}

/// The cursor one unit further: groups follow their domain's flat scalars,
/// domains follow each other, the per-CPU entries follow the last domain,
/// and the next slot follows the last per-CPU entry or a null placeholder.
pub open spec fn spec_next_iterator(buffer: RingBufferView, it: MunchIterator) -> MunchIterator {
    let e = buffer.entries[it.entry_index as int];
    let to_next_entry = MunchIterator {
        entry_index: (it.entry_index + 1) as usize,
        sd_index: 0,
        sd_main_finished: false,
        sg_index: 0,
        cpu_index: 0,
        ..it
    };
    if !e.finished {
        to_next_entry
    } else {
        if spec_is_printing_sd(it, e) {
            let sd = e.per_sd_info[it.sd_index as int];
            let to_next_sd = MunchIterator {
                sd_index: (it.sd_index + 1) as usize,
                sd_main_finished: false,
                sg_index: 0,
                ..it
            };
            if !it.sd_main_finished {
                if sd.groups.len() == 0 {
                    to_next_sd
                } else {
                    MunchIterator { sd_main_finished: true, ..it }
                }
            } else {
                if !spec_is_last_sg(it, e, sd) {
                    MunchIterator { sg_index: (it.sg_index + 1) as usize, ..it }
                } else {
                    to_next_sd
                }
            }
        } else {
            if spec_is_last_cpu(it, e) {
                to_next_entry
            } else {
                MunchIterator { cpu_index: (it.cpu_index + 1) as usize, ..it }
            }
        }
    }
}

/// Step the cursor one unit further; pure apart from reading the buffer's
/// shape.
#[verifier::rlimit(50)]
pub fn next_munch_iterator(it: &MunchIterator, buffer: &RingBuffer) -> (r: MunchIterator)
    requires
        step_valid(buffer@, *it),
    ensures
        r == spec_next_iterator(buffer@, *it),
{
    let mut result = *it;
    let nent = buffer.entries.len();
    let entry = &buffer.entries[it.entry_index];
    let nsd = entry.per_sd_info.len();
    let ncpu = entry.per_cpu_info.len();
    if entry.finished {
        if is_printing_sd(it, entry) {
            proof {
                assert(it.sd_index < nsd);
            }
            let sd = &entry.per_sd_info[it.sd_index];
            let ngrp = sd.groups.len();
            proof {
                assert(it.sd_main_finished ==> it.sg_index < ngrp);
            }
            if !it.sd_main_finished {
                if ngrp == 0 {
                    result.sd_main_finished = false;
                    result.sg_index = 0;
                    result.sd_index = it.sd_index + 1;
                } else {
                    result.sd_main_finished = true;
                }
            } else if !is_last_sg(it, entry, sd) {
                result.sg_index = it.sg_index + 1;
            } else {
                result.sd_main_finished = false;
                result.sg_index = 0;
                result.sd_index = it.sd_index + 1;
            }
        } else {
            proof {
                assert(it.cpu_index < ncpu);
                assert(it.entry_index < nent);
            }
            if is_last_cpu(it, entry) {
                result.entry_index = it.entry_index + 1;
                result.sd_index = 0;
                result.sd_main_finished = false;
                result.sg_index = 0;
                result.cpu_index = 0;
            } else {
                result.cpu_index = it.cpu_index + 1;
            }
        }
    } else {
        proof {
            assert(it.entry_index < nent);
        }
        result.entry_index = it.entry_index + 1;
        result.sd_index = 0;
        result.sd_main_finished = false;
        result.sg_index = 0;
        result.cpu_index = 0;
    }
    result
}

/// Whether a buffer can be drained to completion: well formed, and every
/// record has at least one per-CPU entry, so the walk through a sealed
/// record always has a unit left to land on.
pub open spec fn buf_drainable(buffer: RingBufferView) -> bool {
    &&& buffer.wf()
    &&& forall|i: int|
        0 <= i < buffer.entries.len() ==> (#[trigger] buffer.entries[i]).per_cpu_info.len() >= 1
}

/// The cursors a drain actually visits: the slot index runs to one past the
/// last slot; within a sealed record the cursor sits on a domain's flat
/// scalars, on one of its groups, or on a per-CPU entry; an unsealed record
/// is visited only at its start.
pub open spec fn cursor_ok(buffer: RingBufferView, it: MunchIterator) -> bool {
    &&& it.entry_index as int <= buffer.entries.len()
    &&& (it.entry_index as int) < buffer.entries.len() ==> {
        let e = buffer.entries[it.entry_index as int];
        if !e.finished {
            spec_is_start_of_entry(it)
        } else {
            let lsd = e.per_sd_info.len();
            ||| ((it.sd_index as int) < lsd && !it.sd_main_finished && it.sg_index == 0
                && it.cpu_index == 0)
            ||| ((it.sd_index as int) < lsd && it.sd_main_finished && (it.sg_index as int)
                < e.per_sd_info[it.sd_index as int].groups.len() && it.cpu_index == 0)
            ||| ((it.sd_index as int) == lsd && !it.sd_main_finished && it.sg_index == 0
                && (it.cpu_index as int) < e.per_cpu_info.len())
        }
    }
}

/// How many slots the walk still has to leave.
pub open spec fn iter_m1(buffer: RingBufferView, it: MunchIterator) -> int {
    buffer.entries.len() - it.entry_index
}

/// How many domains of the current slot the walk still has to leave.
pub open spec fn iter_m2(buffer: RingBufferView, it: MunchIterator) -> int {
    if (it.entry_index as int) < buffer.entries.len() {
        buffer.entries[it.entry_index as int].per_sd_info.len() - it.sd_index
    } else {
        0
    }
}

/// How many units within the current domain or CPU walk remain.
pub open spec fn iter_m3(buffer: RingBufferView, it: MunchIterator) -> int {
    if (it.entry_index as int) < buffer.entries.len() {
        let e = buffer.entries[it.entry_index as int];
        if (it.sd_index as int) < e.per_sd_info.len() {
            if !it.sd_main_finished {
                e.per_sd_info[it.sd_index as int].groups.len() + 1int
            } else {
                e.per_sd_info[it.sd_index as int].groups.len() - it.sg_index
            }
        } else {
            e.per_cpu_info.len() - it.cpu_index
        }
    } else {
        0
    }
}

/// A visited cursor of a drainable buffer always names a printable unit,
/// and stepping it visits another such cursor, strictly closer to the end.
pub proof fn lemma_cursor_ok_step(buffer: RingBufferView, it: MunchIterator)
    requires
        buf_drainable(buffer),
        cursor_ok(buffer, it),
        (it.entry_index as int) < buffer.entries.len(),
    ensures
        step_valid(buffer, it),
        cursor_ok(buffer, spec_next_iterator(buffer, it)),
        iter_m1(buffer, it) > 0,
        iter_m2(buffer, it) >= 0,
        iter_m3(buffer, it) >= 0,
        decreases_to!(
            iter_m1(buffer, it),
            iter_m2(buffer, it),
            iter_m3(buffer, it) =>
            iter_m1(buffer, spec_next_iterator(buffer, it)),
            iter_m2(buffer, spec_next_iterator(buffer, it)),
            iter_m3(buffer, spec_next_iterator(buffer, it))
        ),
{
    assert(buffer.entries[it.entry_index as int].wf());
    let e = buffer.entries[it.entry_index as int];
    let nx = spec_next_iterator(buffer, it);
    if !e.finished {
        assert(iter_m1(buffer, nx) < iter_m1(buffer, it));
    } else if spec_is_printing_sd(it, e) {
        let sd = e.per_sd_info[it.sd_index as int];
        if !it.sd_main_finished {
            if sd.groups.len() == 0 {
                assert(iter_m1(buffer, nx) == iter_m1(buffer, it));
                assert(iter_m2(buffer, nx) < iter_m2(buffer, it));
            } else {
                assert(iter_m1(buffer, nx) == iter_m1(buffer, it));
                assert(iter_m2(buffer, nx) == iter_m2(buffer, it));
                assert(iter_m3(buffer, nx) < iter_m3(buffer, it));
            }
        } else if !spec_is_last_sg(it, e, sd) {
            assert(iter_m1(buffer, nx) == iter_m1(buffer, it));
            assert(iter_m2(buffer, nx) == iter_m2(buffer, it));
            assert(iter_m3(buffer, nx) < iter_m3(buffer, it));
        } else {
            assert(iter_m1(buffer, nx) == iter_m1(buffer, it));
            assert(iter_m2(buffer, nx) < iter_m2(buffer, it));
        }
    } else {
        if spec_is_last_cpu(it, e) {
            assert(iter_m1(buffer, nx) < iter_m1(buffer, it));
        } else {
            assert(iter_m1(buffer, nx) == iter_m1(buffer, it));
            assert(iter_m2(buffer, nx) == iter_m2(buffer, it));
            assert(iter_m3(buffer, nx) < iter_m3(buffer, it));
        }
    }
}

/// The rest of the report: everything the walk from this cursor onward
/// prints, in cursor order.
pub open spec fn render_from(buffer: RingBufferView, it: MunchIterator) -> Seq<char>
    decreases iter_m1(buffer, it), iter_m2(buffer, it), iter_m3(buffer, it),
        when cursor_ok(buffer, it) && buf_drainable(buffer)
{
    if (it.entry_index as int) >= buffer.entries.len() {
        Seq::empty()
    } else {
        proof {
            lemma_cursor_ok_step(buffer, it);
        }
        render_step(buffer, it) + render_from(buffer, spec_next_iterator(buffer, it))
    }
}

/// The whole report of one buffer: what a drain walked from the start
/// cursor prints.
pub open spec fn render_report(buffer: RingBufferView) -> Seq<char> {
    render_from(
        buffer,
        MunchIterator {
            cpu: buffer.cpu,
            entry_index: 0,
            sd_index: 0,
            sd_main_finished: false,
            sg_index: 0,
            cpu_index: 0,
        },
    )
}

/// Drain a whole buffer into the sink, unit by unit, from the start cursor
/// to the terminal cursor.
///
/// The walk itself never goes wrong on a drainable buffer: the call
/// succeeds exactly when the whole report fits the sink, and then the sink
/// grew by exactly the report.  When the report does not fit, the sink
/// holds the units that landed before the refusal — a caller either gets
/// the complete document or an explicit overflow, never a truncated
/// document passed off as complete.
pub fn dump_buffer(seq_file: &mut SeqFileWriter, buffer: &RingBuffer) -> (r: Result<
    (),
    DumpError,
>)
    requires
        old(seq_file).wf(),
        buf_drainable(buffer@),
    ensures
        final(seq_file).wf(),
        final(seq_file).spec_capacity() == old(seq_file).spec_capacity(),
        r is Ok <==> old(seq_file)@.len() + render_report(buffer@).len() <= old(
            seq_file,
        ).spec_capacity(),
        r is Ok ==> final(seq_file)@ == old(seq_file)@ + render_report(buffer@),
        r is Err ==> r->Err_0 is BufferOutOfBounds && old(seq_file)@.is_prefix_of(
            final(seq_file)@,
        ),
{
    let ghost start = MunchIterator {
        cpu: buffer.cpu,
        entry_index: 0,
        sd_index: 0,
        sd_main_finished: false,
        sg_index: 0,
        cpu_index: 0,
    };
    let mut it = create_munch_iterator(buffer.cpu);
    let ghost mut acc: Seq<char> = Seq::empty();
    let n = buffer.entries.len();
    proof {
        assert(cursor_ok(buffer@, it));
        assert(acc + render_from(buffer@, it) =~= render_report(buffer@));
    }
    while it.entry_index < n
        invariant
            seq_file.wf(),
            seq_file.spec_capacity() == old(seq_file).spec_capacity(),
            n == buffer@.entries.len(),
            buf_drainable(buffer@),
            cursor_ok(buffer@, it),
            seq_file@ == old(seq_file)@ + acc,
            acc + render_from(buffer@, it) == render_report(buffer@),
        decreases iter_m1(buffer@, it), iter_m2(buffer@, it), iter_m3(buffer@, it),
    {
        proof {
            lemma_cursor_ok_step(buffer@, it);
        }
        let step = print_munch_iterator(seq_file, buffer, &it);
        match step {
            Ok(()) => {},
            Err(e) => {
                proof {
                    assert(e is BufferOutOfBounds);
                    assert(render_from(buffer@, it) == render_step(buffer@, it) + render_from(
                        buffer@,
                        spec_next_iterator(buffer@, it),
                    ));
                    assert(old(seq_file)@.len() + render_report(buffer@).len() > old(
                        seq_file,
                    ).spec_capacity());
                    assert(old(seq_file)@.is_prefix_of(seq_file@)) by {
                        assert(old(seq_file)@ =~= seq_file@.subrange(
                            0,
                            old(seq_file)@.len() as int,
                        ));
                    }
                }
                return Err(e);
            },
        }
        proof {
            acc = acc + render_step(buffer@, it);
            assert(acc + render_from(buffer@, spec_next_iterator(buffer@, it))
                =~= render_report(buffer@));
        }
        it = next_munch_iterator(&it, buffer);
    }
    proof {
        assert(render_from(buffer@, it) =~= Seq::<char>::empty());
        assert(seq_file@ =~= old(seq_file)@ + render_report(buffer@));
        assert(seq_file@.len() <= seq_file.spec_capacity());
    }
    Ok(())
}

} // verus!
