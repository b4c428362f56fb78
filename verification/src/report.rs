//! The report's shape, stated as a grammar and proved against the walk.
//!
//! The drain emits a report one unit at a time, each unit carrying its own
//! share of punctuation.  Here the same report is written down directly —
//! a bracketed list of entries, each a nested object of domains, groups
//! and per-CPU entries joined by commas — and the two are proved equal:
//! concatenating every unit of a full walk yields exactly the document the
//! grammar describes.

use vstd::prelude::*;

use crate::iter::buf_drainable;
use crate::iter::cursor_ok;
use crate::iter::lemma_cursor_ok_step;
use crate::iter::render_from;
use crate::iter::render_report;
use crate::iter::render_step;
use crate::iter::spec_next_iterator;
use crate::iter::MunchIterator;
use crate::record::DomainEntryView;
use crate::record::RecordView;
use crate::ring::RingBufferView;
use crate::writer::render_cpu_entry;
use crate::writer::render_domain_info;
use crate::writer::render_group_entry;

verus! {

/// Parts joined by commas: the empty list renders as nothing.
pub open spec fn joined(parts: Seq<Seq<char>>) -> Seq<char>
    decreases parts.len(),
{
    if parts.len() == 0 {
        Seq::empty()
    } else if parts.len() == 1 {
        parts[0]
    } else {
        parts[0] + ","@ + joined(parts.drop_first())
    }
}

/// Peeling the head off a non-empty joined tail.
pub proof fn lemma_joined_skip(parts: Seq<Seq<char>>, k: int)
    requires
        0 <= k < parts.len(),
    ensures
        joined(parts.skip(k)) == parts[k] + (if k + 1 == parts.len() {
            Seq::<char>::empty()
        } else {
            ","@ + joined(parts.skip(k + 1))
        }),
{
    let s = parts.skip(k);
    assert(s.len() == parts.len() - k);
    assert(s[0] == parts[k]);
    if k + 1 == parts.len() {
        assert(joined(s) == s[0]);
        assert(parts[k] + Seq::<char>::empty() =~= parts[k]);
    } else {
        assert(s.drop_first() =~= parts.skip(k + 1));
        assert(joined(s) == s[0] + ","@ + joined(s.drop_first()));
        assert(s[0] + ","@ + joined(parts.skip(k + 1)) =~= parts[k] + (","@ + joined(
            parts.skip(k + 1),
        )));
    }
}

/// One group entry of the document.
pub open spec fn group_doc(e: RecordView, sd: int) -> Seq<Seq<char>> {
    e.per_sd_info[sd].groups.map_values(|g| render_group_entry(g, e.per_cpu_info.len()))
}

/// One domain of the document: its flat scalars under `sd`, its groups
/// joined under `sgs`.
#[verifier::opaque]
pub open spec fn domain_doc(e: RecordView, d: DomainEntryView) -> Seq<char> {
    "{\"sd\":"@ + render_domain_info(d.info, e.per_cpu_info.len()) + ",\"sgs\":["@ + joined(
        d.groups.map_values(|g| render_group_entry(g, e.per_cpu_info.len())),
    ) + "]}"@
}

/// Every domain of one entry, as document parts.
pub open spec fn domain_docs(e: RecordView) -> Seq<Seq<char>> {
    e.per_sd_info.map_values(|d: DomainEntryView| domain_doc(e, d))
}

/// Every per-CPU entry of one entry, as document parts.
pub open spec fn cpu_docs(e: RecordView) -> Seq<Seq<char>> {
    e.per_cpu_info.map_values(|c| render_cpu_entry(c))
}

/// One entry of the document: the null placeholder for an unsealed record,
/// else the two named lists.
pub open spec fn entry_doc(e: RecordView) -> Seq<char> {
    if !e.finished {
        "null"@
    } else {
        "{\"per_sd_info\":["@ + joined(domain_docs(e)) + "],"@ + "\"per_cpu_info\":["@
            + joined(cpu_docs(e)) + "]}"@
    }
}

/// The whole document: every entry, joined, in one bracket pair.
pub open spec fn document(buffer: RingBufferView) -> Seq<char> {
    "["@ + joined(buffer.entries.map_values(|e: RecordView| entry_doc(e))) + "]"@
}

/// The cursor on one domain's flat scalars.
pub open spec fn sd_cursor(cpu: usize, i: usize, sd: usize) -> MunchIterator {
    MunchIterator {
        cpu: cpu,
        entry_index: i,
        sd_index: sd,
        sd_main_finished: false,
        sg_index: 0,
        cpu_index: 0,
    }
}

/// The cursor on one group of one domain.
pub open spec fn group_cursor(cpu: usize, i: usize, sd: usize, sg: usize) -> MunchIterator {
    MunchIterator {
        cpu: cpu,
        entry_index: i,
        sd_index: sd,
        sd_main_finished: true,
        sg_index: sg,
        cpu_index: 0,
    }
}

/// The cursor on one per-CPU entry, past every domain.
pub open spec fn cpu_cursor(cpu: usize, i: usize, sd: usize, c: usize) -> MunchIterator {
    MunchIterator {
        cpu: cpu,
        entry_index: i,
        sd_index: sd,
        sd_main_finished: false,
        sg_index: 0,
        cpu_index: c,
    }
}

/// The separator a domain's closing bracket carries: the domain list's own
/// closer after the last domain, a plain comma otherwise.
pub open spec fn sd_sep(e: RecordView, sd: int) -> Seq<char> {
    if sd + 1 == e.per_sd_info.len() {
        "],"@
    } else {
        ","@
    }
}

/// The separator an entry's last unit carries: the document's closing
/// bracket after the last slot, a plain comma otherwise.
pub open spec fn entry_sep(buffer: RingBufferView, i: int) -> Seq<char> {
    if i + 1 == buffer.entries.len() {
        "]"@
    } else {
        ","@
    }
}

/// Walking the groups of one domain from `sg` onward yields the remaining
/// group objects joined, the domain list's closer for this domain, and
/// then whatever the next domain cursor yields.
#[verifier::rlimit(100)]
#[verifier::spinoff_prover]
pub proof fn lemma_walk_groups(buffer: RingBufferView, cpu: usize, i: usize, sd: usize, sg: usize)
    requires
        buf_drainable(buffer),
        (i as int) < buffer.entries.len(),
        buffer.entries[i as int].finished,
        (sd as int) < buffer.entries[i as int].per_sd_info.len(),
        (sg as int) < buffer.entries[i as int].per_sd_info[sd as int].groups.len(),
    ensures
        render_from(buffer, group_cursor(cpu, i, sd, sg)) == joined(
            group_doc(buffer.entries[i as int], sd as int).skip(sg as int),
        ) + "]}"@ + sd_sep(buffer.entries[i as int], sd as int) + render_from(
            buffer,
            sd_cursor(cpu, i, (sd + 1) as usize),
        ),
    decreases buffer.entries[i as int].per_sd_info[sd as int].groups.len() - sg,
{
    let e = buffer.entries[i as int];
    let d = e.per_sd_info[sd as int];
    let glen = d.groups.len() as int;
    let it = group_cursor(cpu, i, sd, sg);
    let parts = group_doc(e, sd as int);
    assert(e.wf());
    assert(cursor_ok(buffer, it));
    lemma_cursor_ok_step(buffer, it);
    lemma_joined_skip(parts, sg as int);
    assert(render_step(buffer, it) == parts[sg as int] + (if sg as int + 1 == glen {
        "]}"@ + sd_sep(e, sd as int)
    } else {
        ","@
    }));
    if sg as int + 1 == glen {
        assert(spec_next_iterator(buffer, it) == sd_cursor(cpu, i, (sd + 1) as usize));
        assert(render_from(buffer, it) == render_step(buffer, it) + render_from(
            buffer,
            sd_cursor(cpu, i, (sd + 1) as usize),
        ));
        assert(render_from(buffer, it) =~= joined(parts.skip(sg as int)) + "]}"@ + sd_sep(
            e,
            sd as int,
        ) + render_from(buffer, sd_cursor(cpu, i, (sd + 1) as usize)));
    } else {
        assert(spec_next_iterator(buffer, it) == group_cursor(cpu, i, sd, (sg + 1) as usize));
        lemma_walk_groups(buffer, cpu, i, sd, (sg + 1) as usize);
        assert(render_from(buffer, it) =~= joined(parts.skip(sg as int)) + "]}"@ + sd_sep(
            e,
            sd as int,
        ) + render_from(buffer, sd_cursor(cpu, i, (sd + 1) as usize)));
    }
}


/// What the first per-CPU unit opens: for an entry with no domains it also
/// opens the entry itself, closing the empty domain list on the way.
pub open spec fn cpu_phase_prefix(buffer: RingBufferView, i: int, c: int) -> Seq<char> {
    let e = buffer.entries[i];
    if c != 0 {
        Seq::empty()
    } else {
        (if e.per_sd_info.len() == 0 {
            (if i == 0 {
                "["@
            } else {
                Seq::<char>::empty()
            }) + "{\"per_sd_info\":["@ + "],"@
        } else {
            Seq::<char>::empty()
        }) + "\"per_cpu_info\":["@
    }
}

/// Walking the per-CPU entries from `c` onward yields the remaining CPU
/// objects joined, the entry's closer and separator, and then whatever the
/// next slot's start cursor yields.
#[verifier::rlimit(100)]
#[verifier::spinoff_prover]
pub proof fn lemma_walk_cpus(buffer: RingBufferView, cpu: usize, i: usize, sd: usize, c: usize)
    requires
        buf_drainable(buffer),
        (i as int) < buffer.entries.len(),
        buffer.entries[i as int].finished,
        sd as int == buffer.entries[i as int].per_sd_info.len(),
        (c as int) < buffer.entries[i as int].per_cpu_info.len(),
    ensures
        render_from(buffer, cpu_cursor(cpu, i, sd, c)) == cpu_phase_prefix(
            buffer,
            i as int,
            c as int,
        ) + joined(cpu_docs(buffer.entries[i as int]).skip(c as int)) + "]}"@ + entry_sep(
            buffer,
            i as int,
        ) + render_from(buffer, sd_cursor(cpu, (i + 1) as usize, 0)),
    decreases buffer.entries[i as int].per_cpu_info.len() - c,
{
    let e = buffer.entries[i as int];
    let ncpu = e.per_cpu_info.len() as int;
    let it = cpu_cursor(cpu, i, sd, c);
    let parts = cpu_docs(e);
    assert(e.wf());
    assert(cursor_ok(buffer, it));
    lemma_cursor_ok_step(buffer, it);
    lemma_joined_skip(parts, c as int);
    if c as int + 1 == ncpu {
        assert(spec_next_iterator(buffer, it) == sd_cursor(cpu, (i + 1) as usize, 0));
        assert(render_from(buffer, it) =~= cpu_phase_prefix(buffer, i as int, c as int) + joined(
            parts.skip(c as int),
        ) + "]}"@ + entry_sep(buffer, i as int) + render_from(
            buffer,
            sd_cursor(cpu, (i + 1) as usize, 0),
        ));
    } else {
        assert(spec_next_iterator(buffer, it) == cpu_cursor(cpu, i, sd, (c + 1) as usize));
        lemma_walk_cpus(buffer, cpu, i, sd, (c + 1) as usize);
        assert(render_from(buffer, it) =~= cpu_phase_prefix(buffer, i as int, c as int) + joined(
            parts.skip(c as int),
        ) + "]}"@ + entry_sep(buffer, i as int) + render_from(
            buffer,
            sd_cursor(cpu, (i + 1) as usize, 0),
        ));
    }
}

/// What the first unit of the domain phase opens when it stands at the
/// start of its slot, and of the whole report.
pub open spec fn sd_phase_prefix(buffer: RingBufferView, i: int, sd: int) -> Seq<char> {
    if sd != 0 {
        Seq::empty()
    } else {
        (if i == 0 {
            "["@
        } else {
            Seq::<char>::empty()
        }) + "{\"per_sd_info\":["@
    }
}

/// One domain, taken whole: from its flat-scalars cursor, the walk yields
/// exactly the domain's document object and its separator, and then
/// whatever the next domain cursor yields.
#[verifier::rlimit(100)]
#[verifier::spinoff_prover]
pub proof fn lemma_domain_step(buffer: RingBufferView, cpu: usize, i: usize, sd: usize)
    requires
        buf_drainable(buffer),
        (i as int) < buffer.entries.len(),
        buffer.entries[i as int].finished,
        (sd as int) < buffer.entries[i as int].per_sd_info.len(),
    ensures
        render_from(buffer, sd_cursor(cpu, i, sd)) == sd_phase_prefix(buffer, i as int, sd as int)
            + domain_doc(buffer.entries[i as int], buffer.entries[i as int].per_sd_info[sd as int])
            + sd_sep(buffer.entries[i as int], sd as int) + render_from(
            buffer,
            sd_cursor(cpu, i, (sd + 1) as usize),
        ),
{
    let e = buffer.entries[i as int];
    let d = e.per_sd_info[sd as int];
    let it = sd_cursor(cpu, i, sd);
    assert(e.wf());
    assert(d.wf());
    assert(cursor_ok(buffer, it));
    lemma_cursor_ok_step(buffer, it);
    reveal(domain_doc);
    if d.groups.len() == 0 {
        assert(spec_next_iterator(buffer, it) == sd_cursor(cpu, i, (sd + 1) as usize));
        assert(joined(d.groups.map_values(|g| render_group_entry(g, e.per_cpu_info.len())))
            == Seq::<char>::empty());
        assert(render_from(buffer, it) =~= sd_phase_prefix(buffer, i as int, sd as int)
            + domain_doc(e, d) + sd_sep(e, sd as int) + render_from(
            buffer,
            sd_cursor(cpu, i, (sd + 1) as usize),
        ));
    } else {
        assert(spec_next_iterator(buffer, it) == group_cursor(cpu, i, sd, 0));
        lemma_walk_groups(buffer, cpu, i, sd, 0);
        assert(group_doc(e, sd as int).skip(0) =~= group_doc(e, sd as int));
        assert(render_from(buffer, it) =~= sd_phase_prefix(buffer, i as int, sd as int)
            + domain_doc(e, d) + sd_sep(e, sd as int) + render_from(
            buffer,
            sd_cursor(cpu, i, (sd + 1) as usize),
        ));
    }
}

/// Walking the domains from `sd` onward yields the remaining domain
/// objects joined, the domain list's closer, the whole per-CPU list, the
/// entry's closer and separator, and then whatever the next slot's start
/// cursor yields.
#[verifier::rlimit(100)]
#[verifier::spinoff_prover]
pub proof fn lemma_walk_domains(buffer: RingBufferView, cpu: usize, i: usize, sd: usize)
    requires
        buf_drainable(buffer),
        (i as int) < buffer.entries.len(),
        buffer.entries[i as int].finished,
        (sd as int) < buffer.entries[i as int].per_sd_info.len(),
    ensures
        render_from(buffer, sd_cursor(cpu, i, sd)) == sd_phase_prefix(buffer, i as int, sd as int)
            + joined(domain_docs(buffer.entries[i as int]).skip(sd as int)) + "],"@
            + "\"per_cpu_info\":["@ + joined(cpu_docs(buffer.entries[i as int])) + "]}"@
            + entry_sep(buffer, i as int) + render_from(
            buffer,
            sd_cursor(cpu, (i + 1) as usize, 0),
        ),
    decreases buffer.entries[i as int].per_sd_info.len() - sd,
{
    let e = buffer.entries[i as int];
    let d = e.per_sd_info[sd as int];
    let lsd = e.per_sd_info.len() as int;
    let parts = domain_docs(e);
    assert(e.wf());
    lemma_joined_skip(parts, sd as int);
    assert(parts[sd as int] == domain_doc(e, d));
    lemma_domain_step(buffer, cpu, i, sd);
    let goal = sd_phase_prefix(buffer, i as int, sd as int) + joined(parts.skip(sd as int))
        + "],"@ + "\"per_cpu_info\":["@ + joined(cpu_docs(e)) + "]}"@ + entry_sep(buffer, i as int)
        + render_from(buffer, sd_cursor(cpu, (i + 1) as usize, 0));
    if sd as int + 1 == lsd {
        assert(render_from(buffer, sd_cursor(cpu, i, sd)) =~= goal) by {
            lemma_walk_cpus(buffer, cpu, i, (sd + 1) as usize, 0);
            assert(cpu_docs(e).skip(0) =~= cpu_docs(e));
        }
    } else {
        assert(render_from(buffer, sd_cursor(cpu, i, sd)) =~= goal) by {
            lemma_walk_domains(buffer, cpu, i, (sd + 1) as usize);
        }
    }
}


/// One slot, taken whole: from its start cursor, the walk yields exactly
/// the entry's document object and its separator, and then whatever the
/// next slot's start cursor yields.
#[verifier::rlimit(100)]
#[verifier::spinoff_prover]
pub proof fn lemma_entry_step(buffer: RingBufferView, cpu: usize, i: usize)
    requires
        buf_drainable(buffer),
        (i as int) < buffer.entries.len(),
    ensures
        render_from(buffer, sd_cursor(cpu, i, 0)) == (if i == 0 {
            "["@
        } else {
            Seq::<char>::empty()
        }) + entry_doc(buffer.entries[i as int]) + entry_sep(buffer, i as int) + render_from(
            buffer,
            sd_cursor(cpu, (i + 1) as usize, 0),
        ),
{
    let e = buffer.entries[i as int];
    let it = sd_cursor(cpu, i, 0);
    let pre: Seq<char> = if i == 0 {
        "["@
    } else {
        Seq::empty()
    };
    assert(e.wf());
    assert(cursor_ok(buffer, it));
    if !e.finished {
        lemma_cursor_ok_step(buffer, it);
        assert(spec_next_iterator(buffer, it) == sd_cursor(cpu, (i + 1) as usize, 0));
        assert(render_from(buffer, it) =~= pre + entry_doc(e) + entry_sep(buffer, i as int)
            + render_from(buffer, sd_cursor(cpu, (i + 1) as usize, 0)));
    } else if e.per_sd_info.len() > 0 {
        lemma_walk_domains(buffer, cpu, i, 0);
        assert(domain_docs(e).skip(0) =~= domain_docs(e));
        assert(render_from(buffer, it) =~= pre + entry_doc(e) + entry_sep(buffer, i as int)
            + render_from(buffer, sd_cursor(cpu, (i + 1) as usize, 0)));
    } else {
        assert(it == cpu_cursor(cpu, i, 0, 0));
        lemma_walk_cpus(buffer, cpu, i, 0, 0);
        assert(cpu_docs(e).skip(0) =~= cpu_docs(e));
        assert(joined(domain_docs(e)) == Seq::<char>::empty());
        assert(render_from(buffer, it) =~= pre + entry_doc(e) + entry_sep(buffer, i as int)
            + render_from(buffer, sd_cursor(cpu, (i + 1) as usize, 0)));
    }
}

/// The report from slot `i` onward: the remaining entries joined, and the
/// document's closing bracket.
#[verifier::rlimit(100)]
#[verifier::spinoff_prover]
pub proof fn lemma_walk_entries(buffer: RingBufferView, cpu: usize, i: usize)
    requires
        buf_drainable(buffer),
        (i as int) < buffer.entries.len(),
    ensures
        render_from(buffer, sd_cursor(cpu, i, 0)) == (if i == 0 {
            "["@
        } else {
            Seq::<char>::empty()
        }) + joined(buffer.entries.map_values(|e: RecordView| entry_doc(e)).skip(i as int)) + "]"@,
    decreases buffer.entries.len() - i,
{
    let parts = buffer.entries.map_values(|e: RecordView| entry_doc(e));
    lemma_entry_step(buffer, cpu, i);
    lemma_joined_skip(parts, i as int);
    assert(parts[i as int] == entry_doc(buffer.entries[i as int]));
    let goal = (if i == 0 {
        "["@
    } else {
        Seq::<char>::empty()
    }) + joined(parts.skip(i as int)) + "]"@;
    if i as int + 1 == buffer.entries.len() {
        assert(cursor_ok(buffer, sd_cursor(cpu, (i + 1) as usize, 0)));
        assert(render_from(buffer, sd_cursor(cpu, (i + 1) as usize, 0)) == Seq::<char>::empty());
        assert(render_from(buffer, sd_cursor(cpu, i, 0)) =~= goal);
    } else {
        assert(render_from(buffer, sd_cursor(cpu, i, 0)) =~= goal) by {
            lemma_walk_entries(buffer, cpu, (i + 1) as usize);
        }
    }
}

/// Law: a full drain prints the document and nothing else.  The
/// concatenation of every unit a complete walk emits, in cursor order, is
/// exactly the bracketed list of entries the grammar above describes: one
/// object per sealed record, the null placeholder per unsealed one.
pub proof fn lemma_report_is_document(buffer: RingBufferView)
    requires
        buf_drainable(buffer),
    ensures
        render_report(buffer) == document(buffer),
{
    let parts = buffer.entries.map_values(|e: RecordView| entry_doc(e));
    lemma_walk_entries(buffer, buffer.cpu, 0);
    assert(parts.skip(0) =~= parts);
    assert(render_report(buffer) == render_from(buffer, sd_cursor(buffer.cpu, 0, 0)));
    assert(render_report(buffer) =~= document(buffer));
}

} // verus!
