//! Rendering of record fields into text, and the bounded output sink.
//!
//! Every value shape has a builder that appends its textual form to a growing
//! character buffer, together with a spec function that states that form
//! exactly.  A whole drain unit is first built this way and then handed to
//! the sink in one atomic write, so a unit either lands completely or the
//! sink reports overflow and keeps its previous contents.

use vstd::prelude::*;

use crate::errors::DumpError;
use crate::fields::CpuIdleType;
use crate::fields::DomainInfoView;
use crate::fields::GroupEntryView;
use crate::fields::GroupType;
use crate::fields::LBIPerCpu;
use crate::fields::LBIPerSchedDomainInfo;
use crate::fields::LBIPerSchedGroup;

verus! {

/// The character for one decimal digit.
pub open spec fn digit_char(d: nat) -> char {
    if d == 0 {
        '0'
    } else if d == 1 {
        '1'
    } else if d == 2 {
        '2'
    } else if d == 3 {
        '3'
    } else if d == 4 {
        '4'
    } else if d == 5 {
        '5'
    } else if d == 6 {
        '6'
    } else if d == 7 {
        '7'
    } else if d == 8 {
        '8'
    } else {
        '9'
    }
}

/// The decimal form of a natural number, most significant digit first.
pub open spec fn dec_digits(n: nat) -> Seq<char>
    decreases n,
{
    if n < 10 {
        seq![digit_char(n)]
    } else {
        dec_digits(n / 10).push(digit_char(n % 10))
    }
}

/// The decimal form of a `u64` value.
pub open spec fn render_u64(v: u64) -> Seq<char> {
    dec_digits(v as nat)
}

/// The textual form of a boolean.
pub open spec fn render_bool(b: bool) -> Seq<char> {
    if b {
        "true"@
    } else {
        "false"@
    }
}

/// An absent field renders as the null placeholder.
pub open spec fn render_opt_u64(v: Option<u64>) -> Seq<char> {
    match v {
        None => "null"@,
        Some(x) => render_u64(x),
    }
}

/// An absent field renders as the null placeholder.
pub open spec fn render_opt_bool(v: Option<bool>) -> Seq<char> {
    match v {
        None => "null"@,
        Some(b) => render_bool(b),
    }
}

/// The quoted name of an idle state.
pub open spec fn render_idle_type(t: CpuIdleType) -> Seq<char> {
    match t {
        CpuIdleType::CpuNotIdle => "\"CPU_NOT_IDLE\""@,
        CpuIdleType::CpuIdle => "\"CPU_IDLE\""@,
        CpuIdleType::CpuNewlyIdle => "\"CPU_NEWLY_IDLE\""@,
        CpuIdleType::CpuMaxIdleTypes => "\"CPU_MAX_IDLE_TYPES\""@,
    }
}

/// An absent field renders as the null placeholder.
pub open spec fn render_opt_idle_type(v: Option<CpuIdleType>) -> Seq<char> {
    match v {
        None => "null"@,
        Some(t) => render_idle_type(t),
    }
}

/// The quoted name of a group classification.
pub open spec fn render_group_type(t: GroupType) -> Seq<char> {
    match t {
        GroupType::GroupHasSpare => "\"group_has_spare\""@,
        GroupType::GroupFullyBusy => "\"group_fully_busy\""@,
        GroupType::GroupMisfitTask => "\"group_misfit_task\""@,
        GroupType::GroupSmtBalance => "\"group_smt_balance\""@,
        GroupType::GroupAsymPacking => "\"group_asym_packing\""@,
        GroupType::GroupImbalanced => "\"group_imbalanced\""@,
        GroupType::GroupOverloaded => "\"group_overloaded\""@,
    }
}

/// An absent field renders as the null placeholder.
pub open spec fn render_opt_group_type(v: Option<GroupType>) -> Seq<char> {
    match v {
        None => "null"@,
        Some(t) => render_group_type(t),
    }
}

/// How many mask bits are printed: one per logical CPU, but never more than
/// the mask's words can hold.
pub open spec fn mask_bit_count(words: nat, cpu_count: nat) -> nat {
    if cpu_count <= 64 * words {
        cpu_count
    } else {
        64 * words
    }
}

/// The character for one mask bit.
pub open spec fn mask_bit_char(w: u64, i: int) -> char {
    if (w >> ((i % 64) as u64)) & 1 == 0 {
        '0'
    } else {
        '1'
    }
}

/// A mask renders as a quoted string of bits, lowest-numbered CPU first.
pub open spec fn render_mask(bits: Seq<u64>, cpu_count: nat) -> Seq<char> {
    "\""@ + Seq::new(
        mask_bit_count(bits.len(), cpu_count),
        |j: int| mask_bit_char(bits[j / 64], j),
    ) + "\""@
}

/// An absent mask renders as the null placeholder.
pub open spec fn render_opt_mask(v: Option<Seq<u64>>, cpu_count: nat) -> Seq<char> {
    match v {
        None => "null"@,
        Some(bits) => render_mask(bits, cpu_count),
    }
}

/// Append the characters of a literal.
pub fn push_str(out: &mut Vec<char>, s: &str)
    ensures
        final(out)@ == old(out)@ + s@,
{
    let n = s.unicode_len();
    let mut i: usize = 0;
    while i < n
        invariant
            n == s@.len(),
            i <= n,
            out@ == old(out)@ + s@.take(i as int),
        decreases n - i,
    {
        let c = s.get_char(i);
        out.push(c);
        i = i + 1;
        proof {
            assert(out@ =~= old(out)@ + s@.take(i as int));
        }
    }
    proof {
        assert(out@ =~= old(out)@ + s@);
    }
}

/// The digit character of a value below ten.
fn digit(d: u64) -> (c: char)
    requires
        d < 10,
    ensures
        c == digit_char(d as nat),
{
    match d {
        0 => '0',
        1 => '1',
        2 => '2',
        3 => '3',
        4 => '4',
        5 => '5',
        6 => '6',
        7 => '7',
        8 => '8',
        _ => '9',
    }
}

/// Append the decimal form of a value, most significant digit first.
pub fn push_u64(out: &mut Vec<char>, v: u64)
    ensures
        final(out)@ == old(out)@ + render_u64(v),
    decreases v,
{
    if v < 10 {
        out.push(digit(v));
    } else {
        push_u64(out, v / 10);
        out.push(digit(v % 10));
        proof {
            assert(out@ =~= old(out)@ + render_u64(v));
        }
    }
}

/// Append the textual form of a boolean.
pub fn push_bool(out: &mut Vec<char>, b: bool)
    ensures
        final(out)@ == old(out)@ + render_bool(b),
{
    if b {
        push_str(out, "true");
    } else {
        push_str(out, "false");
    }
}

/// Append an optional value, or the null placeholder.
pub fn push_opt_u64(out: &mut Vec<char>, v: &Option<u64>)
    ensures
        final(out)@ == old(out)@ + render_opt_u64(*v),
{
    match v {
        None => push_str(out, "null"),
        Some(x) => push_u64(out, *x),
    }
}

/// Append an optional boolean, or the null placeholder.
pub fn push_opt_bool(out: &mut Vec<char>, v: &Option<bool>)
    ensures
        final(out)@ == old(out)@ + render_opt_bool(*v),
{
    match v {
        None => push_str(out, "null"),
        Some(b) => push_bool(out, *b),
    }
}

/// Append the quoted name of an idle state.
pub fn push_opt_idle_type(out: &mut Vec<char>, v: &Option<CpuIdleType>)
    ensures
        final(out)@ == old(out)@ + render_opt_idle_type(*v),
{
    match v {
        None => push_str(out, "null"),
        Some(CpuIdleType::CpuNotIdle) => push_str(out, "\"CPU_NOT_IDLE\""),
        Some(CpuIdleType::CpuIdle) => push_str(out, "\"CPU_IDLE\""),
        Some(CpuIdleType::CpuNewlyIdle) => push_str(out, "\"CPU_NEWLY_IDLE\""),
        Some(CpuIdleType::CpuMaxIdleTypes) => push_str(out, "\"CPU_MAX_IDLE_TYPES\""),
    }
}

/// Append the quoted name of a group classification.
pub fn push_opt_group_type(out: &mut Vec<char>, v: &Option<GroupType>)
    ensures
        final(out)@ == old(out)@ + render_opt_group_type(*v),
{
    match v {
        None => push_str(out, "null"),
        Some(GroupType::GroupHasSpare) => push_str(out, "\"group_has_spare\""),
        Some(GroupType::GroupFullyBusy) => push_str(out, "\"group_fully_busy\""),
        Some(GroupType::GroupMisfitTask) => push_str(out, "\"group_misfit_task\""),
        Some(GroupType::GroupSmtBalance) => push_str(out, "\"group_smt_balance\""),
        Some(GroupType::GroupAsymPacking) => push_str(out, "\"group_asym_packing\""),
        Some(GroupType::GroupImbalanced) => push_str(out, "\"group_imbalanced\""),
        Some(GroupType::GroupOverloaded) => push_str(out, "\"group_overloaded\""),
    }
}

/// Append a mask as a quoted string of bits, lowest-numbered CPU first.
pub fn push_mask(out: &mut Vec<char>, bits: &Vec<u64>, cpu_count: usize)
    ensures
        final(out)@ == old(out)@ + render_mask(bits@, cpu_count as nat),
{
    push_str(out, "\"");
    let ghost mid = out@;
    let ghost total = mask_bit_count(bits@.len(), cpu_count as nat);
    let mut j: usize = 0;
    while j < cpu_count && j / 64 < bits.len()
        invariant
            total == mask_bit_count(bits@.len(), cpu_count as nat),
            j <= cpu_count,
            j <= total,
            out@ == mid + Seq::new(total, |k: int| mask_bit_char(bits@[k / 64], k)).take(j as int),
        decreases cpu_count - j,
    {
        let w = bits[j / 64];
        let i = (j % 64) as u64;
        let bit = (w >> i) & 1;
        let c = if bit == 0 {
            '0'
        } else {
            '1'
        };
        proof {
            let jj = j as int;
            let wl = bits@.len() as int;
            assert(j / 64 == jj / 64 && j % 64 == jj % 64);
            assert(c == mask_bit_char(bits@[jj / 64], jj));
            assert(j < total) by {
                let jj = j as int;
                let wl = bits@.len() as int;
                assert(jj / 64 < wl);
                assert(jj / 64 * 64 + jj % 64 == jj);
                assert(jj < 64 * wl) by (nonlinear_arith)
                    requires
                        jj / 64 < wl,
                        jj / 64 * 64 + jj % 64 == jj,
                        0 <= jj % 64 < 64,
                ;
            }
        }
        out.push(c);
        j = j + 1;
        proof {
            assert(out@ =~= mid + Seq::new(total, |k: int| mask_bit_char(bits@[k / 64], k)).take(
                j as int,
            ));
        }
    }
    proof {
        assert(j == total) by {
            if j < cpu_count {
                let jj = j as int;
                let wl = bits@.len() as int;
                assert(jj / 64 >= wl);
                assert(jj >= 64 * wl) by (nonlinear_arith)
                    requires
                        jj / 64 >= wl,
                        jj / 64 * 64 + jj % 64 == jj,
                        0 <= jj % 64,
                ;
            }
        }
        assert(out@ =~= mid + Seq::new(total, |k: int| mask_bit_char(bits@[k / 64], k)));
    }
    push_str(out, "\"");
    proof {
        assert(out@ =~= old(out)@ + render_mask(bits@, cpu_count as nat));
    }
}

/// Append an optional mask, or the null placeholder.
pub fn push_opt_mask(
    out: &mut Vec<char>,
    v: &Option<crate::fields::CpuMask>,
    cpu_count: usize,
)
    ensures
        final(out)@ == old(out)@ + render_opt_mask(
            match *v {
                None => None,
                Some(m) => Some(m@),
            },
            cpu_count as nat,
        ),
{
    match v {
        None => push_str(out, "null"),
        Some(m) => push_mask(out, &m.bits, cpu_count),
    }
}

/// The object form of one per-CPU entry, every field named.
#[verifier::opaque]
pub open spec fn render_cpu_entry(c: LBIPerCpu) -> Seq<char> {
    "{\"idle_cpu\":"@ + render_opt_bool(c.idle_cpu) + ",\"is_core_idle\":"@ + render_opt_bool(
        c.is_core_idle,
    ) + ",\"nr_running\":"@ + render_opt_u64(c.nr_running) + ",\"h_nr_running\":"@
        + render_opt_u64(c.h_nr_running) + ",\"ttwu_pending\":"@ + render_opt_bool(c.ttwu_pending)
        + ",\"capacity\":"@ + render_opt_u64(c.capacity) + ",\"asym_cpu_priority\":"@
        + render_opt_u64(c.asym_cpu_priority) + ",\"rd_overutilized\":"@ + render_opt_bool(
        c.rd_overutilized,
    ) + ",\"rd_pd_overlap\":"@ + render_opt_bool(c.rd_pd_overlap)
        + ",\"arch_scale_cpu_capacity\":"@ + render_opt_u64(c.arch_scale_cpu_capacity)
        + ",\"cpu_load\":"@ + render_opt_u64(c.cpu_load) + ",\"cpu_util_cfs_boost\":"@
        + render_opt_u64(c.cpu_util_cfs_boost) + ",\"misfit_task_load\":"@ + render_opt_u64(
        c.misfit_task_load,
    ) + "}"@
}

/// Append the object form of one per-CPU entry.
#[verifier::rlimit(100)]
#[verifier::spinoff_prover]
pub fn push_cpu_entry(out: &mut Vec<char>, c: &LBIPerCpu)
    ensures
        final(out)@ == old(out)@ + render_cpu_entry(*c),
{
    push_str(out, "{\"idle_cpu\":");
    push_opt_bool(out, &c.idle_cpu);
    push_str(out, ",\"is_core_idle\":");
    push_opt_bool(out, &c.is_core_idle);
    push_str(out, ",\"nr_running\":");
    push_opt_u64(out, &c.nr_running);
    push_str(out, ",\"h_nr_running\":");
    push_opt_u64(out, &c.h_nr_running);
    push_str(out, ",\"ttwu_pending\":");
    push_opt_bool(out, &c.ttwu_pending);
    push_str(out, ",\"capacity\":");
    push_opt_u64(out, &c.capacity);
    push_str(out, ",\"asym_cpu_priority\":");
    push_opt_u64(out, &c.asym_cpu_priority);
    push_str(out, ",\"rd_overutilized\":");
    push_opt_bool(out, &c.rd_overutilized);
    push_str(out, ",\"rd_pd_overlap\":");
    push_opt_bool(out, &c.rd_pd_overlap);
    push_str(out, ",\"arch_scale_cpu_capacity\":");
    push_opt_u64(out, &c.arch_scale_cpu_capacity);
    push_str(out, ",\"cpu_load\":");
    push_opt_u64(out, &c.cpu_load);
    push_str(out, ",\"cpu_util_cfs_boost\":");
    push_opt_u64(out, &c.cpu_util_cfs_boost);
    push_str(out, ",\"misfit_task_load\":");
    push_opt_u64(out, &c.misfit_task_load);
    push_str(out, "}");
    proof {
        reveal(render_cpu_entry);
        assert(out@ =~= old(out)@ + render_cpu_entry(*c));
    }
}

/// The object form of a domain's flat scalars, every field named.
#[verifier::opaque]
pub open spec fn render_domain_info(d: DomainInfoView, cpu_count: nat) -> Seq<char> {
    "{\"cpu\":"@ + render_opt_u64(d.cpu) + ",\"cpumask\":"@ + render_opt_mask(d.cpumask, cpu_count)
        + ",\"cpu_idle_type\":"@ + render_opt_idle_type(d.cpu_idle_type)
        + ",\"group_balance_cpu_sg\":"@ + render_opt_u64(d.group_balance_cpu_sg)
        + ",\"asym_cpucapacity\":"@ + render_opt_bool(d.asym_cpucapacity) + ",\"asym_packing\":"@
        + render_opt_bool(d.asym_packing) + ",\"share_cpucapacity\":"@ + render_opt_bool(
        d.share_cpucapacity,
    ) + ",\"should_we_balance\":"@ + render_opt_bool(d.should_we_balance) + ",\"has_busiest\":"@
        + render_opt_bool(d.has_busiest) + ",\"avg_load\":"@ + render_opt_u64(d.avg_load)
        + ",\"imbalance_pct\":"@ + render_opt_u64(d.imbalance_pct) + ",\"smt_active\":"@
        + render_opt_bool(d.smt_active) + ",\"imbalance\":"@ + render_opt_u64(d.imbalance) + "}"@
}

/// Append the object form of a domain's flat scalars.
#[verifier::rlimit(100)]
#[verifier::spinoff_prover]
pub fn push_domain_info(out: &mut Vec<char>, d: &LBIPerSchedDomainInfo, cpu_count: usize)
    ensures
        final(out)@ == old(out)@ + render_domain_info(d@, cpu_count as nat),
{
    push_str(out, "{\"cpu\":");
    push_opt_u64(out, &d.cpu);
    push_str(out, ",\"cpumask\":");
    push_opt_mask(out, &d.cpumask, cpu_count);
    push_str(out, ",\"cpu_idle_type\":");
    push_opt_idle_type(out, &d.cpu_idle_type);
    push_str(out, ",\"group_balance_cpu_sg\":");
    push_opt_u64(out, &d.group_balance_cpu_sg);
    push_str(out, ",\"asym_cpucapacity\":");
    push_opt_bool(out, &d.asym_cpucapacity);
    push_str(out, ",\"asym_packing\":");
    push_opt_bool(out, &d.asym_packing);
    push_str(out, ",\"share_cpucapacity\":");
    push_opt_bool(out, &d.share_cpucapacity);
    push_str(out, ",\"should_we_balance\":");
    push_opt_bool(out, &d.should_we_balance);
    push_str(out, ",\"has_busiest\":");
    push_opt_bool(out, &d.has_busiest);
    push_str(out, ",\"avg_load\":");
    push_opt_u64(out, &d.avg_load);
    push_str(out, ",\"imbalance_pct\":");
    push_opt_u64(out, &d.imbalance_pct);
    push_str(out, ",\"smt_active\":");
    push_opt_bool(out, &d.smt_active);
    push_str(out, ",\"imbalance\":");
    push_opt_u64(out, &d.imbalance);
    push_str(out, "}");
    proof {
        reveal(render_domain_info);
        assert(out@ =~= old(out)@ + render_domain_info(d@, cpu_count as nat));
    }
}

/// The object form of one scheduling-group entry, every field named.
#[verifier::opaque]
pub open spec fn render_group_entry(g: GroupEntryView, cpu_count: nat) -> Seq<char> {
    "{\"cpumask\":"@ + render_opt_mask(g.cpumask, cpu_count) + ",\"group_type\":"@
        + render_opt_group_type(g.group_type) + ",\"sum_h_nr_running\":"@ + render_opt_u64(
        g.sum_h_nr_running,
    ) + ",\"sum_nr_running\":"@ + render_opt_u64(g.sum_nr_running) + ",\"max_capacity\":"@
        + render_opt_u64(g.max_capacity) + ",\"min_capacity\":"@ + render_opt_u64(g.min_capacity)
        + ",\"avg_load\":"@ + render_opt_u64(g.avg_load) + ",\"asym_prefer_cpu\":"@
        + render_opt_u64(g.asym_prefer_cpu) + ",\"misfit_task_load\":"@ + render_opt_u64(
        g.misfit_task_load,
    ) + ",\"idle_cpus\":"@ + render_opt_u64(g.idle_cpus) + ",\"group_balance_cpu\":"@
        + render_opt_u64(g.group_balance_cpu) + "}"@
}

/// Append the object form of one scheduling-group entry.
#[verifier::rlimit(100)]
#[verifier::spinoff_prover]
pub fn push_group_entry(out: &mut Vec<char>, g: &LBIPerSchedGroup, cpu_count: usize)
    ensures
        final(out)@ == old(out)@ + render_group_entry(g@, cpu_count as nat),
{
    push_str(out, "{\"cpumask\":");
    push_opt_mask(out, &g.cpumask, cpu_count);
    push_str(out, ",\"group_type\":");
    push_opt_group_type(out, &g.group_type);
    push_str(out, ",\"sum_h_nr_running\":");
    push_opt_u64(out, &g.sum_h_nr_running);
    push_str(out, ",\"sum_nr_running\":");
    push_opt_u64(out, &g.sum_nr_running);
    push_str(out, ",\"max_capacity\":");
    push_opt_u64(out, &g.max_capacity);
    push_str(out, ",\"min_capacity\":");
    push_opt_u64(out, &g.min_capacity);
    push_str(out, ",\"avg_load\":");
    push_opt_u64(out, &g.avg_load);
    push_str(out, ",\"asym_prefer_cpu\":");
    push_opt_u64(out, &g.asym_prefer_cpu);
    push_str(out, ",\"misfit_task_load\":");
    push_opt_u64(out, &g.misfit_task_load);
    push_str(out, ",\"idle_cpus\":");
    push_opt_u64(out, &g.idle_cpus);
    push_str(out, ",\"group_balance_cpu\":");
    push_opt_u64(out, &g.group_balance_cpu);
    push_str(out, "}");
    proof {
        reveal(render_group_entry);
        assert(out@ =~= old(out)@ + render_group_entry(g@, cpu_count as nat));
    }
}

/// The bounded output sink: a character buffer that refuses, atomically per
/// write, anything past its capacity.
pub struct SeqFileWriter {
    data: Vec<char>,
    capacity: usize,
}

impl View for SeqFileWriter {
    type V = Seq<char>;

    closed spec fn view(&self) -> Seq<char> {
        self.data@
    }
}

impl SeqFileWriter {
    /// How much the sink will hold at most.
    pub closed spec fn spec_capacity(&self) -> nat {
        self.capacity as nat
    }

    /// The sink never holds more than its capacity, which fits the machine
    /// word.
    pub open spec fn wf(&self) -> bool {
        self@.len() <= self.spec_capacity() <= usize::MAX
    }

    /// An empty sink of the given capacity.
    pub fn new(capacity: usize) -> (r: SeqFileWriter)
        ensures
            r.wf(),
            r@ == Seq::<char>::empty(),
            r.spec_capacity() == capacity as nat,
    {
        SeqFileWriter { data: Vec::new(), capacity }
    }

    /// Write a whole buffer of characters, or nothing at all: if the sink
    /// lacks room for all of them, it is left untouched and reports overflow
    /// with the number of characters it holds.
    pub fn write_chars(&mut self, chars: &Vec<char>) -> (r: Result<(), DumpError>)
        requires
            old(self).wf(),
        ensures
            final(self).wf(),
            final(self).spec_capacity() == old(self).spec_capacity(),
            r is Ok <==> old(self)@.len() + chars@.len() <= old(self).spec_capacity(),
            r is Ok ==> final(self)@ == old(self)@ + chars@,
            r is Err ==> final(self)@ == old(self)@ && r == Err::<(), DumpError>(
                DumpError::BufferOutOfBounds(old(self)@.len() as usize),
            ),
    {
        if chars.len() <= self.capacity - self.data.len() {
            let n = chars.len();
            let mut i: usize = 0;
            while i < n
                invariant
                    n == chars@.len(),
                    i <= n,
                    self.data@ == old(self).data@ + chars@.take(i as int),
                    self.data@.len() + (n - i) <= self.capacity,
                    self.capacity == old(self).capacity,
                decreases n - i,
            {
                let c = chars[i];
                self.data.push(c);
                i = i + 1;
                proof {
                    assert(self.data@ =~= old(self).data@ + chars@.take(i as int));
                }
            }
            proof {
                assert(self.data@ =~= old(self).data@ + chars@);
            }
            Ok(())
        } else {
            Err(DumpError::BufferOutOfBounds(self.data.len()))
        }
    }

    /// The characters written so far.
    pub fn data(&self) -> (r: &Vec<char>)
        ensures
            r@ == self@,
    {
        &self.data
    }
}

} // verus!
