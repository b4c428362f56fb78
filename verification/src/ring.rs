//! The per-processor ring buffer, its access guard, and the write handle.
//!
//! A buffer owns a fixed number of records and hands out one slot per write
//! session, advancing a cursor that wraps at the buffer length.  An epoch
//! counter rises on every reset; a handle carries the epoch it was issued
//! under and dies the moment the buffer's epoch moves past it.  The guard is
//! one flag: writable, or locked for draining.

use vstd::prelude::*;

use crate::errors::GroupId;
use crate::record::copy_topology;
use crate::record::fresh_record;
use crate::record::LoadBalanceInfo;
use crate::record::RecordView;

verus! {

/// The write-session handle: which processor, which slot, and the epoch the
/// slot was handed out under.
#[derive(Clone, Copy, Debug, PartialEq, Eq, Structural)]
pub struct MealDescriptor {
    pub age: usize,
    pub cpu_number: usize,
    pub entry_idx: usize,
}

/// Whether a handle is the sentinel that routes nowhere.
pub open spec fn spec_md_is_invalid(md: MealDescriptor) -> bool {
    md.cpu_number == usize::MAX || md.entry_idx == usize::MAX
}

/// The sentinel handle handed out when no slot could be opened.
pub fn md_invalid() -> (md: MealDescriptor)
    ensures
        spec_md_is_invalid(md),
        md == (MealDescriptor { age: 0, cpu_number: usize::MAX, entry_idx: usize::MAX }),
{
    MealDescriptor { age: 0, cpu_number: usize::MAX, entry_idx: usize::MAX }
}

/// Whether a handle is the sentinel that routes nowhere.
pub fn md_is_invalid(md: &MealDescriptor) -> (r: bool)
    ensures
        r == spec_md_is_invalid(*md),
{
    md.cpu_number == usize::MAX || md.entry_idx == usize::MAX
}

/// The ring buffer of one processor.
#[derive(Debug, PartialEq, Eq)]
pub struct RingBuffer {
    /// The epoch: how many resets this buffer has seen, wrapping at the
    /// machine word.
    pub age: usize,
    /// The processor this buffer belongs to.
    pub cpu: usize,
    /// The records, one per slot.
    pub entries: Vec<LoadBalanceInfo>,
    /// The next slot to hand out.
    pub head: usize,
}

/// The mathematical shape of one ring buffer.
#[verifier::ext_equal]
pub ghost struct RingBufferView {
    pub age: usize,
    pub cpu: usize,
    pub entries: Seq<RecordView>,
    pub head: usize,
}

impl View for RingBuffer {
    type V = RingBufferView;

    open spec fn view(&self) -> RingBufferView {
        RingBufferView {
            age: self.age,
            cpu: self.cpu,
            entries: self.entries@.map_values(|e: LoadBalanceInfo| e@),
            head: self.head,
        }
    }
}

/// A machine-word counter stepped by one, wrapping to zero at the top.
pub open spec fn wrap_inc(a: usize) -> usize {
    if a == usize::MAX {
        0
    } else {
        (a + 1) as usize
    }
}

impl RingBufferView {
    /// The buffer's standing invariant: at least one slot, the cursor on a
    /// real slot, every record well formed.
    pub open spec fn wf(self) -> bool {
        &&& 1 <= self.entries.len() <= usize::MAX
        &&& (self.head as int) < self.entries.len()
        &&& forall|i: int| 0 <= i < self.entries.len() ==> (#[trigger] self.entries[i]).wf()
    }

    /// The buffer after a slot was handed out: that record emptied, the
    /// cursor one further, wrapping at the buffer length.
    pub open spec fn opened(self) -> RingBufferView {
        RingBufferView {
            entries: self.entries.update(self.head as int, self.entries[self.head as int].resetted()),
            head: if self.head as int + 1 == self.entries.len() {
                0
            } else {
                (self.head + 1) as usize
            },
            ..self
        }
    }

    /// The handle a freshly handed-out slot travels under.
    pub open spec fn opened_md(self) -> MealDescriptor {
        MealDescriptor { age: self.age, cpu_number: self.cpu, entry_idx: self.head }
    }

    /// The buffer after a reset: every record emptied, the cursor rewound,
    /// the epoch one higher.
    pub open spec fn resetted(self) -> RingBufferView {
        RingBufferView {
            age: wrap_inc(self.age),
            cpu: self.cpu,
            entries: Seq::new(self.entries.len(), |i: int| self.entries[i].resetted()),
            head: 0,
        }
    }
}

impl RingBuffer {
    /// A fresh buffer of `n` slots for processor `cpu`, each record built
    /// from the same topology snapshot.
    pub fn new(n: usize, cpu: usize, group_ptrs: &Vec<Vec<GroupId>>, cpu_count: usize) -> (r:
        RingBuffer)
        requires
            n >= 1,
        ensures
            r@ == (RingBufferView {
                age: 0,
                cpu: cpu,
                entries: Seq::new(
                    n as nat,
                    |i: int| fresh_record(group_ptrs.deep_view(), cpu_count as nat),
                ),
                head: 0,
            }),
            r@.wf(),
    {
        let mut entries: Vec<LoadBalanceInfo> = Vec::new();
        let mut i: usize = 0;
        while i < n
            invariant
                i <= n,
                entries@.len() == i,
                forall|k: int|
                    0 <= k < i ==> (#[trigger] entries@[k])@ == fresh_record(
                        group_ptrs.deep_view(),
                        cpu_count as nat,
                    ),
                forall|k: int| 0 <= k < i ==> (#[trigger] entries@[k])@.wf(),
            decreases n - i,
        {
            let topo = copy_topology(group_ptrs);
            entries.push(LoadBalanceInfo::new(topo, cpu_count));
            i = i + 1;
        }
        let r = RingBuffer { age: 0, cpu, entries, head: 0 };
        proof {
            assert(r@.entries =~= Seq::new(
                n as nat,
                |i: int| fresh_record(group_ptrs.deep_view(), cpu_count as nat),
            ));
            assert(r@ =~= (RingBufferView {
                age: 0,
                cpu: cpu,
                entries: Seq::new(
                    n as nat,
                    |i: int| fresh_record(group_ptrs.deep_view(), cpu_count as nat),
                ),
                head: 0,
            }));
            assert(r@.wf());
        }
        r
    }

    /// Hand the next slot out: empty it, advance the cursor, and return a
    /// handle carrying the buffer's current epoch.
    pub fn open_meal_descriptor(&mut self) -> (md: MealDescriptor)
        requires
            old(self)@.wf(),
        ensures
            final(self)@ == old(self)@.opened(),
            md == old(self)@.opened_md(),
            final(self)@.wf(),
    {
        let idx = self.head;
        let age = self.age;
        if idx + 1 == self.entries.len() {
            self.head = 0;
        } else {
            self.head = idx + 1;
        }
        proof {
            assert(old(self)@.entries[idx as int].wf());
        }
        let rec = &mut self.entries[idx];
        rec.reset();
        let md = MealDescriptor { age: age, cpu_number: self.cpu, entry_idx: idx };
        proof {
            assert(self@ =~~= old(self)@.opened());
        }
        md
    }

    /// Empty every record, rewind the cursor, and step the epoch, killing
    /// every handle issued before this moment.
    pub fn reset(&mut self)
        requires
            old(self)@.wf(),
        ensures
            final(self)@ == old(self)@.resetted(),
            final(self)@.wf(),
    {
        let n = self.entries.len();
        let mut i: usize = 0;
        while i < n
            invariant
                i <= n,
                n == self.entries@.len(),
                n == old(self)@.entries.len(),
                old(self)@.wf(),
                self.age == old(self).age,
                self.cpu == old(self).cpu,
                forall|k: int|
                    i <= k < n ==> (#[trigger] self.entries@[k])@ == old(self)@.entries[k],
                forall|k: int|
                    0 <= k < i ==> (#[trigger] self.entries@[k])@ == old(
                        self,
                    )@.entries[k].resetted(),
            decreases n - i,
        {
            proof {
                assert(old(self)@.entries[i as int].wf());
            }
            let rec = &mut self.entries[i];
            rec.reset();
            i = i + 1;
        }
        self.head = 0;
        if self.age == usize::MAX {
            self.age = 0;
        } else {
            self.age = self.age + 1;
        }
        proof {
            assert(self@ =~~= old(self)@.resetted());
        }
    }
}

/// One processor's buffer together with its access guard.
#[derive(Debug, PartialEq, Eq)]
pub struct RingBufferLock {
    /// False: open for writing.  True: locked for draining.
    pub readonly: bool,
    /// The guarded buffer.
    pub info: RingBuffer,
}

/// The mathematical shape of a guarded buffer.
#[verifier::ext_equal]
pub ghost struct BufLockView {
    pub readonly: bool,
    pub info: RingBufferView,
}

impl View for RingBufferLock {
    type V = BufLockView;

    open spec fn view(&self) -> BufLockView {
        BufLockView { readonly: self.readonly, info: self.info@ }
    }
}

impl BufLockView {
    /// The guard starts writable; the buffer keeps its own invariant.
    pub open spec fn wf(self) -> bool {
        self.info.wf()
    }
}

impl RingBufferLock {
    /// A fresh guarded buffer, open for writing.
    pub fn new(n: usize, cpu: usize, group_ptrs: &Vec<Vec<GroupId>>, cpu_count: usize) -> (r:
        RingBufferLock)
        requires
            n >= 1,
        ensures
            r@ == (BufLockView {
                readonly: false,
                info: RingBufferView {
                    age: 0,
                    cpu: cpu,
                    entries: Seq::new(
                        n as nat,
                        |i: int| fresh_record(group_ptrs.deep_view(), cpu_count as nat),
                    ),
                    head: 0,
                },
            }),
            r@.wf(),
    {
        let r = RingBufferLock {
            readonly: false,
            info: RingBuffer::new(n, cpu, group_ptrs, cpu_count),
        };
        proof {
            assert(r@ =~~= (BufLockView {
                readonly: false,
                info: RingBufferView {
                    age: 0,
                    cpu: cpu,
                    entries: Seq::new(
                        n as nat,
                        |i: int| fresh_record(group_ptrs.deep_view(), cpu_count as nat),
                    ),
                    head: 0,
                },
            }));
        }
        r
    }

    /// Lock the buffer for draining.  Locking an already locked buffer is
    /// reported to the caller so the host can log it; the lock stays set.
    pub fn lock_readonly(&mut self) -> (was_readonly: bool)
        ensures
            final(self)@ == (BufLockView { readonly: true, ..old(self)@ }),
            was_readonly == old(self).readonly,
    {
        let was = self.readonly;
        self.readonly = true;
        was
    }

    /// Unlock and reset: empty every record, rewind the cursor, step the
    /// epoch, and open the buffer for writing again.  Resetting a buffer
    /// that was not locked is reported to the caller so the host can log it.
    pub fn reset(&mut self) -> (was_readonly: bool)
        requires
            old(self)@.wf(),
        ensures
            final(self)@ == (BufLockView { readonly: false, info: old(self)@.info.resetted() }),
            final(self)@.wf(),
            was_readonly == old(self).readonly,
    {
        self.info.reset();
        let was = self.readonly;
        self.readonly = false;
        was
    }
}

} // verus!
