//! The bookkeeping behind an allocator that traces what it hands out.
//!
//! The state of the tracer is held in three values that the caller owns: the
//! [`LeaktracerAllocator`] with the aggregate counter of live bytes, the
//! [`ReentrancyGuard`] of the calling thread, and the [`SharedTable`] with the
//! symbol table once it has been initialized. Every operation takes the parts
//! that it reads or changes, and says in its contract what becomes of each.

use crate::counter::{credited, lemma_wrapped_exact, lemma_wrapped_fits, wrapped};
use crate::symbols::demangle::{attribution, str_views, FrameNames};
use crate::symbols::{after_alloc, after_dealloc, Contents, Counters, SymbolTable};
use vstd::prelude::*;

verus! {

/// Initial size of the symbol table.
/// This is used to preallocate the symbol table to avoid reallocations.
pub const DEFAULT_SYMBOL_TABLE_SIZE: usize = 1024;

/// An enumeration representing the type of allocation operation being traced.
#[derive(Debug, Clone, Copy, PartialEq, Eq)]
pub enum AllocOp {
    Alloc,
    Dealloc,
}

/// Why the symbol table could not be read.
#[derive(Debug, Clone, Copy, PartialEq, Eq)]
pub enum TableError {
    /// The table has not been initialized yet.
    Uninitialized,
    /// The lock of the table was left broken by a thread that panicked while
    /// it held the lock.
    LockUnavailable,
}

/// The flag of one thread that tells the allocations which the program asks
/// for from those that the tracer makes itself while it keeps its books.
#[derive(Debug, Clone, Copy)]
pub struct ReentrancyGuard {
    set: bool,
}

impl View for ReentrancyGuard {
    type V = bool;

    closed spec fn view(&self) -> bool {
        self.set
    }
}

impl ReentrancyGuard {
    /// A guard that is clear.
    pub fn new() -> (guard: Self)
        ensures
            !guard@,
    {
        ReentrancyGuard { set: false }
    }

    /// Whether the thread is inside the tracer's own bookkeeping.
    pub fn is_set(&self) -> (set: bool)
        ensures
            set == self@,
    {
        self.set
    }

    /// Marks that the thread enters the tracer's own bookkeeping.
    pub fn set(&mut self)
        ensures
            final(self)@,
    {
        self.set = true;
    }

    /// Marks that the thread has left the tracer's own bookkeeping.
    pub fn clear(&mut self)
        ensures
            !final(self)@,
    {
        self.set = false;
    }
}

/// The place of the process-wide symbol table: empty until the table is
/// initialized, and out of reach once its lock is broken.
#[derive(Debug)]
pub enum SharedTable {
    /// No table has been made yet.
    Uninitialized,
    /// The table, ready to be read and updated.
    Ready(SymbolTable),
    /// The lock of the table is broken: the table can no longer be reached.
    Poisoned,
}

impl SharedTable {
    /// The table, when there is one, is well formed.
    pub open spec fn wf(&self) -> bool {
        self matches SharedTable::Ready(table) ==> table.wf()
    }

    /// A place that holds no table yet.
    pub fn new() -> (shared: Self)
        ensures
            shared is Uninitialized,
            shared.wf(),
    {
        SharedTable::Uninitialized
    }
}

/// Initializes the leak tracer with a symbol table of the given size.
///
/// Provide the modules to be traced as a slice of static strings.
/// Providing modules is necessary to filter out allocations that are not
/// relevant to the user. The first call makes the table; a later call leaves
/// everything as it is.
pub fn init_symbol_table(shared: &mut SharedTable, modules: &'static [&'static str])
    requires
        old(shared).wf(),
    ensures
        final(shared).wf(),
        match *old(shared) {
            SharedTable::Uninitialized => {
                &&& *final(shared) matches SharedTable::Ready(table)
                &&& table@ == Map::<Seq<char>, Counters>::empty()
                &&& table.modules() == str_views(modules@)
            },
            _ => *final(shared) == *old(shared),
        },
{
    if let SharedTable::Uninitialized = shared {
        *shared = SharedTable::Ready(SymbolTable::new(DEFAULT_SYMBOL_TABLE_SIZE, modules));
    }
}

/// Provides a way to read the symbol table.
///
/// Takes a closure `f` that receives a reference to the symbol table and
/// returns a result. Where the place holds no table yet, or stands for a
/// table behind a broken lock, `f` is not called and the error says which of
/// the two it was.
pub fn with_symbol_table<F, R>(shared: &SharedTable, f: F) -> (result: Result<R, TableError>) where
    F: FnOnce(&SymbolTable) -> R,

    requires
        shared.wf(),
        shared matches SharedTable::Ready(table) ==> f.requires((&table,)),
    ensures
        match *shared {
            SharedTable::Uninitialized => result == Err::<R, TableError>(TableError::Uninitialized),
            SharedTable::Ready(table) => result matches Ok(value) && f.ensures((&table,), value),
            SharedTable::Poisoned => result == Err::<R, TableError>(TableError::LockUnavailable),
        },
{
    match shared {
        SharedTable::Uninitialized => Err(TableError::Uninitialized),
        SharedTable::Ready(table) => Ok(f(table)),
        SharedTable::Poisoned => Err(TableError::LockUnavailable),
    }
}

/// The contents of a table after `op` on `bytes` attributed to `label`.
pub open spec fn after_op(contents: Contents, op: AllocOp, label: Seq<char>, bytes: nat) -> Contents {
    match op {
        AllocOp::Alloc => after_alloc(contents, label, bytes),
        AllocOp::Dealloc => after_dealloc(contents, label, bytes),
    }
}

/// What the allocator holds, as numbers.
pub struct Aggregate {
    /// The bytes that the program holds at the moment.
    pub allocated: nat,
    /// Whether a release ever asked for more bytes than were held.
    pub underflowed: bool,
}

/// The aggregate of an allocator that has seen nothing yet.
pub open spec fn zero_aggregate() -> Aggregate {
    Aggregate { allocated: 0, underflowed: false }
}

/// The aggregate after `op` on `bytes`.
///
/// An allocation adds its bytes, modulo the number of values that the
/// counter can take. A release takes its bytes away when that many are held.
/// A release of more than is held is a fault: the counter goes to zero
/// rather than below it, and the fault is recorded for good.
pub open spec fn aggregate_after(before: Aggregate, op: AllocOp, bytes: nat) -> Aggregate {
    match op {
        AllocOp::Alloc => Aggregate {
            allocated: wrapped(before.allocated as int + bytes),
            underflowed: before.underflowed,
        },
        AllocOp::Dealloc => if bytes <= before.allocated {
            Aggregate {
                allocated: (before.allocated - bytes) as nat,
                underflowed: before.underflowed,
            }
        } else {
            Aggregate { allocated: 0, underflowed: true }
        },
    }
}

/// Provides a way to change the symbol table: books `op` on `bytes` in the
/// table, under the label of the calling thread's stack.
///
/// Without a table nothing happens at all, as allocations are made before
/// the program has had a chance to initialize it. Otherwise the guard is set
/// while the table is worked on, and is clear afterwards, also when the
/// place stands for a table behind a broken lock and nothing is booked.
pub fn with_symbol_table_mut(
    guard: &mut ReentrancyGuard,
    shared: &mut SharedTable,
    op: AllocOp,
    bytes: usize,
)
    requires
        old(shared).wf(),
    ensures
        final(shared).wf(),
        match *old(shared) {
            SharedTable::Uninitialized => {
                &&& *final(shared) == *old(shared)
                &&& final(guard)@ == old(guard)@
            },
            SharedTable::Ready(before) => {
                &&& !final(guard)@
                &&& *final(shared) matches SharedTable::Ready(after)
                &&& after.modules() == before.modules()
                &&& exists|frames: FrameNames|
                    after@ == after_op(
                        before@,
                        op,
                        attribution(frames, before.modules()),
                        bytes as nat,
                    )
            },
            SharedTable::Poisoned => {
                &&& *final(shared) == *old(shared)
                &&& !final(guard)@
            },
        },
{
    match shared {
        SharedTable::Uninitialized => {},
        SharedTable::Ready(table) => {
            // what is allocated from here on is the tracer's own
            guard.set();
            match op {
                AllocOp::Alloc => table.allocate(bytes),
                AllocOp::Dealloc => table.dealloc(bytes),
            }
            guard.clear();
        },
        SharedTable::Poisoned => {
            guard.set();
            guard.clear();
        },
    }
}

/// The aggregate counter of an allocator that traces what it hands out: the
/// bytes that the program holds at the moment, over all call sites, and the
/// record of a release that the counter did not cover.
#[derive(Debug)]
pub struct LeaktracerAllocator {
    allocated: usize,
    underflowed: bool,
}

impl View for LeaktracerAllocator {
    type V = Aggregate;

    closed spec fn view(&self) -> Aggregate {
        Aggregate { allocated: self.allocated as nat, underflowed: self.underflowed }
    }
}

/// What tracing `op` on `bytes` leaves behind in the table's place.
pub open spec fn traced(before: SharedTable, after: SharedTable, op: AllocOp, bytes: nat) -> bool {
    match before {
        SharedTable::Ready(table) => {
            &&& after matches SharedTable::Ready(updated)
            &&& updated.modules() == table.modules()
            &&& exists|frames: FrameNames|
                updated@ == after_op(table@, op, attribution(frames, table.modules()), bytes)
        },
        _ => after == before,
    }
}

impl LeaktracerAllocator {
    /// Creates a new instance of the [`LeaktracerAllocator`].
    pub fn init() -> (allocator: Self)
        ensures
            allocator@ == zero_aggregate(),
    {
        LeaktracerAllocator { allocated: 0, underflowed: false }
    }

    /// Returns the total number of bytes allocated by the allocator up to this point.
    pub fn allocated(&self) -> (total: usize)
        ensures
            total == self@.allocated,
    {
        self.allocated
    }

    /// Returns whether a release was ever traced that asked for more bytes
    /// than the allocator held. From then on the total is no longer the
    /// sum of what was allocated less what was released.
    pub fn underflowed(&self) -> (fault: bool)
        ensures
            fault == self@.underflowed,
    {
        self.underflowed
    }

    /// Returns whether the allocation is an external allocation.
    ///
    /// With **external allocation**, we mean that the allocation is not
    /// requested by the allocator itself, but rather by the user of the
    /// allocator: the guard of the thread is clear.
    pub fn is_external_allocation(&self, guard: &ReentrancyGuard) -> (external: bool)
        ensures
            external == !guard@,
    {
        !guard.is_set()
    }

    /// Enters the allocation context, marking that an allocation is being made.
    pub fn enter_alloc(&self, guard: &mut ReentrancyGuard)
        ensures
            final(guard)@,
    {
        guard.set();
    }

    /// Exits the allocation context, marking that the allocation is done.
    pub fn exit_alloc(&self, guard: &mut ReentrancyGuard)
        ensures
            !final(guard)@,
    {
        guard.clear();
    }

    /// Traces the allocation of `size` bytes: adds them to the aggregate
    /// counter and books them in the table.
    pub fn trace_allocation(
        &mut self,
        guard: &mut ReentrancyGuard,
        shared: &mut SharedTable,
        size: usize,
    )
        requires
            old(shared).wf(),
        ensures
            final(shared).wf(),
            final(self)@ == aggregate_after(old(self)@, AllocOp::Alloc, size as nat),
            traced(*old(shared), *final(shared), AllocOp::Alloc, size as nat),
            final(guard)@ == (old(guard)@ && *old(shared) is Uninitialized),
    {
        // first increment the allocated bytes
        self.allocated = credited(self.allocated, size);
        with_symbol_table_mut(guard, shared, AllocOp::Alloc, size);
    }

    /// Traces the deallocation of `size` bytes: takes them from the
    /// aggregate counter and books them in the table. Where the counter
    /// holds fewer bytes than `size`, it goes to zero and the fault is
    /// recorded.
    pub fn trace_deallocation(
        &mut self,
        guard: &mut ReentrancyGuard,
        shared: &mut SharedTable,
        size: usize,
    )
        requires
            old(shared).wf(),
        ensures
            final(shared).wf(),
            final(self)@ == aggregate_after(old(self)@, AllocOp::Dealloc, size as nat),
            traced(*old(shared), *final(shared), AllocOp::Dealloc, size as nat),
            final(guard)@ == (old(guard)@ && *old(shared) is Uninitialized),
    {
        // first decrement the allocated bytes
        if size <= self.allocated {
            self.allocated = self.allocated - size;
        } else {
            self.allocated = 0;
            self.underflowed = true;
        }
        with_symbol_table_mut(guard, shared, AllocOp::Dealloc, size);
    }

    /// Traces the allocation or deallocation operation on `size` bytes,
    /// depending on the [`AllocOp`] type, with the guard set meanwhile. The
    /// guard is clear afterwards.
    pub fn trace(
        &mut self,
        guard: &mut ReentrancyGuard,
        shared: &mut SharedTable,
        size: usize,
        op: AllocOp,
    )
        requires
            old(shared).wf(),
        ensures
            final(shared).wf(),
            final(self)@ == aggregate_after(old(self)@, op, size as nat),
            traced(*old(shared), *final(shared), op, size as nat),
            !final(guard)@,
    {
        self.enter_alloc(guard);
        match op {
            AllocOp::Alloc => self.trace_allocation(guard, shared, size),
            AllocOp::Dealloc => self.trace_deallocation(guard, shared, size),
        }
        self.exit_alloc(guard);
    }

    /// What the allocator does about a block of `size` bytes that the
    /// system allocator has been asked for: the request is traced when the
    /// block was handed out (`null` is false) and the thread's guard is clear.
    /// A request that failed, or one that the tracer's own bookkeeping made,
    /// changes nothing.
    pub fn allocate(
        &mut self,
        guard: &mut ReentrancyGuard,
        shared: &mut SharedTable,
        null: bool,
        size: usize,
    )
        requires
            old(shared).wf(),
        ensures
            final(shared).wf(),
            final(guard)@ == old(guard)@,
            if !null && !old(guard)@ {
                &&& final(self)@ == aggregate_after(old(self)@, AllocOp::Alloc, size as nat)
                &&& traced(*old(shared), *final(shared), AllocOp::Alloc, size as nat)
            } else {
                &&& final(self)@ == old(self)@
                &&& *final(shared) == *old(shared)
            },
    {
        // if the allocation is not null AND the allocation is external, trace the allocation
        if !null && self.is_external_allocation(guard) {
            self.trace(guard, shared, size, AllocOp::Alloc);
        }
    }

    /// What the allocator does about a block of `size` bytes that is about
    /// to be given back to the system allocator: the release is traced when
    /// there is a block (`null` is false) and the thread's guard is clear.
    pub fn dealloc(
        &mut self,
        guard: &mut ReentrancyGuard,
        shared: &mut SharedTable,
        null: bool,
        size: usize,
    )
        requires
            old(shared).wf(),
        ensures
            final(shared).wf(),
            final(guard)@ == old(guard)@,
            if !null && !old(guard)@ {
                &&& final(self)@ == aggregate_after(old(self)@, AllocOp::Dealloc, size as nat)
                &&& traced(*old(shared), *final(shared), AllocOp::Dealloc, size as nat)
            } else {
                &&& final(self)@ == old(self)@
                &&& *final(shared) == *old(shared)
            },
    {
        if !null && self.is_external_allocation(guard) {
            self.trace(guard, shared, size, AllocOp::Dealloc);
        }
    }
}

/// One traced request: what was done, and on how many bytes.
pub type Event = (AllocOp, nat);

/// What a run of requests adds to the live bytes, as an exact number: the
/// bytes that were allocated less the bytes that were given back.
pub open spec fn net_bytes(events: Seq<Event>) -> int
    decreases events.len(),
{
    if events.len() == 0 {
        0
    } else {
        let done = net_bytes(events.drop_last());
        match events.last().0 {
            AllocOp::Alloc => done + events.last().1,
            AllocOp::Dealloc => done - events.last().1,
        }
    }
}

/// At every point of the run the live bytes are a number that the counter
/// can hold: no release asks for more than is held, and no allocation takes
/// the sum past the largest value.
pub open spec fn covered(events: Seq<Event>) -> bool
    decreases events.len(),
{
    events.len() > 0 ==> covered(events.drop_last()) && 0 <= net_bytes(events) <= usize::MAX
}

/// The aggregate after a run of traced requests, one after the other.
pub open spec fn aggregate_after_all(start: Aggregate, events: Seq<Event>) -> Aggregate
    decreases events.len(),
{
    if events.len() == 0 {
        start
    } else {
        aggregate_after(
            aggregate_after_all(start, events.drop_last()),
            events.last().0,
            events.last().1,
        )
    }
}

/// Started from zero, the total after a run of traced requests is the sum of
/// the sizes allocated less the sum of the sizes given back, and no fault is
/// recorded, as long as every release was covered by what was held.
pub proof fn law_total_is_sum_of_requests(events: Seq<Event>)
    requires
        covered(events),
    ensures
        aggregate_after_all(zero_aggregate(), events) == (Aggregate {
            allocated: net_bytes(events) as nat,
            underflowed: false,
        }),
    decreases events.len(),
{
    if events.len() > 0 {
        let earlier = events.drop_last();
        law_total_is_sum_of_requests(earlier);
        assert(0 <= net_bytes(earlier) <= usize::MAX) by {
            if earlier.len() == 0 {
                assert(net_bytes(earlier) == 0);
            }
        }
        lemma_wrapped_exact(net_bytes(events));
    }
}

/// A release of more bytes than are held leaves the total at zero and
/// records the fault; it never leaves a wrapped number behind.
pub proof fn law_uncovered_release_is_recorded(before: Aggregate, bytes: nat)
    requires
        bytes > before.allocated,
    ensures
        aggregate_after(before, AllocOp::Dealloc, bytes) == (Aggregate {
            allocated: 0,
            underflowed: true,
        }),
{
}

/// A fault that was recorded stays recorded, whatever is traced afterwards,
/// and the total stays a number that the counter can hold.
pub proof fn law_fault_stays_recorded(start: Aggregate, events: Seq<Event>)
    requires
        start.allocated <= usize::MAX,
    ensures
        start.underflowed ==> aggregate_after_all(start, events).underflowed,
        aggregate_after_all(start, events).allocated <= usize::MAX,
    decreases events.len(),
{
    if events.len() > 0 {
        law_fault_stays_recorded(start, events.drop_last());
        let so_far = aggregate_after_all(start, events.drop_last());
        lemma_wrapped_fits(so_far.allocated as int + events.last().1);
    }
}

} // verus!
