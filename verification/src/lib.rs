//! # Leaktracer
//!
//! Attribution of heap allocations to the call sites that asked for them.
//!
//! The crate holds the bookkeeping of an allocator that traces what it hands
//! out: the aggregate counter of live bytes, the reentrancy guard that keeps
//! the tracer from counting its own allocations, the symbol table with the
//! live bytes and allocation count of each call site, and the rule that picks
//! the call site from the names of the frames of a call stack.
//!
//! The state is held in plain values that the caller owns and hands to each
//! operation: a [`LeaktracerAllocator`], the [`ReentrancyGuard`] of the
//! calling thread and the [`SharedTable`]. A global allocator built on the
//! crate keeps them in a place of its own and calls
//! [`LeaktracerAllocator::allocate`] and [`LeaktracerAllocator::dealloc`]
//! around the system allocator.

pub mod allocator;
pub mod counter;
pub mod symbols;

pub use self::allocator::{
    init_symbol_table, with_symbol_table, AllocOp, LeaktracerAllocator, ReentrancyGuard,
    SharedTable, TableError,
};
pub use self::symbols::{Symbol, SymbolTable};
