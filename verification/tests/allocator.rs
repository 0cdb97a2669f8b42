use leaktracer::allocator::with_symbol_table_mut;
use leaktracer::{
    init_symbol_table, with_symbol_table, AllocOp, LeaktracerAllocator, ReentrancyGuard,
    SharedTable, SymbolTable, TableError,
};

/// The labels of a table with their counters, in the order of the listing.
fn snapshot(shared: &SharedTable) -> Result<Vec<(String, usize, usize)>, TableError> {
    with_symbol_table(shared, |table| {
        table
            .iter()
            .into_iter()
            .map(|(name, symbol)| (name.to_string(), symbol.allocated(), symbol.count()))
            .collect()
    })
}

#[test]
fn test_should_tell_if_external_allocation() {
    let mut shared = SharedTable::new();
    init_symbol_table(&mut shared, &["leaktracer"]);

    let mut guard = ReentrancyGuard::new();
    let allocator = LeaktracerAllocator::init();
    assert!(allocator.is_external_allocation(&guard));

    guard.set();
    assert!(!allocator.is_external_allocation(&guard));

    guard.clear();
    assert!(allocator.is_external_allocation(&guard));
}

#[test]
fn test_should_trace_allocations() {
    let mut shared = SharedTable::new();
    init_symbol_table(&mut shared, &["leaktracer"]);

    let mut guard = ReentrancyGuard::new();
    let mut allocator = LeaktracerAllocator::init();
    allocator.trace(&mut guard, &mut shared, 1024, AllocOp::Alloc);
    assert_eq!(allocator.allocated(), 1024);
}

#[test]
fn test_should_trace_deallocations() {
    let mut shared = SharedTable::new();
    init_symbol_table(&mut shared, &["leaktracer"]);

    let mut guard = ReentrancyGuard::new();
    let mut allocator = LeaktracerAllocator::init();
    allocator.trace(&mut guard, &mut shared, 1024, AllocOp::Alloc);
    assert_eq!(allocator.allocated(), 1024);
    allocator.trace(&mut guard, &mut shared, 1024, AllocOp::Dealloc);
    assert_eq!(allocator.allocated(), 0);
}

#[test]
fn new_allocator_has_nothing_allocated() {
    assert_eq!(LeaktracerAllocator::init().allocated(), 0);
}

#[test]
fn guard_starts_clear_and_follows_set_and_clear() {
    let mut guard = ReentrancyGuard::new();
    assert!(!guard.is_set());
    guard.set();
    assert!(guard.is_set());
    guard.set();
    assert!(guard.is_set());
    guard.clear();
    assert!(!guard.is_set());
}

#[test]
fn enter_and_exit_move_the_guard() {
    let allocator = LeaktracerAllocator::init();
    let mut guard = ReentrancyGuard::new();
    allocator.enter_alloc(&mut guard);
    assert!(guard.is_set());
    assert!(!allocator.is_external_allocation(&guard));
    allocator.exit_alloc(&mut guard);
    assert!(!guard.is_set());
}

#[test]
fn reading_before_initialization_is_an_error() {
    let shared = SharedTable::new();
    assert_eq!(snapshot(&shared), Err(TableError::Uninitialized));
}

#[test]
fn reading_an_initialized_table_without_entries_lists_nothing() {
    let mut shared = SharedTable::new();
    init_symbol_table(&mut shared, &["probe"]);
    assert_eq!(snapshot(&shared), Ok(vec![]));
}

#[test]
fn reading_behind_a_broken_lock_is_an_error() {
    let shared = SharedTable::Poisoned;
    assert_eq!(snapshot(&shared), Err(TableError::LockUnavailable));
}

#[test]
fn first_initialization_wins() {
    let mut table = SymbolTable::new(4, &["first"]);
    table.credit_label("first::site", 7);
    let mut shared = SharedTable::Ready(table);
    init_symbol_table(&mut shared, &["second"]);
    assert_eq!(snapshot(&shared), Ok(vec![("first::site".to_string(), 7, 1)]));
}

#[test]
fn initialization_leaves_a_broken_lock_broken() {
    let mut shared = SharedTable::Poisoned;
    init_symbol_table(&mut shared, &["probe"]);
    assert!(matches!(shared, SharedTable::Poisoned));
}

#[test]
fn tracing_before_initialization_counts_in_aggregate_only() {
    let mut shared = SharedTable::new();
    let mut guard = ReentrancyGuard::new();
    let mut allocator = LeaktracerAllocator::init();
    allocator.trace(&mut guard, &mut shared, 300, AllocOp::Alloc);
    assert_eq!(allocator.allocated(), 300);
    assert!(!guard.is_set());
    assert!(matches!(shared, SharedTable::Uninitialized));
}

#[test]
fn tracing_behind_a_broken_lock_counts_in_aggregate_only() {
    let mut shared = SharedTable::Poisoned;
    let mut guard = ReentrancyGuard::new();
    let mut allocator = LeaktracerAllocator::init();
    allocator.trace(&mut guard, &mut shared, 300, AllocOp::Alloc);
    assert_eq!(allocator.allocated(), 300);
    assert!(!guard.is_set());
    assert!(matches!(shared, SharedTable::Poisoned));
}

#[test]
fn trace_leaves_the_guard_clear() {
    let mut shared = SharedTable::new();
    init_symbol_table(&mut shared, &["probe"]);
    let mut guard = ReentrancyGuard::new();
    guard.set();
    let mut allocator = LeaktracerAllocator::init();
    allocator.trace(&mut guard, &mut shared, 1, AllocOp::Alloc);
    assert!(!guard.is_set());
}

#[test]
fn table_access_without_a_table_leaves_the_guard_as_it_is() {
    let mut shared = SharedTable::new();
    let mut guard = ReentrancyGuard::new();
    guard.set();
    with_symbol_table_mut(&mut guard, &mut shared, AllocOp::Alloc, 5);
    assert!(guard.is_set());
    guard.clear();
    with_symbol_table_mut(&mut guard, &mut shared, AllocOp::Alloc, 5);
    assert!(!guard.is_set());
    assert!(matches!(shared, SharedTable::Uninitialized));
}

#[test]
fn table_access_behind_a_broken_lock_clears_the_guard() {
    let mut shared = SharedTable::Poisoned;
    let mut guard = ReentrancyGuard::new();
    guard.set();
    with_symbol_table_mut(&mut guard, &mut shared, AllocOp::Dealloc, 5);
    assert!(!guard.is_set());
}

#[test]
fn table_access_books_under_one_label() {
    let mut shared = SharedTable::new();
    init_symbol_table(&mut shared, &["no_such_module"]);
    let mut guard = ReentrancyGuard::new();
    with_symbol_table_mut(&mut guard, &mut shared, AllocOp::Alloc, 5);
    with_symbol_table_mut(&mut guard, &mut shared, AllocOp::Alloc, 6);
    with_symbol_table_mut(&mut guard, &mut shared, AllocOp::Dealloc, 5);
    assert!(!guard.is_set());
    assert_eq!(snapshot(&shared), Ok(vec![("<unknown>".to_string(), 6, 1)]));
}

#[test]
fn guarded_allocation_changes_nothing() {
    let mut shared = SharedTable::new();
    init_symbol_table(&mut shared, &["no_such_module"]);
    let mut guard = ReentrancyGuard::new();
    let mut allocator = LeaktracerAllocator::init();
    allocator.allocate(&mut guard, &mut shared, false, 64);
    let before = snapshot(&shared);
    assert_eq!(before, Ok(vec![("<unknown>".to_string(), 64, 1)]));

    guard.set();
    allocator.allocate(&mut guard, &mut shared, false, 4096);
    allocator.dealloc(&mut guard, &mut shared, false, 64);
    assert!(guard.is_set());
    assert_eq!(allocator.allocated(), 64);
    assert_eq!(snapshot(&shared), before);
}

#[test]
fn failed_allocation_changes_nothing() {
    let mut shared = SharedTable::new();
    init_symbol_table(&mut shared, &["no_such_module"]);
    let mut guard = ReentrancyGuard::new();
    let mut allocator = LeaktracerAllocator::init();
    allocator.allocate(&mut guard, &mut shared, true, 4096);
    allocator.dealloc(&mut guard, &mut shared, true, 4096);
    assert_eq!(allocator.allocated(), 0);
    assert!(!guard.is_set());
    assert_eq!(snapshot(&shared), Ok(vec![]));
}

#[test]
fn observed_allocation_is_counted_and_attributed() {
    let mut shared = SharedTable::new();
    init_symbol_table(&mut shared, &["no_such_module"]);
    let mut guard = ReentrancyGuard::new();
    let mut allocator = LeaktracerAllocator::init();
    allocator.allocate(&mut guard, &mut shared, false, 100);
    allocator.allocate(&mut guard, &mut shared, false, 50);
    assert_eq!(allocator.allocated(), 150);
    assert!(!guard.is_set());
    assert_eq!(snapshot(&shared), Ok(vec![("<unknown>".to_string(), 150, 2)]));

    allocator.dealloc(&mut guard, &mut shared, false, 100);
    allocator.dealloc(&mut guard, &mut shared, false, 50);
    assert_eq!(allocator.allocated(), 0);
    assert_eq!(snapshot(&shared), Ok(vec![("<unknown>".to_string(), 0, 0)]));
}

#[test]
fn total_is_allocated_minus_deallocated() {
    let mut shared = SharedTable::new();
    let mut guard = ReentrancyGuard::new();
    let mut allocator = LeaktracerAllocator::init();
    let sizes: [usize; 5] = [1, 1024, 17, 4096, 300];
    for size in sizes {
        allocator.allocate(&mut guard, &mut shared, false, size);
    }
    assert_eq!(allocator.allocated(), 5438);
    allocator.dealloc(&mut guard, &mut shared, false, 1024);
    allocator.dealloc(&mut guard, &mut shared, false, 17);
    assert_eq!(allocator.allocated(), 4397);
    allocator.dealloc(&mut guard, &mut shared, false, 300);
    allocator.dealloc(&mut guard, &mut shared, false, 1);
    allocator.dealloc(&mut guard, &mut shared, false, 4096);
    assert_eq!(allocator.allocated(), 0);
    assert!(!allocator.underflowed());
}

#[test]
fn release_of_more_than_is_held_is_a_recorded_fault() {
    let mut shared = SharedTable::new();
    let mut guard = ReentrancyGuard::new();
    let mut allocator = LeaktracerAllocator::init();
    assert!(!allocator.underflowed());
    allocator.trace(&mut guard, &mut shared, 10, AllocOp::Dealloc);
    assert_eq!(allocator.allocated(), 0);
    assert!(allocator.underflowed());
}

#[test]
fn release_of_one_byte_too_many_is_a_recorded_fault() {
    let mut shared = SharedTable::new();
    let mut guard = ReentrancyGuard::new();
    let mut allocator = LeaktracerAllocator::init();
    allocator.trace(&mut guard, &mut shared, 1024, AllocOp::Alloc);
    allocator.trace(&mut guard, &mut shared, 1025, AllocOp::Dealloc);
    assert_eq!(allocator.allocated(), 0);
    assert!(allocator.underflowed());
}

#[test]
fn release_of_all_that_is_held_is_no_fault() {
    let mut shared = SharedTable::new();
    let mut guard = ReentrancyGuard::new();
    let mut allocator = LeaktracerAllocator::init();
    allocator.trace(&mut guard, &mut shared, 1024, AllocOp::Alloc);
    allocator.trace(&mut guard, &mut shared, 1000, AllocOp::Dealloc);
    assert_eq!(allocator.allocated(), 24);
    allocator.trace(&mut guard, &mut shared, 24, AllocOp::Dealloc);
    assert_eq!(allocator.allocated(), 0);
    allocator.trace(&mut guard, &mut shared, 0, AllocOp::Dealloc);
    assert_eq!(allocator.allocated(), 0);
    assert!(!allocator.underflowed());
}

#[test]
fn recorded_fault_stays_and_counting_goes_on_from_zero() {
    let mut shared = SharedTable::new();
    let mut guard = ReentrancyGuard::new();
    let mut allocator = LeaktracerAllocator::init();
    allocator.trace(&mut guard, &mut shared, 5, AllocOp::Alloc);
    allocator.trace(&mut guard, &mut shared, 6, AllocOp::Dealloc);
    assert!(allocator.underflowed());
    allocator.trace(&mut guard, &mut shared, 300, AllocOp::Alloc);
    allocator.trace(&mut guard, &mut shared, 100, AllocOp::Dealloc);
    assert_eq!(allocator.allocated(), 200);
    assert!(allocator.underflowed());
}

#[test]
fn guarded_or_failed_release_records_no_fault() {
    let mut shared = SharedTable::new();
    let mut guard = ReentrancyGuard::new();
    let mut allocator = LeaktracerAllocator::init();
    allocator.dealloc(&mut guard, &mut shared, true, 64);
    guard.set();
    allocator.dealloc(&mut guard, &mut shared, false, 64);
    assert_eq!(allocator.allocated(), 0);
    assert!(!allocator.underflowed());
    guard.clear();
    allocator.dealloc(&mut guard, &mut shared, false, 64);
    assert!(allocator.underflowed());
}

#[test]
fn total_wraps_past_the_largest_value() {
    let mut shared = SharedTable::new();
    let mut guard = ReentrancyGuard::new();
    let mut allocator = LeaktracerAllocator::init();
    allocator.trace_allocation(&mut guard, &mut shared, usize::MAX);
    allocator.trace_allocation(&mut guard, &mut shared, 3);
    assert_eq!(allocator.allocated(), 2);
    assert!(!allocator.underflowed());
    allocator.trace_deallocation(&mut guard, &mut shared, 3);
    assert_eq!(allocator.allocated(), 0);
    assert!(allocator.underflowed());
}

#[test]
fn many_rounds_of_a_fixed_size_end_at_zero() {
    let mut shared = SharedTable::new();
    init_symbol_table(&mut shared, &["no_such_module"]);
    let mut guard = ReentrancyGuard::new();
    let mut allocator = LeaktracerAllocator::init();
    for _ in 0..50 {
        allocator.allocate(&mut guard, &mut shared, false, 48);
    }
    assert_eq!(allocator.allocated(), 2400);
    for _ in 0..50 {
        allocator.dealloc(&mut guard, &mut shared, false, 48);
    }
    assert_eq!(allocator.allocated(), 0);
    assert_eq!(snapshot(&shared), Ok(vec![("<unknown>".to_string(), 0, 0)]));
}
