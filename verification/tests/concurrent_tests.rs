/// Concurrent tests module
use swmr_cell::SwmrCell;

/// Test 3: Sequential writer operations
#[test]
fn test_sequential_writer_operations() {
    let mut cell = SwmrCell::new(1i32);
    let local = cell.local();

    cell.store(2);
    assert_eq!(*local.pin(), 2);

    cell.store(3);
    assert_eq!(*local.pin(), 3);

    cell.store(4);
    assert_eq!(*local.pin(), 4);
}

/// Test 4: Readers in different epochs (versions)
#[test]
fn test_readers_in_different_epochs() {
    let mut cell = SwmrCell::new(0i32);
    let reader1 = cell.local();
    let reader2 = cell.local();

    // local 1 pins version 0
    let guard1 = reader1.pin();
    assert_eq!(*guard1, 0);

    // Writer updates to version 1
    cell.store(10);

    // local 2 pins version 1
    let guard2 = reader2.pin();
    assert_eq!(*guard2, 10);

    // local 1 still sees version 0 (because it's pinned and Guard holds the ref)
    assert_eq!(*guard1, 0);
}

/// Test 5: Garbage collection trigger
#[test]
fn test_garbage_collection_trigger() {
    // Threshold 64
    let mut cell = SwmrCell::builder()
        .auto_reclaim_threshold(Some(64))
        .build(0i32);

    // Retire data until trigger
    for i in 0..70 {
        cell.store(i);
    }

    // Should have triggered auto-reclaim.
}

/// Test 6: Active local protects garbage
#[test]
fn test_active_reader_protects_garbage() {
    let mut cell = SwmrCell::new(0i32);
    let local = cell.local();

    // local pins
    let _guard = local.pin();

    // Retire data
    for i in 0..70 {
        cell.store(i);
    }

    // Garbage should be protected
    cell.collect();
}

/// Test 7: Garbage reclaimed after local drop
#[test]
fn test_garbage_reclaimed_after_reader_drop() {
    let mut cell = SwmrCell::new(0i32);
    
    {
        let local = cell.local();
        let _guard = local.pin();
        for i in 0..70 {
            cell.store(i);
        }
        // local dropped at end of scope
    }
    
    // Collect
    cell.collect();
}

/// Test 8: Multiple readers min epoch
#[test]
fn test_min_epoch_calculation_multiple_readers() {
    let mut cell = SwmrCell::new(0i32);
    let reader1 = cell.local();
    let reader2 = cell.local();

    // local 1 at v0
    let _guard1 = reader1.pin();

    cell.store(10); // v1

    // local 2 at v1
    let _guard2 = reader2.pin();

    cell.store(20); // v2

    cell.collect();
    // min active is 0 (from local 1).
}

/// Test 11: Interleaved read write
#[test]
fn test_interleaved_read_write_operations() {
    let mut cell = SwmrCell::new(0i32);
    let local = cell.local();

    for i in 0..10 {
        cell.store(i);
        assert_eq!(*local.pin(), i);
    }
}

