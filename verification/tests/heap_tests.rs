use safa_api::heap::{Allocation, GlobalSystemAllocator, SystemAllocator};

#[test]
fn allocate_free_allocate_reuses_pointer() {
    // allocate 100 -> allocate 200 -> free the 100-byte block ->
    // allocate 100 again: the third pointer equals the first.
    let mut a = SystemAllocator::new();
    let first = a.allocate(100, 1).unwrap();
    let second = a.allocate(200, 1).unwrap();
    assert_ne!(first.ptr, second.ptr);
    a.deallocate(first.ptr);
    let third = a.allocate(100, 1).unwrap();
    assert_eq!(third.ptr, first.ptr);
    assert_eq!(third.len, first.len);
}

#[test]
fn exact_fit_reuses_block_without_growing() {
    let mut a = SystemAllocator::new();
    let x = a.allocate(64, 1).unwrap();
    // Keep a second allocation alive so the freed block does not merge
    // into the rest of the page.
    let keep = a.allocate(64, 1).unwrap();
    let grown = a.arena_len();
    a.deallocate(x.ptr);
    let y = a.allocate(64, 1).unwrap();
    assert_eq!(y.ptr, x.ptr);
    assert_eq!(a.arena_len(), grown, "exact fit must not ask the memory source again");
    a.deallocate(keep.ptr);
}

#[test]
fn coalescing_serves_combined_request_without_growing() {
    // Free two address-adjacent blocks, then ask for their combined
    // size: served from the merged block, without a new grant.
    for free_first_then_second in [true, false] {
        let mut a = SystemAllocator::new();
        let first = a.allocate(100, 1).unwrap(); // normalized to 128
        let second = a.allocate(200, 1).unwrap(); // normalized to 224
        let grown = a.arena_len();
        if free_first_then_second {
            a.deallocate(first.ptr);
            a.deallocate(second.ptr);
        } else {
            a.deallocate(second.ptr);
            a.deallocate(first.ptr);
        }
        // 128 + header (32) + 224 bytes of the merged span.
        let combined = a.allocate(128 + 32 + 224, 1).unwrap();
        assert_eq!(combined.ptr, first.ptr);
        assert_eq!(a.arena_len(), grown, "the merged block must serve the request");
    }
}

#[test]
fn alignment_is_honoured_up_to_page_size() {
    let mut a = SystemAllocator::new();
    let mut align = 1usize;
    while align <= 4096 {
        let r = a.allocate(50, align).unwrap();
        assert_eq!(r.ptr % align, 0, "alignment {} violated", align);
        align *= 2;
    }
}

#[test]
fn over_page_alignment_is_rejected() {
    let mut a = SystemAllocator::new();
    assert!(a.allocate(10, 8192).is_none());
    assert!(a.allocate(10, 4097).is_none());
    assert_eq!(a.arena_len(), 0);
}

#[test]
fn oversized_request_is_rejected() {
    let mut a = SystemAllocator::new();
    assert!(a.allocate(usize::MAX - 10, 1).is_none());
    assert!(a.allocate(usize::MAX / 2, 1).is_none());
    assert_eq!(a.arena_len(), 0);
}

#[test]
fn live_allocations_never_overlap() {
    let mut a = SystemAllocator::new();
    let mut live: Vec<Allocation> = Vec::new();
    for i in 0..8 {
        live.push(a.allocate(40 + 30 * i, 1 << (i % 5)).unwrap());
    }
    // Free some, allocate more, keeping a set of live regions.
    a.deallocate(live.remove(2).ptr);
    a.deallocate(live.remove(4).ptr);
    for i in 0..4 {
        live.push(a.allocate(100 + i, 1).unwrap());
    }
    for x in &live {
        for y in &live {
            if x.ptr != y.ptr {
                let disjoint = x.ptr + x.len <= y.ptr || y.ptr + y.len <= x.ptr;
                assert!(disjoint, "overlap between {:?} and {:?}", x, y);
            }
        }
    }
}

#[test]
fn round_trip_survives_unrelated_churn() {
    let mut a = SystemAllocator::new();
    let target = a.allocate(64, 1).unwrap();
    let pattern = [0xA5u8, 0x5A, 0x13, 0x37];
    for i in 0..target.len {
        a.write_byte(target.ptr + i, pattern[i % 4]);
    }
    // Unrelated churn: allocations, writes into them, frees, growth.
    let other = a.allocate(300, 64).unwrap();
    for i in 0..other.len {
        a.write_byte(other.ptr + i, 0xFF);
    }
    a.deallocate(other.ptr);
    let big = a.allocate(3 * 4096, 1).unwrap();
    for i in 0..16 {
        a.write_byte(big.ptr + i, 0x00);
    }
    a.deallocate(big.ptr);
    for i in 0..target.len {
        assert_eq!(a.read_byte(target.ptr + i), pattern[i % 4]);
    }
}

#[test]
fn fresh_requests_grow_the_arena_by_whole_pages() {
    let mut a = SystemAllocator::new();
    assert_eq!(a.arena_len(), 0);
    let _ = a.allocate(100, 1).unwrap();
    assert_eq!(a.arena_len(), 4096);
    let _ = a.allocate(2 * 4096, 1).unwrap();
    assert_eq!(a.arena_len() % 4096, 0);
}

#[test]
fn allocation_is_at_least_the_requested_size() {
    let mut a = SystemAllocator::new();
    for size in [1usize, 31, 32, 33, 100, 4095, 4096, 4097] {
        let r = a.allocate(size, 1).unwrap();
        assert!(r.len >= size);
        assert_eq!(r.len % 32, 0);
    }
}

#[test]
fn global_allocator_serves_and_reuses() {
    let mut g = GlobalSystemAllocator::new();
    let first = g.allocate(100, 1).unwrap();
    let _second = g.allocate(200, 1).unwrap();
    g.deallocate(first.ptr);
    let third = g.allocate(100, 1).unwrap();
    assert_eq!(third.ptr, first.ptr);
}

#[test]
fn liveness_check_tracks_allocations() {
    let mut g = GlobalSystemAllocator::new();
    assert!(!g.is_live(32));
    let a = g.allocate(48, 1).unwrap();
    let keep = g.allocate(48, 1).unwrap();
    assert!(g.is_live(a.ptr));
    assert!(!g.is_live(a.ptr + 1), "only the data offset itself names the allocation");
    g.deallocate(a.ptr);
    assert!(!g.is_live(a.ptr));
    assert!(g.is_live(keep.ptr));
}

#[test]
fn global_allocator_round_trip() {
    let mut g = GlobalSystemAllocator::new();
    let a = g.allocate(16, 8).unwrap();
    g.write_byte(a.ptr, 0x42);
    g.write_byte(a.ptr + 15, 0x24);
    let before = g.arena_len();
    let b = g.allocate(64, 1).unwrap();
    g.deallocate(b.ptr);
    assert_eq!(g.read_byte(a.ptr), 0x42);
    assert_eq!(g.read_byte(a.ptr + 15), 0x24);
    assert!(g.arena_len() >= before);
}
