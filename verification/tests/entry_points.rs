use std::cell::{Cell, RefCell};

use wasm_alloc::allocator::WasmAllocator;
use wasm_alloc::host::{BLOCK_ALIGN, SENTINEL};
use wasm_alloc::{add, foo, DEMO_BYTE, DEMO_OFFSET, DEMO_SIZE};

#[test]
fn add_small_numbers() {
    assert_eq!(add(0, 0), 0);
    assert_eq!(add(1, 2), 3);
    assert_eq!(add(2, 1), 3);
    assert_eq!(add(100, 27), 127);
}

#[test]
fn add_beyond_a_byte() {
    assert_eq!(add(255, 1), 256);
    assert_eq!(add(128, 128), 256);
    assert_eq!(add(200, 100), 300);
}

#[test]
fn add_largest_bytes() {
    assert_eq!(add(255, 255), 510);
    assert_eq!(add(255, 0), 255);
    assert_eq!(add(0, 255), 255);
}

#[test]
fn add_is_the_sum_for_every_pair_of_bytes() {
    for a in 0..=255u8 {
        for b in 0..=255u8 {
            let sum = add(a, b);
            assert_eq!(sum as i32, a as i32 + b as i32);
            // The sum modulo 2^16, read as a signed sixteen-bit number.
            assert_eq!(sum, ((a as u32 + b as u32) % 65536) as u16 as i16);
            assert!(sum >= 0);
        }
    }
}

#[test]
fn demo_values() {
    assert_eq!(DEMO_SIZE, 5);
    assert_eq!(DEMO_OFFSET, 3);
    assert_eq!(DEMO_BYTE, 42);
    assert_eq!(SENTINEL, 0);
    assert_eq!(BLOCK_ALIGN, 32);
}

#[test]
fn foo_asks_for_five_bytes_and_writes_the_fourth() {
    let allocator = WasmAllocator::new();
    let asked = Cell::new(usize::MAX);
    let stored: RefCell<Vec<(usize, u8)>> = RefCell::new(Vec::new());
    foo(
        &allocator,
        |size| {
            asked.set(size);
            0x2000
        },
        |addr, byte| stored.borrow_mut().push((addr, byte)),
    );
    assert_eq!(asked.get(), 5);
    assert_eq!(*stored.borrow(), vec![(0x2003, 42)]);
}

#[test]
fn foo_writes_into_the_block_it_got() {
    let allocator = WasmAllocator::new();
    let base = 0x8000usize;
    let memory: RefCell<Vec<u8>> = RefCell::new(vec![0; 64]);
    let used = Cell::new(0usize);
    foo(
        &allocator,
        |size| {
            let start = used.get();
            used.set(start + size);
            base + start
        },
        |addr, byte| memory.borrow_mut()[addr - base] = byte,
    );
    let memory = memory.borrow();
    assert_eq!(memory[3], 42);
    assert_eq!(memory.iter().filter(|b| **b != 0).count(), 1);
    assert_eq!(used.get(), 5);
}

#[test]
fn foo_on_a_host_without_memory_writes_past_the_sentinel() {
    let allocator = WasmAllocator::new();
    let stored: RefCell<Vec<(usize, u8)>> = RefCell::new(Vec::new());
    foo(&allocator, |_size| SENTINEL, |addr, byte| stored.borrow_mut().push((addr, byte)));
    assert_eq!(*stored.borrow(), vec![(SENTINEL + 3, 42)]);
}

#[test]
fn foo_again_and_again_until_the_host_runs_out() {
    let allocator = WasmAllocator::new();
    let base = 0x8000usize;
    let capacity = 4 * BLOCK_ALIGN;
    let used = Cell::new(0usize);
    let stored: RefCell<Vec<(usize, u8)>> = RefCell::new(Vec::new());
    for _ in 0..6 {
        foo(
            &allocator,
            |size| {
                let start = used.get();
                if start + size > capacity {
                    SENTINEL
                } else {
                    used.set(start + BLOCK_ALIGN);
                    base + start
                }
            },
            |addr, byte| stored.borrow_mut().push((addr, byte)),
        );
    }
    let stored = stored.borrow();
    assert_eq!(stored.len(), 6);
    for (round, (addr, byte)) in stored.iter().enumerate() {
        assert_eq!(*byte, 42);
        if round < 4 {
            assert_eq!(*addr, base + round * BLOCK_ALIGN + 3);
        } else {
            // The host had nothing left: the sentinel came back and was used.
            assert_eq!(*addr, SENTINEL + 3);
        }
    }
}
