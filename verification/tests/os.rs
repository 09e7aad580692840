use arena_alloc::os::align_to;
use arena_alloc::os::total_phys_ram;
use arena_alloc::os::VirtualMemory;

#[test]
fn align_to_rounds_up() {
    // result >= value, result % to == 0, result - value < to.
    assert_eq!(align_to(0, 1), 0);
    assert_eq!(align_to(0, 4096), 0);
    assert_eq!(align_to(1, 4096), 4096);
    assert_eq!(align_to(4096, 4096), 4096);
    assert_eq!(align_to(4097, 4096), 8192);
    assert_eq!(align_to(5, 8), 8);
    assert_eq!(align_to(8, 8), 8);
    // Valid for any positive modulus, not only powers of two.
    assert_eq!(align_to(7, 3), 9);
    assert_eq!(align_to(10, 10), 10);
    assert_eq!(align_to(11, 10), 20);
}

#[test]
fn protect_span_rounds_down_start_and_up_end() {
    let vm = VirtualMemory::new(10000);
    assert_eq!(vm.size(), 10000);

    // [5000, 5100) touches the second page only.
    assert_eq!(vm.protect_span(5000, 100, 4096), Some((4096, 4096)));
    // [0, 1) touches the first page.
    assert_eq!(vm.protect_span(0, 1, 4096), Some((0, 4096)));
    // A page-crossing range covers both pages.
    assert_eq!(vm.protect_span(4000, 200, 4096), Some((0, 8192)));
    // An empty range covers no page.
    assert_eq!(vm.protect_span(0, 0, 4096), Some((0, 0)));
}

#[test]
fn protect_span_rejects_ranges_outside_the_reservation() {
    let vm = VirtualMemory::new(10000);
    assert_eq!(vm.protect_span(9990, 20, 4096), None);
    assert_eq!(vm.protect_span(10001, 0, 4096), None);
    assert_eq!(vm.protect_span(usize::MAX, 2, 4096), None);
    // The whole reservation is acceptable.
    assert!(vm.protect_span(0, 10000, 4096).is_some());
}

#[test]
fn total_phys_ram_multiplies() {
    assert_eq!(total_phys_ram(4, 4096), 16384);
    assert_eq!(total_phys_ram(0, 4096), 0);
    assert_eq!(total_phys_ram(1048576, 4096), 4294967296);
}
