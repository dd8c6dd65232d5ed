use ddb_decode::deserialize::{select_allocator, yyjson_read_max_memory_usage, AllocatorChoice};

#[test]
fn max_memory_usage_is_twelve_per_byte_plus_256() {
    assert_eq!(yyjson_read_max_memory_usage(0), 256);
    assert_eq!(yyjson_read_max_memory_usage(1), 268);
    assert_eq!(yyjson_read_max_memory_usage(1000), 12_256);
}

#[test]
fn allocator_is_reusable_only_strictly_below_the_buffer_size() {
    assert_eq!(select_allocator(0, 257), AllocatorChoice::Reusable);
    assert_eq!(select_allocator(0, 256), AllocatorChoice::General);
    assert_eq!(select_allocator(10, 376), AllocatorChoice::General);
    assert_eq!(select_allocator(10, 377), AllocatorChoice::Reusable);
    assert_eq!(select_allocator(usize::MAX, usize::MAX), AllocatorChoice::General);
}
