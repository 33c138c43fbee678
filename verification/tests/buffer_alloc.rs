use lazuli::buffer_alloc::bucket_for;

#[test]
fn buckets_by_power_of_two() {
    assert_eq!(bucket_for(16), 0);
    assert_eq!(bucket_for(31), 0);
    assert_eq!(bucket_for(32), 1);
    assert_eq!(bucket_for(4096), 8);
    assert_eq!(bucket_for(u64::MAX), 59);
}
