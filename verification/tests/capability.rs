use fractal_raster::capability::{worker_count, worker_count_for};

#[test]
fn worker_count_is_the_cpu_count() {
    assert_eq!(worker_count_for(1), 1);
    assert_eq!(worker_count_for(8), 8);
    assert_eq!(worker_count_for(u32::MAX as usize), u32::MAX);
}

#[test]
fn worker_count_is_at_least_one() {
    assert_eq!(worker_count_for(0), 1);
}

#[test]
fn worker_count_is_capped_by_the_worker_numbering() {
    if usize::BITS > 32 {
        assert_eq!(worker_count_for(usize::MAX), u32::MAX);
    }
}

#[test]
fn worker_count_of_this_machine_is_positive() {
    assert!(worker_count() >= 1);
}
