use core_qualification::ep_dto::SPECTRUM_WIDTH;
use core_qualification::hasher::{bucket_index, FNV_OFFSET_BASIS, FNV_PRIME};

#[test]
fn fnv_constants() {
    assert_eq!(FNV_OFFSET_BASIS, 14695981039346656037);
    assert_eq!(FNV_PRIME, 1099511628211);
}

#[test]
fn bucket_of_the_fixture_unit() {
    // hash 0x814c158922e414c9, modulo 104
    assert_eq!(bucket_index("search_88ax9i5", "0XF23AC", 65536), 57);
}

#[test]
fn bucket_of_empty_inputs() {
    // hash 0x6b74136369a8d0f4, modulo 104
    assert_eq!(bucket_index("", "", 0), 20);
    assert_eq!(bucket_index("a", "", 0), 5);
}

#[test]
fn bucket_depends_on_the_unit() {
    assert_eq!(bucket_index("user-1", "salt", 1), 86);
    assert_eq!(bucket_index("user-2", "salt", 1), 71);
}

#[test]
fn bucket_depends_on_the_hashing_constant() {
    assert_eq!(bucket_index("user-1", "salt", 1), 86);
    assert_eq!(bucket_index("user-1", "SALT", 1), 6);
}

#[test]
fn bucket_depends_on_the_experiment_id() {
    assert_eq!(bucket_index("user-1", "salt", 1), 86);
    assert_eq!(bucket_index("user-1", "salt", 2), 51);
}

#[test]
fn bucket_of_text_beyond_ascii_and_of_the_extreme_ids() {
    assert_eq!(bucket_index("Zürich", "ü", -1), 90);
    assert_eq!(bucket_index("x", "y", i32::MIN), 45);
    assert_eq!(bucket_index("x", "y", i32::MAX), 89);
}

#[test]
fn bucket_is_the_same_on_every_call() {
    let first = bucket_index("unit17", "0XF23AC", 65536);
    let second = bucket_index("unit17", "0XF23AC", 65536);
    assert_eq!(first, 0);
    assert_eq!(second, 0);
}

#[test]
fn bucket_is_below_the_width() {
    let mut n = 0;
    while n < 500 {
        let unit = format!("unit{}", n);
        assert!((bucket_index(&unit, "0XF23AC", 65536) as u64) < SPECTRUM_WIDTH);
        n += 1;
    }
    assert_eq!(bucket_index("unit162", "0XF23AC", 65536), 103);
}
