use stylex_swc_plugin::hash::create_hash;
use stylex_swc_plugin::{_unbox_option, unbox};

#[test]
fn unbox_gives_the_boxed_value() {
    assert_eq!(unbox(Box::new(7u32)), 7);
    assert_eq!(unbox(Box::new("a".to_string())), "a");
}

#[test]
fn unbox_option_gives_the_boxed_value() {
    assert_eq!(_unbox_option(Some(Box::new(3i64))), 3);
}

#[test]
fn create_hash_is_base_36_of_murmur2_with_seed_one() {
    assert_eq!(create_hash(""), "ph554m");
    assert_eq!(create_hash("abc"), "qtcrsx");
    assert_eq!(create_hash("margin10px"), "jgcjvd");
    assert_eq!(create_hash("<>colorrednull"), "1e2nbdu");
}

#[test]
fn create_hash_is_stable() {
    assert_eq!(create_hash("z-index10"), create_hash("z-index10"));
    assert_ne!(create_hash("z-index10"), create_hash("z-index11"));
}
