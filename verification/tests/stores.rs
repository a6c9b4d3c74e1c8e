use zephyr::memory_store::{allocate, deallocate, initialise_store, store_get};
use zephyr::number::is_float_text;
use zephyr::symbols::{get_symbol, new_symbol_table};
use zephyr::timings::{create_node_timings, insert_node_timing};

#[derive(Clone, Debug, PartialEq)]
struct Null;

#[test]
fn main() {
    // Allocate
    let mut store = initialise_store();
    let index = allocate(&mut store, Null);
    assert_eq!(index, 0);

    // Deallocate
    deallocate(&mut store, index);

    // Reallocate
    let new = allocate(&mut store, Null);
    assert_eq!(new, 0);
}

#[test]
fn store_reads_back_what_was_allocated() {
    let mut store = initialise_store();
    let a = allocate(&mut store, 10u32);
    let b = allocate(&mut store, 20u32);
    assert_eq!((a, b), (0, 1));
    assert_eq!(store_get(&store, a), 10);
    assert_eq!(store_get(&store, b), 20);
}

#[test]
fn store_reuses_the_last_freed_slot_first() {
    let mut store = initialise_store();
    for v in 0..4u32 {
        allocate(&mut store, v);
    }
    deallocate(&mut store, 1);
    deallocate(&mut store, 3);
    assert_eq!(allocate(&mut store, 7u32), 3);
    assert_eq!(allocate(&mut store, 8u32), 1);
    assert_eq!(allocate(&mut store, 9u32), 4);
    assert_eq!(store_get(&store, 1), 8);
    assert_eq!(store_get(&store, 3), 7);
}

#[test]
fn store_ignores_freeing_past_the_end() {
    let mut store = initialise_store();
    allocate(&mut store, 1u8);
    deallocate(&mut store, 5);
    assert_eq!(allocate(&mut store, 2u8), 1);
}

#[test]
fn timings_collect_times_per_key() {
    let mut t = create_node_timings();
    insert_node_timing(&mut t, "Node:Block".to_string(), 5);
    insert_node_timing(&mut t, "Node:Call".to_string(), 7);
    insert_node_timing(&mut t, "Node:Block".to_string(), 9);
    assert_eq!(t.times("Node:Block"), vec![5, 9]);
    assert_eq!(t.times("Node:Call"), vec![7]);
    assert_eq!(t.times("Node:If"), Vec::<u128>::new());
}

#[test]
fn symbol_table_gives_uuid_identifiers() {
    let table = new_symbol_table();
    let s = get_symbol(&table, "PrettyPrint");
    assert_eq!(s.len(), 36);
    let bytes: Vec<char> = s.chars().collect();
    for (i, c) in bytes.iter().enumerate() {
        if i == 8 || i == 13 || i == 18 || i == 23 {
            assert_eq!(*c, '-');
        } else {
            assert!(c.is_ascii_hexdigit() && !c.is_ascii_uppercase());
        }
    }
    assert_eq!(bytes[14], '4');
    assert!(matches!(bytes[19], '8' | '9' | 'a' | 'b'));
    let other = new_symbol_table();
    assert_ne!(get_symbol(&other, "PrettyPrint"), s);
}

#[test]
fn float_texts() {
    for ok in ["1", "1.5", ".5", "5.", "1e10", "1E-3", "+2", "-0.0", "inf", "-Infinity", "NaN"] {
        assert!(is_float_text(&ok.to_string()), "{} should read as a number", ok);
    }
    for bad in ["", ".", "e5", "1e", "1.2.3", "abc", "\u{0663}", "+", "1_000", "infin"] {
        assert!(!is_float_text(&bad.to_string()), "{} should not read as a number", bad);
    }
}
