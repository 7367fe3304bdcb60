use koto_core::constant_pool::{Constant, ConstantPool, ConstantPoolBuilder};

fn floats_are_equal(a: f64, b: f64) -> bool {
    (a - b).abs() < f64::EPSILON
}

#[test]
fn test_adding_strings() {
    let mut builder = ConstantPoolBuilder::new();

    let s1 = "test";
    let s2 = "test2";

    assert_eq!(0, builder.add_string(s1));
    assert_eq!(1, builder.add_string(s2));

    // don't duplicate strings
    assert_eq!(0, builder.add_string(s1));
    assert_eq!(1, builder.add_string(s2));

    let pool = builder.build();

    assert_eq!(s1, pool.get_str(0));
    assert_eq!(s2, pool.get_str(1));

    assert_eq!(2, pool.len());
}

#[test]
fn test_adding_numbers() {
    let mut builder = ConstantPoolBuilder::new();

    let f1: f64 = 1.23456789;
    let f2: f64 = 9.87654321;

    assert_eq!(0, builder.add_number(f1.to_bits()));
    assert_eq!(1, builder.add_number(f2.to_bits()));

    // don't duplicate numbers
    assert_eq!(0, builder.add_number(f1.to_bits()));
    assert_eq!(1, builder.add_number(f2.to_bits()));

    let pool = builder.build();

    assert!(floats_are_equal(f1, f64::from_bits(pool.get_number(0))));
    assert!(floats_are_equal(f2, f64::from_bits(pool.get_number(1))));

    assert_eq!(2, pool.len());
}

#[test]
fn test_adding_mixed_types() {
    let mut builder = ConstantPoolBuilder::new();

    let f1: f64 = -1.1;
    let f2: f64 = 99.9;
    let s1 = "O_o";
    let s2 = "^_^";

    assert_eq!(0, builder.add_number(f1.to_bits()));
    assert_eq!(1, builder.add_string(s1));
    assert_eq!(2, builder.add_number(f2.to_bits()));
    assert_eq!(3, builder.add_string(s2));

    let pool = builder.build();

    assert!(floats_are_equal(f1, f64::from_bits(pool.get_number(0))));
    assert!(floats_are_equal(f2, f64::from_bits(pool.get_number(2))));
    assert_eq!(s1, pool.get_str(1));
    assert_eq!(s2, pool.get_str(3));

    assert_eq!(4, pool.len());
}

#[test]
fn test_iter() {
    let mut builder = ConstantPoolBuilder::new();

    let f1: f64 = -1.1;
    let f2: f64 = 99.9;
    let s1 = "O_o";
    let s2 = "^_^";

    builder.add_number(f1.to_bits());
    builder.add_string(s1);
    builder.add_number(f2.to_bits());
    builder.add_string(s2);

    let pool = builder.build();

    let mut iter = pool.iter();
    assert_eq!(iter.next(), Some(Constant::Number((-1.1f64).to_bits())));
    assert_eq!(iter.next(), Some(Constant::Str("O_o")));
    assert_eq!(iter.next(), Some(Constant::Number((99.9f64).to_bits())));
    assert_eq!(iter.next(), Some(Constant::Str("^_^")));
    assert_eq!(iter.next(), None);
}

#[test]
fn equal_contents_give_equal_pools_and_hashes() {
    let mut a = ConstantPoolBuilder::new();
    let mut b = ConstantPoolBuilder::new();
    for builder in [&mut a, &mut b] {
        builder.add_string("héllo");
        builder.add_number(1.5f64.to_bits());
        builder.add_string("");
        builder.add_string("héllo");
        builder.add_number(f64::NAN.to_bits());
    }
    let a = a.build();
    let b = b.build();
    assert!(a == b);
    assert_eq!(a.hash_value(), b.hash_value());
    assert_eq!(a.len(), 4);
    assert_eq!(a.string_data(), "héllo");
    assert_eq!(a.get_str_bounds(0), 0..6);
    assert_eq!(a.get_str_bounds(2), 6..6);
}

#[test]
fn different_order_gives_different_pools() {
    let mut a = ConstantPoolBuilder::new();
    a.add_string("x");
    a.add_number(2.0f64.to_bits());
    let mut b = ConstantPoolBuilder::new();
    b.add_number(2.0f64.to_bits());
    b.add_string("x");
    let a = a.build();
    let b = b.build();
    assert!(a != b);
    assert_ne!(a.hash_value(), b.hash_value());
}

#[test]
fn number_keys_are_bit_patterns() {
    let mut builder = ConstantPoolBuilder::new();
    assert_eq!(0, builder.add_number(0.0f64.to_bits()));
    assert_eq!(1, builder.add_number((-0.0f64).to_bits()));
    assert_eq!(2, builder.add_number(f64::NAN.to_bits()));
    assert_eq!(2, builder.add_number(f64::NAN.to_bits()));
    assert_eq!(3, builder.pool().len());
    assert!(!builder.pool().is_empty());
}

#[test]
fn default_pool_is_empty() {
    let pool = ConstantPool::default();
    assert!(pool.is_empty());
    assert_eq!(pool.len(), 0);
    assert_eq!(pool.get(0), None);
    assert_eq!(pool.iter().next(), None);
    assert_eq!(pool.hash_value(), 0);
}

#[test]
fn many_strings_are_found_again() {
    let mut builder = ConstantPoolBuilder::new();
    let names: Vec<String> = (0..500).map(|i| format!("name_{}", i % 250)).collect();
    for (i, name) in names.iter().enumerate() {
        assert_eq!(builder.add_string(name) as usize, i % 250);
    }
    let pool = builder.build();
    assert_eq!(pool.len(), 250);
    for i in 0..250u32 {
        assert_eq!(pool.get_str(i), format!("name_{}", i));
    }
    let copy = pool.clone();
    assert!(copy == pool);
    assert_eq!(copy.hash_value(), pool.hash_value());
}
