use const_identify::ConstId;

#[test]
fn uniqueness() {
    let id1: ConstId = ConstId::generate("unique1");
    let id2: ConstId = ConstId::generate("unique2");
    let id3: ConstId = ConstId::generate("unique3");
    assert_ne!(id1, id2);
    assert_ne!(id2, id3);
    assert_ne!(id3, id1);
}

#[test]
fn generate_is_pure() {
    let first = ConstId::generate("some::module::Type");
    let second = ConstId::generate("some::module::Type");
    assert_eq!(first, second);
    assert_eq!(first.raw_value(), second.raw_value());
}

#[test]
fn generate_known_values() {
    // Reference values of the 64-bit FNV-1a hash: the offset basis for the
    // empty string, and a widely published test vector.
    assert_eq!(ConstId::generate("").raw_value(), 0xcbf29ce484222325);
    assert_eq!(ConstId::generate("foobar").raw_value(), 0x85944171f73967e8);
}

#[test]
fn generate_sample_set_distinct() {
    let keys = [
        "a", "b", "ab", "ba", "crate::Foo", "crate::Bar", "crate::foo::Bar", "x::y::Z", "", " ",
    ];
    for i in 0..keys.len() {
        for j in 0..keys.len() {
            if i != j {
                assert_ne!(ConstId::generate(keys[i]), ConstId::generate(keys[j]));
            }
        }
    }
}

#[test]
fn raw_value_round_trip() {
    let id = ConstId::from_raw(42);
    assert_eq!(id.raw_value(), 42);
    assert_eq!(ConstId::from_raw(id.raw_value()), id);
}
