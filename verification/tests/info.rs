use const_identify::info::ConstGeneric;
use const_identify::info::TypeInfo;

fn leaf(name: &str, line: u32) -> TypeInfo {
    TypeInfo::new(
        String::from("src/lib.rs"),
        line,
        5,
        String::from(name),
        Vec::new(),
        Vec::new(),
    )
}

#[test]
fn fingerprint_reflexive() {
    let f = leaf("Foo", 10);
    assert!(f.const_eq(&f));
    assert!(f.const_cmp(&f).is_eq());

    let nested = TypeInfo::new(
        String::from("src/lib.rs"),
        20,
        1,
        String::from("Wrapper"),
        vec![leaf("Foo", 10), leaf("Bar", 11)],
        vec![ConstGeneric::USize(4)],
    );
    assert!(nested.const_eq(&nested));
    assert!(nested.const_cmp(&nested).is_eq());
}

#[test]
fn fingerprint_line_discriminates() {
    let a = leaf("Foo", 10);
    let b = leaf("Foo", 11);
    assert!(!a.const_eq(&b));
    assert!(!a.const_cmp(&b).is_eq());
}

#[test]
fn fingerprint_no_hash_short_circuit() {
    // A deliberate hash collision: the second fingerprint carries the first
    // one's cached hash but another line, so equality must not be decided by
    // the hash alone.
    let a = leaf("Foo", 10);
    let forced = TypeInfo {
        file: a.file.clone(),
        line: a.line + 1,
        column: a.column,
        name: a.name.clone(),
        type_generics: Vec::new(),
        const_generics: Vec::new(),
        hash: a.hash,
    };
    assert_eq!(a.hash, forced.hash);
    assert!(!a.const_eq(&forced));
    assert!(!a.const_cmp(&forced).is_eq());
}

#[test]
fn fingerprint_hash_decides_first() {
    let a = leaf("Foo", 10);
    let b = leaf("Bar", 10);
    assert_ne!(a.const_hash(), b.const_hash());
    if a.const_hash() < b.const_hash() {
        assert!(a.const_cmp(&b).is_lt());
        assert!(b.const_cmp(&a).is_gt());
    } else {
        assert!(a.const_cmp(&b).is_gt());
        assert!(b.const_cmp(&a).is_lt());
    }
}

#[test]
fn fingerprint_file_breaks_hash_ties() {
    // Force equal cached hashes and equal coordinates so that the comparison
    // falls through to the file, then the name.
    let a = leaf("Foo", 10);
    let other_file = TypeInfo {
        file: String::from("src/zzz.rs"),
        line: a.line,
        column: a.column,
        name: a.name.clone(),
        type_generics: Vec::new(),
        const_generics: Vec::new(),
        hash: a.hash,
    };
    assert!(a.const_cmp(&other_file).is_lt());
    assert!(other_file.const_cmp(&a).is_gt());

    let other_name = TypeInfo {
        file: a.file.clone(),
        line: a.line,
        column: a.column,
        name: String::from("Zoo"),
        type_generics: Vec::new(),
        const_generics: Vec::new(),
        hash: a.hash,
    };
    assert!(a.const_cmp(&other_name).is_lt());
    assert!(other_name.const_cmp(&a).is_gt());
}

#[test]
fn fingerprint_hash_deterministic() {
    let a = leaf("Foo", 10);
    let b = leaf("Foo", 10);
    assert_eq!(a.const_hash(), b.const_hash());
    assert!(a.const_eq(&b));
}

#[test]
fn fingerprint_hash_covers_every_field() {
    let base = leaf("Foo", 10);
    assert_ne!(base.const_hash(), leaf("Bar", 10).const_hash());
    assert_ne!(base.const_hash(), leaf("Foo", 11).const_hash());

    let with_const = |c: ConstGeneric| {
        TypeInfo::new(
            String::from("src/lib.rs"),
            10,
            5,
            String::from("Foo"),
            Vec::new(),
            vec![c],
        )
    };
    assert_ne!(with_const(ConstGeneric::U8(1)).const_hash(), with_const(ConstGeneric::U8(2)).const_hash());
    assert_ne!(base.const_hash(), with_const(ConstGeneric::U8(1)).const_hash());

    let with_nested = TypeInfo::new(
        String::from("src/lib.rs"),
        10,
        5,
        String::from("Foo"),
        vec![leaf("Inner", 3)],
        Vec::new(),
    );
    assert_ne!(base.const_hash(), with_nested.const_hash());
}

#[test]
fn fingerprint_nested_parameters_compared() {
    let parent_of = |child: TypeInfo| {
        TypeInfo::new(
            String::from("src/lib.rs"),
            30,
            1,
            String::from("Holder"),
            vec![child],
            Vec::new(),
        )
    };
    let with_foo = parent_of(leaf("Foo", 10));
    let with_foo_again = parent_of(leaf("Foo", 10));
    let with_bar = parent_of(leaf("Bar", 10));
    assert!(with_foo.const_eq(&with_foo_again));
    assert!(with_foo.const_cmp(&with_foo_again).is_eq());
    assert!(!with_foo.const_eq(&with_bar));
    assert!(!with_foo.const_cmp(&with_bar).is_eq());
}

#[test]
fn fingerprint_const_parameters_compared() {
    let with_const = |c: ConstGeneric| {
        TypeInfo::new(
            String::from("src/lib.rs"),
            40,
            1,
            String::from("Arrayish"),
            Vec::new(),
            vec![c],
        )
    };
    let four = with_const(ConstGeneric::USize(4));
    let four_again = with_const(ConstGeneric::USize(4));
    let five = with_const(ConstGeneric::USize(5));
    assert!(four.const_eq(&four_again));
    assert!(!four.const_eq(&five));
    assert!(!four.const_cmp(&five).is_eq());
}

#[test]
fn scalar_equality() {
    assert!(ConstGeneric::U8(5).const_eq(&ConstGeneric::U8(5)));
    assert!(!ConstGeneric::U8(5).const_eq(&ConstGeneric::U8(6)));
    // No numeric coercion across variants.
    assert!(!ConstGeneric::U8(5).const_eq(&ConstGeneric::I8(5)));
    assert!(!ConstGeneric::U8(5).const_eq(&ConstGeneric::U16(5)));
    assert!(ConstGeneric::Bool(true).const_eq(&ConstGeneric::Bool(true)));
    assert!(!ConstGeneric::Bool(true).const_eq(&ConstGeneric::Bool(false)));
    assert!(ConstGeneric::Char('x').const_eq(&ConstGeneric::Char('x')));
    assert!(!ConstGeneric::Char('x').const_eq(&ConstGeneric::Char('y')));
    assert!(ConstGeneric::I128(-7).const_eq(&ConstGeneric::I128(-7)));
}

#[test]
fn scalar_same_variant_ordering() {
    assert!(ConstGeneric::U8(1).const_cmp(&ConstGeneric::U8(2)).is_lt());
    assert!(ConstGeneric::U8(2).const_cmp(&ConstGeneric::U8(1)).is_gt());
    assert!(ConstGeneric::U8(2).const_cmp(&ConstGeneric::U8(2)).is_eq());
    assert!(ConstGeneric::I32(-5).const_cmp(&ConstGeneric::I32(3)).is_lt());
    assert!(ConstGeneric::ISize(-1).const_cmp(&ConstGeneric::ISize(-2)).is_gt());
    assert!(ConstGeneric::Bool(false).const_cmp(&ConstGeneric::Bool(true)).is_lt());
    assert!(ConstGeneric::Char('a').const_cmp(&ConstGeneric::Char('b')).is_lt());
}

#[test]
fn scalar_cross_variant_ordering() {
    // One value per variant, in the declared order, each wrapping the largest
    // (or a large) value, so that the declaration order alone decides.
    let scalars = [
        ConstGeneric::Bool(true),
        ConstGeneric::Char(char::MAX),
        ConstGeneric::U8(u8::MAX),
        ConstGeneric::U16(u16::MAX),
        ConstGeneric::U32(u32::MAX),
        ConstGeneric::U64(u64::MAX),
        ConstGeneric::U128(u128::MAX),
        ConstGeneric::USize(usize::MAX),
        ConstGeneric::I8(i8::MAX),
        ConstGeneric::I16(i16::MAX),
        ConstGeneric::I32(i32::MAX),
        ConstGeneric::I64(i64::MAX),
        ConstGeneric::I128(i128::MAX),
        ConstGeneric::ISize(isize::MAX),
    ];
    for i in 0..scalars.len() {
        for j in 0..scalars.len() {
            let ord = scalars[i].const_cmp(&scalars[j]);
            if i < j {
                assert!(ord.is_lt());
            } else if i == j {
                assert!(ord.is_eq());
            } else {
                assert!(ord.is_gt());
            }
            if i != j {
                assert!(!scalars[i].const_eq(&scalars[j]));
            }
        }
    }
    // The declared order decides independently of the wrapped values.
    assert!(ConstGeneric::Bool(true).const_cmp(&ConstGeneric::Char('a')).is_lt());
    assert!(ConstGeneric::U128(u128::MAX).const_cmp(&ConstGeneric::I8(i8::MIN)).is_lt());
}
