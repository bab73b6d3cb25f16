use c_ast::{Attribute, AttributeSet, CDeclId, CQualTypeId, CTypeId, CTypeKind, Qualifiers};

const INTEGRAL: [CTypeKind; 14] = [
    CTypeKind::Bool,
    CTypeKind::Char,
    CTypeKind::SChar,
    CTypeKind::UChar,
    CTypeKind::Short,
    CTypeKind::UShort,
    CTypeKind::Int,
    CTypeKind::UInt,
    CTypeKind::Long,
    CTypeKind::ULong,
    CTypeKind::LongLong,
    CTypeKind::ULongLong,
    CTypeKind::Int128,
    CTypeKind::UInt128,
];

const FLOATING: [CTypeKind; 3] = [CTypeKind::Float, CTypeKind::Double, CTypeKind::LongDouble];

fn pointer(id: u64) -> CTypeKind {
    CTypeKind::Pointer(CQualTypeId::new(CTypeId(id)))
}

fn smaller(a: &CTypeKind, b: &CTypeKind) -> Option<CTypeKind> {
    CTypeKind::smaller_compatible_type(a.clone(), b.clone())
}

#[test]
fn qualifiers_add_up() {
    let c = Qualifiers { is_const: true, is_restrict: false, is_volatile: false };
    let v = Qualifiers { is_const: false, is_restrict: false, is_volatile: true };
    let both = Qualifiers { is_const: true, is_restrict: false, is_volatile: true };
    assert_eq!(c.and(v), both);
    assert_eq!(v.and(c), both);
    assert_eq!(c.and(c), c);
    assert_eq!(c.and(Qualifiers::default()), c);
    assert_eq!(CQualTypeId::new(CTypeId(3)).qualifiers, Qualifiers::default());
    assert_eq!(CQualTypeId::new(CTypeId(3)).ctype, CTypeId(3));
}

#[test]
fn integral_types_are_signed_or_unsigned() {
    for ty in &INTEGRAL {
        assert!(ty.is_integral_type());
        assert!(ty.is_signed_integral_type() != ty.is_unsigned_integral_type());
        assert!(!ty.is_floating_type());
    }
    assert!(CTypeKind::Char.is_signed_integral_type());
    assert!(CTypeKind::Bool.is_unsigned_integral_type());
    assert!(!CTypeKind::Void.is_integral_type());
    assert!(!CTypeKind::Enum(CDeclId(1)).is_integral_type());
}

#[test]
fn floating_types_are_three() {
    for ty in &FLOATING {
        assert!(ty.is_floating_type());
        assert!(!ty.is_integral_type());
    }
    assert!(!CTypeKind::Half.is_floating_type());
    assert!(!CTypeKind::BFloat16.is_floating_type());
}

#[test]
fn kinds_are_told_apart() {
    assert!(pointer(1).is_pointer());
    assert!(!CTypeKind::BlockPointer(CQualTypeId::new(CTypeId(1))).is_pointer());
    assert!(CTypeKind::Bool.is_bool());
    assert!(!CTypeKind::Int.is_bool());
    assert!(CTypeKind::Enum(CDeclId(1)).is_enum());
    assert!(!CTypeKind::Struct(CDeclId(1)).is_enum());
    assert!(CTypeKind::Vector(CQualTypeId::new(CTypeId(1)), 4).is_vector());
    assert!(!CTypeKind::ConstantArray(CTypeId(1), 4).is_vector());
}

#[test]
fn declarations_under_types() {
    let d = CDeclId(5);
    for ty in [CTypeKind::Struct(d), CTypeKind::Union(d), CTypeKind::Enum(d)] {
        assert_eq!(ty.as_underlying_decl(), Some(d));
        assert_eq!(ty.as_decl_or_typedef(), Some(d));
    }
    assert_eq!(CTypeKind::Typedef(d).as_underlying_decl(), None);
    assert_eq!(CTypeKind::Typedef(d).as_decl_or_typedef(), Some(d));
    assert_eq!(CTypeKind::Int.as_decl_or_typedef(), None);
}

#[test]
fn the_lower_integral_type_is_smaller() {
    for i in 0..INTEGRAL.len() {
        for j in 0..INTEGRAL.len() {
            let lower = &INTEGRAL[i.min(j)];
            assert_eq!(smaller(&INTEGRAL[i], &INTEGRAL[j]).as_ref(), Some(lower));
        }
    }
}

#[test]
fn the_lower_floating_type_is_smaller() {
    for i in 0..FLOATING.len() {
        for j in 0..FLOATING.len() {
            let lower = &FLOATING[i.min(j)];
            assert_eq!(smaller(&FLOATING[i], &FLOATING[j]).as_ref(), Some(lower));
        }
    }
}

/// The bytes of the types in `INTEGRAL` and `FLOATING`.
const INTEGRAL_WIDTHS: [u8; 14] = [1, 1, 1, 1, 2, 2, 4, 4, 8, 8, 8, 8, 16, 16];
const FLOATING_WIDTHS: [u8; 3] = [4, 8, 16];

#[test]
fn the_narrower_of_an_integral_and_a_floating_type_is_smaller() {
    for (float, float_width) in FLOATING.iter().zip(FLOATING_WIDTHS) {
        for (int, int_width) in INTEGRAL.iter().zip(INTEGRAL_WIDTHS) {
            let expected = if int_width < float_width { int } else { float };
            assert_eq!(smaller(float, int).as_ref(), Some(expected));
            assert_eq!(smaller(int, float).as_ref(), Some(expected));
        }
    }
    assert_eq!(smaller(&CTypeKind::Char, &CTypeKind::Double), Some(CTypeKind::Char));
    assert_eq!(smaller(&CTypeKind::Int, &CTypeKind::Float), Some(CTypeKind::Float));
    assert_eq!(smaller(&CTypeKind::Long, &CTypeKind::Double), Some(CTypeKind::Double));
    assert_eq!(smaller(&CTypeKind::Int128, &CTypeKind::LongDouble), Some(CTypeKind::LongDouble));
}

#[test]
fn integers_win_over_pointers() {
    for int in &INTEGRAL {
        assert_eq!(smaller(int, &pointer(1)).as_ref(), Some(int));
        assert_eq!(smaller(&pointer(1), int).as_ref(), Some(int));
    }
    assert_eq!(smaller(&CTypeKind::Float, &pointer(1)), None);
}

#[test]
fn arrays_win_over_the_pointer_they_decay_to() {
    let arrays = [
        CTypeKind::ConstantArray(CTypeId(1), 4),
        CTypeKind::IncompleteArray(CTypeId(1)),
        CTypeKind::VariableArray(CTypeId(1), None),
    ];
    for array in &arrays {
        assert_eq!(smaller(array, &pointer(1)).as_ref(), Some(array));
        assert_eq!(smaller(&pointer(1), array).as_ref(), Some(array));
        assert_eq!(smaller(array, &pointer(2)), None);
        assert_eq!(smaller(&pointer(2), array), None);
    }
}

#[test]
fn void_gives_way_on_the_left_only() {
    assert_eq!(smaller(&CTypeKind::Void, &CTypeKind::Int), Some(CTypeKind::Int));
    assert_eq!(smaller(&CTypeKind::Int, &CTypeKind::Void), None);
    assert_eq!(smaller(&CTypeKind::Void, &CTypeKind::Void), Some(CTypeKind::Void));
}

#[test]
fn equal_types_are_compatible() {
    let int = CQualTypeId::new(CTypeId(1));
    let function = CTypeKind::Function(int, vec![int, int], false, false, true);
    assert_eq!(smaller(&function, &function), Some(function.clone()));
    let shorter = CTypeKind::Function(int, vec![int], false, false, true);
    assert_eq!(smaller(&function, &shorter), None);
    let used = CTypeKind::Attributed(int, Some(Attribute::Used));
    assert_eq!(smaller(&used, &used.clone()), Some(used.clone()));
    assert!(used != CTypeKind::Attributed(int, Some(Attribute::Cold)));
    assert!(used != CTypeKind::Attributed(int, None));
    assert_eq!(smaller(&CTypeKind::Struct(CDeclId(1)), &CTypeKind::Struct(CDeclId(2))), None);
}

#[test]
fn attribute_sets_hold_each_attribute_once() {
    let mut set = AttributeSet::new();
    assert!(!set.contains(&Attribute::Used));
    assert!(set.insert(&Attribute::Used));
    assert!(!set.insert(&Attribute::Used));
    assert!(set.contains(&Attribute::Used));
    assert!(!set.contains(&Attribute::Cold));
    assert!(set.insert(&Attribute::Section(String::from("a"))));
    assert!(set.insert(&Attribute::Section(String::from("b"))));
    assert!(set.contains(&Attribute::Section(String::from("b"))));
    assert!(!set.contains(&Attribute::Section(String::from("c"))));
    assert!(!set.contains(&Attribute::Alias(String::from("a"))));
    assert!(set.clone().contains(&Attribute::Used));
}

#[test]
fn attributes_are_read_back_in_the_order_of_insertion() {
    let text = |s: &str| String::from(s);
    let all = vec![
        Attribute::Visibility(text("hidden")),
        Attribute::Alias(text("")),
        Attribute::AlwaysInline,
        Attribute::Cold,
        Attribute::GnuInline,
        Attribute::NoInline,
        Attribute::NoReturn,
        Attribute::NotNull,
        Attribute::Nullable,
        Attribute::Section(text(".init")),
        Attribute::Used,
    ];
    let mut set = AttributeSet::new();
    for attribute in &all {
        set.insert(attribute);
        set.insert(&Attribute::Visibility(text("hidden")));
    }
    for (index, attribute) in all.iter().enumerate() {
        assert_eq!(set.get(index).as_ref(), Some(attribute));
    }
    assert_eq!(set.get(all.len()), None);
    assert_eq!(set.len(), all.len());
    let copy = set.clone();
    for index in 0..all.len() + 1 {
        assert_eq!(copy.get(index), set.get(index));
    }
    assert_eq!(AttributeSet::new().get(0), None);
}

#[test]
fn attributes_are_the_same_with_the_same_text() {
    assert!(Attribute::NoReturn.same(&Attribute::NoReturn));
    assert!(!Attribute::NoReturn.same(&Attribute::NotNull));
    let hidden = Attribute::Visibility(String::from("hidden"));
    assert!(hidden.same(&hidden.clone()));
    assert!(!hidden.same(&Attribute::Visibility(String::from("default"))));
}
