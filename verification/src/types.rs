//! C types (6.2.5) and their qualifiers (6.7.3).

use crate::attributes::Attribute;
use crate::ids::{CDeclId, CEnumId, CExprId, CRecordId, CTypeId, CTypedefId};
use vstd::prelude::*;

verus! {

/// Type qualifiers (6.7.3).
#[derive(Debug, Copy, Clone, PartialEq, Eq, Structural)]
pub struct Qualifiers {
    /// The `const` qualifier, which marks lvalues as non-assignable.
    pub is_const: bool,
    pub is_restrict: bool,
    /// The `volatile` qualifier, which prevents the compiler from reordering
    /// accesses past other observable side effects.
    pub is_volatile: bool,
}

impl Default for Qualifiers {
    /// No qualifier at all.
    fn default() -> (r: Qualifiers)
        ensures
            r == (Qualifiers { is_const: false, is_restrict: false, is_volatile: false }),
    {
        Qualifiers { is_const: false, is_restrict: false, is_volatile: false }
    }
}

impl Qualifiers {
    /// The qualifiers that at least one of the two has.
    pub open spec fn spec_and(self, other: Qualifiers) -> Qualifiers {
        Qualifiers {
            is_const: self.is_const || other.is_const,
            is_restrict: self.is_restrict || other.is_restrict,
            is_volatile: self.is_volatile || other.is_volatile,
        }
    }

    /// Aggregate qualifier information from two sources.
    #[verifier::when_used_as_spec(spec_and)]
    pub fn and(self, other: Qualifiers) -> (r: Qualifiers)
        ensures
            r == self.spec_and(other),
    {
        Qualifiers {
            is_const: self.is_const || other.is_const,
            is_restrict: self.is_restrict || other.is_restrict,
            is_volatile: self.is_volatile || other.is_volatile,
        }
    }
}

/// In whatever order and however often qualifiers are put together, the
/// result is the same; no qualifier at all adds nothing.
pub proof fn law_qualifiers_combine(a: Qualifiers, b: Qualifiers, c: Qualifiers)
    ensures
        a.spec_and(b) == b.spec_and(a),
        a.spec_and(b).spec_and(c) == a.spec_and(b.spec_and(c)),
        a.spec_and(a) == a,
        a.spec_and(
            (Qualifiers { is_const: false, is_restrict: false, is_volatile: false }),
        ) == a,
{
}

/// Qualified type.
#[derive(Debug, Copy, Clone, PartialEq, Eq, Structural)]
pub struct CQualTypeId {
    pub qualifiers: Qualifiers,
    pub ctype: CTypeId,
}

impl CQualTypeId {
    /// The type `ctype` without qualifiers.
    pub fn new(ctype: CTypeId) -> (r: CQualTypeId)
        ensures
            r.ctype == ctype,
            r.qualifiers == (Qualifiers {
                is_const: false,
                is_restrict: false,
                is_volatile: false,
            }),
    {
        CQualTypeId { qualifiers: Qualifiers::default(), ctype }
    }
}

/// Represents a type in C (6.2.5 Types).
#[derive(Debug, Clone)]
pub enum CTypeKind {
    Void,
    // Boolean type (6.2.5.2)
    Bool,
    // Character type (6.2.5.3)
    Char,
    // Signed types (6.2.5.4)
    SChar,
    Short,
    Int,
    Long,
    LongLong,
    // Unsigned types (6.2.5.6)
    UChar,
    UShort,
    UInt,
    ULong,
    ULongLong,
    // Real floating types (6.2.5.10)
    Float,
    Double,
    LongDouble,
    // 128-bit integers
    Int128,
    UInt128,
    Complex(CTypeId),
    // Pointer types (6.7.5.1)
    Pointer(CQualTypeId),
    // C++ reference
    Reference(CQualTypeId),
    // Array types (6.7.5.2). The size expression of a variable-length array is
    // optional, as it might be replaced with `*`.
    ConstantArray(CTypeId, usize),
    IncompleteArray(CTypeId),
    VariableArray(CTypeId, Option<CExprId>),
    // Type of type or expression (GCC extension)
    TypeOf(CTypeId),
    TypeOfExpr(CExprId),
    // Function type (6.7.5.3): result, parameters, and the flags
    // is_variable_argument, is_noreturn, has_prototype
    Function(CQualTypeId, Vec<CQualTypeId>, bool, bool, bool),
    // Type definition type (6.7.7)
    Typedef(CTypedefId),
    // A pointer type decayed from an array or function type
    Decayed(CTypeId),
    Elaborated(CTypeId),
    // Type wrapped in parentheses
    Paren(CTypeId),
    Struct(CRecordId),
    Union(CRecordId),
    Enum(CEnumId),
    BuiltinFn,
    Attributed(CQualTypeId, Option<Attribute>),
    BlockPointer(CQualTypeId),
    Vector(CQualTypeId, usize),
    Half,
    BFloat16,
}

/// Whether two optional attributes are the same.
pub open spec fn same_optional_attribute(a: Option<Attribute>, b: Option<Attribute>) -> bool {
    match (a, b) {
        (None, None) => true,
        (Some(x), Some(y)) => x.key() == y.key(),
        _ => false,
    }
}

/// Whether two types have the same form with equal parts.
pub open spec fn same_type(a: CTypeKind, b: CTypeKind) -> bool {
    match a {
        CTypeKind::Function(result, params, variadic, no_return, prototype) => {
            &&& b matches CTypeKind::Function(result2, params2, variadic2, no_return2, prototype2)
            &&& result == result2
            &&& params@ == params2@
            &&& variadic == variadic2
            &&& no_return == no_return2
            &&& prototype == prototype2
        },
        CTypeKind::Attributed(inner, attribute) => {
            &&& b matches CTypeKind::Attributed(inner2, attribute2)
            &&& inner == inner2
            &&& same_optional_attribute(attribute, attribute2)
        },
        _ => a == b,
    }
}

fn same_params(a: &Vec<CQualTypeId>, b: &Vec<CQualTypeId>) -> (r: bool)
    ensures
        r == (a@ == b@),
{
    if a.len() != b.len() {
        return false;
    }
    let mut i: usize = 0;
    while i < a.len()
        invariant
            i <= a.len(),
            a@.len() == b@.len(),
            forall|j: int| 0 <= j < i ==> a@[j] == b@[j],
        decreases a.len() - i,
    {
        if a[i] != b[i] {
            return false;
        }
        i = i + 1;
    }
    assert(a@ =~= b@);
    true
}

fn same_attributes(a: &Option<Attribute>, b: &Option<Attribute>) -> (r: bool)
    ensures
        r == same_optional_attribute(*a, *b),
{
    match (a, b) {
        (None, None) => true,
        (Some(x), Some(y)) => x.same(y),
        _ => false,
    }
}

impl vstd::std_specs::cmp::PartialEqSpecImpl for CTypeKind {
    open spec fn obeys_eq_spec() -> bool {
        true
    }

    open spec fn eq_spec(&self, other: &CTypeKind) -> bool {
        same_type(*self, *other)
    }
}

impl PartialEq for CTypeKind {
    fn eq(&self, other: &CTypeKind) -> (r: bool) {
        match (self, other) {
            (CTypeKind::Void, CTypeKind::Void) => true,
            (CTypeKind::Bool, CTypeKind::Bool) => true,
            (CTypeKind::Char, CTypeKind::Char) => true,
            (CTypeKind::SChar, CTypeKind::SChar) => true,
            (CTypeKind::Short, CTypeKind::Short) => true,
            (CTypeKind::Int, CTypeKind::Int) => true,
            (CTypeKind::Long, CTypeKind::Long) => true,
            (CTypeKind::LongLong, CTypeKind::LongLong) => true,
            (CTypeKind::UChar, CTypeKind::UChar) => true,
            (CTypeKind::UShort, CTypeKind::UShort) => true,
            (CTypeKind::UInt, CTypeKind::UInt) => true,
            (CTypeKind::ULong, CTypeKind::ULong) => true,
            (CTypeKind::ULongLong, CTypeKind::ULongLong) => true,
            (CTypeKind::Float, CTypeKind::Float) => true,
            (CTypeKind::Double, CTypeKind::Double) => true,
            (CTypeKind::LongDouble, CTypeKind::LongDouble) => true,
            (CTypeKind::Int128, CTypeKind::Int128) => true,
            (CTypeKind::UInt128, CTypeKind::UInt128) => true,
            (CTypeKind::Complex(a), CTypeKind::Complex(b)) => *a == *b,
            (CTypeKind::Pointer(a), CTypeKind::Pointer(b)) => *a == *b,
            (CTypeKind::Reference(a), CTypeKind::Reference(b)) => *a == *b,
            (CTypeKind::ConstantArray(a, n), CTypeKind::ConstantArray(b, m)) => *a == *b && *n
                == *m,
            (CTypeKind::IncompleteArray(a), CTypeKind::IncompleteArray(b)) => *a == *b,
            (CTypeKind::VariableArray(a, n), CTypeKind::VariableArray(b, m)) => *a == *b
                && same_size(n, m),
            (CTypeKind::TypeOf(a), CTypeKind::TypeOf(b)) => *a == *b,
            (CTypeKind::TypeOfExpr(a), CTypeKind::TypeOfExpr(b)) => *a == *b,
            (
                CTypeKind::Function(result, params, variadic, no_return, prototype),
                CTypeKind::Function(result2, params2, variadic2, no_return2, prototype2),
            ) => *result == *result2 && same_params(params, params2) && *variadic == *variadic2
                && *no_return == *no_return2 && *prototype == *prototype2,
            (CTypeKind::Typedef(a), CTypeKind::Typedef(b)) => *a == *b,
            (CTypeKind::Decayed(a), CTypeKind::Decayed(b)) => *a == *b,
            (CTypeKind::Elaborated(a), CTypeKind::Elaborated(b)) => *a == *b,
            (CTypeKind::Paren(a), CTypeKind::Paren(b)) => *a == *b,
            (CTypeKind::Struct(a), CTypeKind::Struct(b)) => *a == *b,
            (CTypeKind::Union(a), CTypeKind::Union(b)) => *a == *b,
            (CTypeKind::Enum(a), CTypeKind::Enum(b)) => *a == *b,
            (CTypeKind::BuiltinFn, CTypeKind::BuiltinFn) => true,
            (CTypeKind::Attributed(a, x), CTypeKind::Attributed(b, y)) => *a == *b
                && same_attributes(x, y),
            (CTypeKind::BlockPointer(a), CTypeKind::BlockPointer(b)) => *a == *b,
            (CTypeKind::Vector(a, n), CTypeKind::Vector(b, m)) => *a == *b && *n == *m,
            (CTypeKind::Half, CTypeKind::Half) => true,
            (CTypeKind::BFloat16, CTypeKind::BFloat16) => true,
            _ => false,
        }
    }
}

fn same_size(a: &Option<CExprId>, b: &Option<CExprId>) -> (r: bool)
    ensures
        r == (*a == *b),
{
    match (a, b) {
        (None, None) => true,
        (Some(x), Some(y)) => *x == *y,
        _ => false,
    }
}

/// The array type `array` decays to the pointer type `pointer`.
pub open spec fn decays_to(array: CTypeKind, pointer: CTypeKind) -> bool {
    &&& pointer matches CTypeKind::Pointer(target)
    &&& match array {
        CTypeKind::ConstantArray(element, _) => target.ctype == element,
        CTypeKind::IncompleteArray(element) => target.ctype == element,
        CTypeKind::VariableArray(element, _) => target.ctype == element,
        _ => false,
    }
}

impl CTypeKind {
    pub open spec fn spec_is_unsigned_integral_type(&self) -> bool {
        match self {
            CTypeKind::Bool => true,
            CTypeKind::UChar => true,
            CTypeKind::UInt => true,
            CTypeKind::UShort => true,
            CTypeKind::ULong => true,
            CTypeKind::ULongLong => true,
            CTypeKind::UInt128 => true,
            _ => false,
        }
    }

    pub open spec fn spec_is_signed_integral_type(&self) -> bool {
        match self {
            CTypeKind::Char => true,
            CTypeKind::SChar => true,
            CTypeKind::Int => true,
            CTypeKind::Short => true,
            CTypeKind::Long => true,
            CTypeKind::LongLong => true,
            CTypeKind::Int128 => true,
            _ => false,
        }
    }

    pub open spec fn spec_is_integral_type(&self) -> bool {
        self.spec_is_unsigned_integral_type() || self.spec_is_signed_integral_type()
    }

    pub open spec fn spec_is_floating_type(&self) -> bool {
        self is Float || self is Double || self is LongDouble
    }

    /// Place of an integral or floating type among those of its sort, from
    /// the smallest up.
    pub open spec fn spec_rank(&self) -> u8 {
        match self {
            CTypeKind::Bool => 0,
            CTypeKind::Char => 1,
            CTypeKind::SChar => 2,
            CTypeKind::UChar => 3,
            CTypeKind::Short => 4,
            CTypeKind::UShort => 5,
            CTypeKind::Int => 6,
            CTypeKind::UInt => 7,
            CTypeKind::Float => 8,
            CTypeKind::Long => 9,
            CTypeKind::ULong => 10,
            CTypeKind::Double => 11,
            CTypeKind::LongLong => 12,
            CTypeKind::ULongLong => 13,
            CTypeKind::LongDouble => 14,
            CTypeKind::Int128 => 15,
            CTypeKind::UInt128 => 16,
            _ => 17,
        }
    }

    /// How many bytes an integral or floating type takes on the platforms that
    /// matter here, where a `long` has eight.
    pub open spec fn spec_width(&self) -> nat {
        match self {
            CTypeKind::Bool | CTypeKind::Char | CTypeKind::SChar | CTypeKind::UChar => 1,
            CTypeKind::Short | CTypeKind::UShort => 2,
            CTypeKind::Int | CTypeKind::UInt | CTypeKind::Float => 4,
            CTypeKind::Long
            | CTypeKind::ULong
            | CTypeKind::LongLong
            | CTypeKind::ULongLong
            | CTypeKind::Double => 8,
            CTypeKind::Int128 | CTypeKind::UInt128 | CTypeKind::LongDouble => 16,
            _ => 0,
        }
    }

    /// The declaration that a record or enum type stands for.
    pub open spec fn spec_as_underlying_decl(&self) -> Option<CDeclId> {
        match self {
            CTypeKind::Struct(decl_id) => Some(*decl_id),
            CTypeKind::Union(decl_id) => Some(*decl_id),
            CTypeKind::Enum(decl_id) => Some(*decl_id),
            _ => None,
        }
    }

    /// The declaration that a typedef, record or enum type stands for.
    pub open spec fn spec_as_decl_or_typedef(&self) -> Option<CDeclId> {
        match self {
            CTypeKind::Typedef(decl_id) => Some(*decl_id),
            _ => self.spec_as_underlying_decl(),
        }
    }

    pub fn is_pointer(&self) -> (r: bool)
        ensures
            r == (self is Pointer),
    {
        match self {
            CTypeKind::Pointer(_) => true,
            _ => false,
        }
    }

    pub fn is_bool(&self) -> (r: bool)
        ensures
            r == (self is Bool),
    {
        match self {
            CTypeKind::Bool => true,
            _ => false,
        }
    }

    pub fn is_enum(&self) -> (r: bool)
        ensures
            r == (self is Enum),
    {
        match self {
            CTypeKind::Enum(_) => true,
            _ => false,
        }
    }

    #[verifier::when_used_as_spec(spec_is_integral_type)]
    pub fn is_integral_type(&self) -> (r: bool)
        ensures
            r == self.spec_is_integral_type(),
    {
        self.is_unsigned_integral_type() || self.is_signed_integral_type()
    }

    #[verifier::when_used_as_spec(spec_is_unsigned_integral_type)]
    pub fn is_unsigned_integral_type(&self) -> (r: bool)
        ensures
            r == self.spec_is_unsigned_integral_type(),
    {
        match self {
            CTypeKind::Bool => true,
            CTypeKind::UChar => true,
            CTypeKind::UInt => true,
            CTypeKind::UShort => true,
            CTypeKind::ULong => true,
            CTypeKind::ULongLong => true,
            CTypeKind::UInt128 => true,
            _ => false,
        }
    }

    /// Plain `char` counts as signed, as it is on the platforms that matter here.
    #[verifier::when_used_as_spec(spec_is_signed_integral_type)]
    pub fn is_signed_integral_type(&self) -> (r: bool)
        ensures
            r == self.spec_is_signed_integral_type(),
    {
        match self {
            CTypeKind::Char => true,
            CTypeKind::SChar => true,
            CTypeKind::Int => true,
            CTypeKind::Short => true,
            CTypeKind::Long => true,
            CTypeKind::LongLong => true,
            CTypeKind::Int128 => true,
            _ => false,
        }
    }

    #[verifier::when_used_as_spec(spec_is_floating_type)]
    pub fn is_floating_type(&self) -> (r: bool)
        ensures
            r == self.spec_is_floating_type(),
    {
        match self {
            CTypeKind::Float => true,
            CTypeKind::Double => true,
            CTypeKind::LongDouble => true,
            _ => false,
        }
    }

    #[verifier::when_used_as_spec(spec_as_underlying_decl)]
    pub fn as_underlying_decl(&self) -> (r: Option<CDeclId>)
        ensures
            r == self.spec_as_underlying_decl(),
    {
        match self {
            CTypeKind::Struct(decl_id) => Some(*decl_id),
            CTypeKind::Union(decl_id) => Some(*decl_id),
            CTypeKind::Enum(decl_id) => Some(*decl_id),
            _ => None,
        }
    }

    #[verifier::when_used_as_spec(spec_as_decl_or_typedef)]
    pub fn as_decl_or_typedef(&self) -> (r: Option<CDeclId>)
        ensures
            r == self.spec_as_decl_or_typedef(),
    {
        match self {
            CTypeKind::Typedef(decl_id) => Some(*decl_id),
            CTypeKind::Struct(decl_id) => Some(*decl_id),
            CTypeKind::Union(decl_id) => Some(*decl_id),
            CTypeKind::Enum(decl_id) => Some(*decl_id),
            _ => None,
        }
    }

    pub fn is_vector(&self) -> (r: bool)
        ensures
            r == (self is Vector),
    {
        match self {
            CTypeKind::Vector(_, _) => true,
            _ => false,
        }
    }

    fn rank(&self) -> (r: u8)
        ensures
            r == self.spec_rank(),
    {
        match self {
            CTypeKind::Bool => 0,
            CTypeKind::Char => 1,
            CTypeKind::SChar => 2,
            CTypeKind::UChar => 3,
            CTypeKind::Short => 4,
            CTypeKind::UShort => 5,
            CTypeKind::Int => 6,
            CTypeKind::UInt => 7,
            CTypeKind::Float => 8,
            CTypeKind::Long => 9,
            CTypeKind::ULong => 10,
            CTypeKind::Double => 11,
            CTypeKind::LongLong => 12,
            CTypeKind::ULongLong => 13,
            CTypeKind::LongDouble => 14,
            CTypeKind::Int128 => 15,
            CTypeKind::UInt128 => 16,
            _ => 17,
        }
    }

    fn width(&self) -> (r: u8)
        ensures
            r == self.spec_width(),
    {
        match self {
            CTypeKind::Bool | CTypeKind::Char | CTypeKind::SChar | CTypeKind::UChar => 1,
            CTypeKind::Short | CTypeKind::UShort => 2,
            CTypeKind::Int | CTypeKind::UInt | CTypeKind::Float => 4,
            CTypeKind::Long
            | CTypeKind::ULong
            | CTypeKind::LongLong
            | CTypeKind::ULongLong
            | CTypeKind::Double => 8,
            CTypeKind::Int128 | CTypeKind::UInt128 | CTypeKind::LongDouble => 16,
            _ => 0,
        }
    }

    fn decays(&self, pointer: &CTypeKind) -> (r: bool)
        ensures
            r == decays_to(*self, *pointer),
    {
        match (self, pointer) {
            (CTypeKind::ConstantArray(element, _), CTypeKind::Pointer(target)) => target.ctype
                == *element,
            (CTypeKind::IncompleteArray(element), CTypeKind::Pointer(target)) => target.ctype
                == *element,
            (CTypeKind::VariableArray(element, _), CTypeKind::Pointer(target)) => target.ctype
                == *element,
            _ => false,
        }
    }

    /// Which of two types is the smaller, simpler one: `Some(true)` for the
    /// first, `Some(false)` for the second, `None` where they are not
    /// cast-compatible.
    ///
    /// Of two integral types it is the lower one, and of two floating types
    /// too. Between an integral and a floating type it is the narrower one, and
    /// the floating one where they are equally wide. Between an integer and a
    /// pointer it is the integer, and between an array and the pointer that it
    /// decays to it is the array.
    pub open spec fn prefers_first(ty1: CTypeKind, ty2: CTypeKind) -> Option<bool> {
        if same_type(ty1, ty2) {
            Some(true)
        } else if ty1 is Void {
            Some(false)
        } else if ty1.spec_is_integral_type() && ty2.spec_is_integral_type() {
            Some(ty1.spec_rank() <= ty2.spec_rank())
        } else if ty1.spec_is_floating_type() && ty2.spec_is_floating_type() {
            Some(ty1.spec_rank() <= ty2.spec_rank())
        } else if ty1.spec_is_floating_type() && ty2.spec_is_integral_type() {
            Some(ty1.spec_width() <= ty2.spec_width())
        } else if ty1.spec_is_integral_type() && ty2.spec_is_floating_type() {
            Some(ty1.spec_width() < ty2.spec_width())
        } else if ty1 is Pointer && ty2.spec_is_integral_type() {
            Some(false)
        } else if ty1.spec_is_integral_type() && ty2 is Pointer {
            Some(true)
        } else if decays_to(ty2, ty1) {
            Some(false)
        } else if decays_to(ty1, ty2) {
            Some(true)
        } else {
            None
        }
    }

    /// Choose the smaller, simpler of the two types if they are cast-compatible.
    pub fn smaller_compatible_type(ty1: CTypeKind, ty2: CTypeKind) -> (r: Option<CTypeKind>)
        ensures
            r == match CTypeKind::prefers_first(ty1, ty2) {
                Some(true) => Some(ty1),
                Some(false) => Some(ty2),
                None => None,
            },
    {
        if ty1 == ty2 {
            return Some(ty1);
        }
        if matches!(ty1, CTypeKind::Void) {
            return Some(ty2);
        }
        let integral1 = ty1.is_integral_type();
        let integral2 = ty2.is_integral_type();
        let floating1 = ty1.is_floating_type();
        let floating2 = ty2.is_floating_type();
        if (integral1 && integral2) || (floating1 && floating2) {
            if ty1.rank() <= ty2.rank() {
                Some(ty1)
            } else {
                Some(ty2)
            }
        } else if floating1 && integral2 {
            if ty1.width() <= ty2.width() {
                Some(ty1)
            } else {
                Some(ty2)
            }
        } else if integral1 && floating2 {
            if ty1.width() < ty2.width() {
                Some(ty1)
            } else {
                Some(ty2)
            }
        } else if ty1.is_pointer() && integral2 {
            // Keep the integer and cast to a pointer at use.
            Some(ty2)
        } else if integral1 && ty2.is_pointer() {
            Some(ty1)
        } else if ty2.decays(&ty1) {
            // Use the array and push the decay to the use of the value.
            Some(ty2)
        } else if ty1.decays(&ty2) {
            Some(ty1)
        } else {
            None
        }
    }
}

/// Unless `void` is one of them, the choice between two types does not depend
/// on their order.
pub proof fn law_choice_in_either_order(ty1: CTypeKind, ty2: CTypeKind)
    requires
        !(ty1 is Void),
        !(ty2 is Void),
        !same_type(ty1, ty2),
    ensures
        CTypeKind::prefers_first(ty2, ty1) == match CTypeKind::prefers_first(ty1, ty2) {
            Some(first) => Some(!first),
            None => None,
        },
{
}

/// Of two numeric types none is chosen that is wider than the other.
pub proof fn law_choice_is_no_wider(ty1: CTypeKind, ty2: CTypeKind)
    requires
        ty1.spec_is_integral_type() || ty1.spec_is_floating_type(),
        ty2.spec_is_integral_type() || ty2.spec_is_floating_type(),
    ensures
        CTypeKind::prefers_first(ty1, ty2) == Some(true) ==> ty1.spec_width() <= ty2.spec_width(),
        CTypeKind::prefers_first(ty1, ty2) == Some(false) ==> ty2.spec_width() <= ty1.spec_width(),
        CTypeKind::prefers_first(ty1, ty2) is Some,
{
}

/// The signed and the unsigned integral types and the floating ones are these,
/// and no type is of two of the sorts.
pub proof fn law_sorts_of_numbers(ty: CTypeKind)
    ensures
        ty.spec_is_signed_integral_type() <==> ty is Char || ty is SChar || ty is Short || ty is Int
            || ty is Long || ty is LongLong || ty is Int128,
        ty.spec_is_unsigned_integral_type() <==> ty is Bool || ty is UChar || ty is UShort
            || ty is UInt || ty is ULong || ty is ULongLong || ty is UInt128,
        ty.spec_is_floating_type() <==> ty is Float || ty is Double || ty is LongDouble,
        ty.spec_is_integral_type() <==> ty.spec_is_signed_integral_type()
            || ty.spec_is_unsigned_integral_type(),
        !(ty.spec_is_signed_integral_type() && ty.spec_is_unsigned_integral_type()),
        !(ty.spec_is_integral_type() && ty.spec_is_floating_type()),
{
}

/// Records and enums stand for their declaration, and so does a typedef where
/// those count; no other type stands for one.
pub proof fn law_types_that_stand_for_declarations(ty: CTypeKind, d: CDeclId)
    ensures
        ty.spec_as_underlying_decl() == Some(d) <==> ty == CTypeKind::Struct(d) || ty
            == CTypeKind::Union(d) || ty == CTypeKind::Enum(d),
        ty.spec_as_decl_or_typedef() == Some(d) <==> ty == CTypeKind::Typedef(d)
            || ty.spec_as_underlying_decl() == Some(d),
{
}

/// Being the same type is an equivalence, and all the parts of the types count.
pub proof fn law_same_types(a: CTypeKind, b: CTypeKind, c: CTypeKind)
    ensures
        same_type(a, a),
        same_type(a, b) == same_type(b, a),
        same_type(a, b) && same_type(b, c) ==> same_type(a, c),
        (a, b) matches (
            CTypeKind::Function(result1, params1, variadic1, no_return1, prototype1),
            CTypeKind::Function(result2, params2, variadic2, no_return2, prototype2),
        ) ==> (same_type(a, b) <==> result1 == result2 && params1@ == params2@ && variadic1
            == variadic2 && no_return1 == no_return2 && prototype1 == prototype2),
        (a, b) matches (CTypeKind::Attributed(inner1, attr1), CTypeKind::Attributed(inner2, attr2))
            ==> (same_type(a, b) <==> inner1 == inner2 && match (attr1, attr2) {
            (None, None) => true,
            (Some(x), Some(y)) => x.key() == y.key(),
            _ => false,
        }),
        !(a is Function) && !(a is Attributed) ==> (same_type(a, b) <==> a == b),
{
}

/// How one type is chosen of two: of equal ones either; never `void` first; of
/// two integral or two floating types the one that can be held in the other, of
/// an integral and a floating type the narrower, and the floating one of two
/// that are equally wide; an integer before a pointer; an array before the
/// pointer to its elements.
pub proof fn law_which_type_is_chosen(ty1: CTypeKind, ty2: CTypeKind)
    ensures
        same_type(ty1, ty2) ==> CTypeKind::prefers_first(ty1, ty2) == Some(true),
        !same_type(ty1, ty2) && ty1 is Void ==> CTypeKind::prefers_first(ty1, ty2) == Some(false),
        ty1.spec_is_integral_type() && ty2.spec_is_floating_type() ==> {
            CTypeKind::prefers_first(ty1, ty2) == Some(ty1.spec_width() < ty2.spec_width())
        },
        ty1.spec_is_integral_type() && ty2 is Pointer ==> CTypeKind::prefers_first(ty1, ty2)
            == Some(true),
        (ty1, ty2) matches (CTypeKind::ConstantArray(element, _), CTypeKind::Pointer(target))
            ==> CTypeKind::prefers_first(ty1, ty2) == if target.ctype == element {
            Some(true)
        } else {
            None
        },
        (ty1, ty2) matches (CTypeKind::IncompleteArray(element), CTypeKind::Pointer(target))
            ==> CTypeKind::prefers_first(ty1, ty2) == if target.ctype == element {
            Some(true)
        } else {
            None
        },
        (ty1, ty2) matches (CTypeKind::VariableArray(element, _), CTypeKind::Pointer(target))
            ==> CTypeKind::prefers_first(ty1, ty2) == if target.ctype == element {
            Some(true)
        } else {
            None
        },
{
}

/// Of the integral types, signed and unsigned ones in turn go up from the
/// narrowest, with `_Bool` and the characters first; of two types of one sort
/// a lower one is never wider.
pub proof fn law_lower_types_are_no_wider(ty1: CTypeKind, ty2: CTypeKind)
    requires
        (ty1.spec_is_integral_type() && ty2.spec_is_integral_type())
            || (ty1.spec_is_floating_type() && ty2.spec_is_floating_type()),
        ty1.spec_width() < ty2.spec_width() || (ty1.spec_width() == ty2.spec_width()
            && ty1.spec_rank() < ty2.spec_rank()),
    ensures
        CTypeKind::prefers_first(ty1, ty2) == Some(true),
        CTypeKind::prefers_first(ty2, ty1) == Some(false),
{
}

} // verus!
