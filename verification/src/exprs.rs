//! C expressions (6.5): operators, literals and expression nodes.

use crate::ids::{CDeclId, CExprId, CFieldId, CStmtId, CTypeId};
use crate::source::{LRValue, Located};
use crate::types::CQualTypeId;
use vstd::prelude::*;

verus! {

/// An expression with its location.
pub type CExpr = Located<CExprKind>;

/// An `offsetof` expression may or may not be a constant.
#[derive(Debug, Clone)]
pub enum OffsetOfKind {
    /// An integer constant expression.
    Constant(u64),
    /// Struct type, field declaration, index expression.
    Variable(CQualTypeId, CDeclId, CExprId),
}

/// Represents an expression in C (6.5 Expressions).
///
/// Every node but `BadExpr` carries a qualified type. As per the C standard,
/// qualifiers on types make sense only on lvalues.
#[derive(Debug, Clone)]
pub enum CExprKind {
    Literal(CQualTypeId, CLiteral),
    // Unary operator
    Unary(CQualTypeId, UnOp, CExprId, LRValue),
    // Unary type operator
    UnaryType(CQualTypeId, UnTypeOp, Option<CExprId>, CQualTypeId),
    // `offsetof` expression
    OffsetOf(CQualTypeId, OffsetOfKind),
    // Binary operator
    Binary(CQualTypeId, BinOp, CExprId, CExprId, Option<CQualTypeId>, Option<CQualTypeId>),
    ImplicitCast(CQualTypeId, CExprId, CastKind, Option<CFieldId>, LRValue),
    ExplicitCast(CQualTypeId, CExprId, CastKind, Option<CFieldId>, LRValue),
    // Constant context expression
    ConstantExpr(CQualTypeId, CExprId, Option<ConstIntExpr>),
    // Reference to a declaration (a variable, for instance)
    DeclRef(CQualTypeId, CDeclId, LRValue),
    // Function call
    Call(CQualTypeId, CExprId, Vec<CExprId>),
    // Member access
    Member(CQualTypeId, CExprId, CDeclId, MemberKind, LRValue),
    ArraySubscript(CQualTypeId, CExprId, CExprId, LRValue),
    // Ternary conditional operator
    Conditional(CQualTypeId, CExprId, CExprId, CExprId),
    // Binary conditional operator `?:` (GNU extension)
    BinaryConditional(CQualTypeId, CExprId, CExprId),
    // Initializer list: type, initializers, union field, syntactic form
    InitList(CQualTypeId, Vec<CExprId>, Option<CFieldId>, Option<CExprId>),
    ImplicitValueInit(CQualTypeId),
    // Parenthesized expression
    Paren(CQualTypeId, CExprId),
    CompoundLiteral(CQualTypeId, CExprId),
    Predefined(CQualTypeId, CExprId),
    // Statement expression
    Statements(CQualTypeId, CStmtId),
    // Variable argument list
    VAArg(CQualTypeId, CExprId),
    // Unsupported vector operations
    ShuffleVector(CQualTypeId, Vec<CExprId>),
    ConvertVector(CQualTypeId, Vec<CExprId>),
    // From syntactic form of initializer list expressions
    DesignatedInitExpr(CQualTypeId, Vec<Designator>, CExprId),
    // GNU choose expression: condition, true case, false case, was the condition true?
    Choose(CQualTypeId, CExprId, CExprId, CExprId, bool),
    // GNU/C11 atomic expression
    Atomic {
        typ: CQualTypeId,
        name: String,
        ptr: CExprId,
        order: CExprId,
        val1: Option<CExprId>,
        order_fail: Option<CExprId>,
        val2: Option<CExprId>,
        weak: Option<CExprId>,
    },
    BadExpr,
}

#[derive(Copy, Debug, Clone, PartialEq, Eq, Structural)]
pub enum MemberKind {
    Arrow,
    Dot,
}

#[derive(Debug, Clone, Copy, PartialEq, Eq, Structural)]
pub enum CastKind {
    BitCast,
    LValueToRValue,
    NoOp,
    ToUnion,
    ArrayToPointerDecay,
    FunctionToPointerDecay,
    NullToPointer,
    IntegralToPointer,
    PointerToIntegral,
    ToVoid,
    IntegralCast,
    IntegralToBoolean,
    IntegralToFloating,
    FloatingToIntegral,
    FloatingToBoolean,
    BooleanToSignedIntegral,
    PointerToBoolean,
    FloatingCast,
    FloatingRealToComplex,
    FloatingComplexToReal,
    FloatingComplexCast,
    FloatingComplexToIntegralComplex,
    IntegralRealToComplex,
    IntegralComplexToReal,
    IntegralComplexToBoolean,
    IntegralComplexCast,
    IntegralComplexToFloatingComplex,
    BuiltinFnToFnPtr,
    ConstCast,
    VectorSplat,
}

/// Represents a unary operator in C (6.5.3 Unary operators) and GNU C extensions.
#[derive(Debug, Clone, Copy, PartialEq, Eq, Structural)]
pub enum UnOp {
    AddressOf,  // &x
    Deref,  // *x
    Plus,  // +x
    PostIncrement,  // x++
    PreIncrement,  // ++x
    Negate,  // -x
    PostDecrement,  // x--
    PreDecrement,  // --x
    Complement,  // ~x
    Not,  // !x
    Real,  // [GNU C] __real x
    Imag,  // [GNU C] __imag x
    Extension,  // [GNU C] __extension__ x
    Coawait,  // [C++ Coroutines] co_await x
}

/// Represents a unary type operator in C.
#[derive(Debug, Clone, Copy, PartialEq, Eq, Structural)]
pub enum UnTypeOp {
    SizeOf,
    AlignOf,
    PreferredAlignOf,
}

/// Represents a binary operator in C (6.5.5 Multiplicative operators - 6.5.14 Logical OR operator).
#[derive(Debug, Clone, Copy, PartialEq, Eq, Structural)]
pub enum BinOp {
    Multiply,  // *
    Divide,  // /
    Modulus,  // %
    Add,  // +
    Subtract,  // -
    ShiftLeft,  // <<
    ShiftRight,  // >>
    Less,  // <
    Greater,  // >
    LessEqual,  // <=
    GreaterEqual,  // >=
    EqualEqual,  // ==
    NotEqual,  // !=
    BitAnd,  // &
    BitXor,  // ^
    BitOr,  // |
    And,  // &&
    Or,  // ||
    AssignAdd,  // +=
    AssignSubtract,  // -=
    AssignMultiply,  // *=
    AssignDivide,  // /=
    AssignModulus,  // %=
    AssignBitXor,  // ^=
    AssignShiftLeft,  // <<=
    AssignShiftRight,  // >>=
    AssignBitOr,  // |=
    AssignBitAnd,  // &=
    Assign,  // =
    Comma,  // ,
}

#[derive(Eq, PartialEq, Debug, Copy, Clone, Structural)]
pub enum IntBase {
    Dec,
    Hex,
    Oct,
}

#[derive(Debug, Clone)]
pub enum CLiteral {
    /// Value and base.
    Integer(u64, IntBase),
    Character(u64),
    /// The bits of the IEEE 754 double, and the text that was written.
    Floating(u64, String),
    /// Literal bytes and unit byte width.
    String(Vec<u8>, u8),
}

/// Represents a constant integer expression as used in a case expression.
#[derive(Debug, Clone, Copy, Eq, PartialEq, Structural)]
pub enum ConstIntExpr {
    U(u64),
    I(i64),
}

#[derive(Copy, Clone, Debug, PartialEq, Eq, Structural)]
pub enum Designator {
    Index(u64),
    Range(u64, u64),
    Field(CFieldId),
}

/// The bits of negative zero, which equals zero as every double zero does.
pub const NEGATIVE_ZERO_BITS: u64 = 0x8000_0000_0000_0000;

impl UnOp {
    /// The operator is rendered before its operand.
    pub open spec fn spec_is_prefix(&self) -> bool {
        !(self is PostIncrement || self is PostDecrement)
    }

    /// Check if the operator is rendered before or after its operand.
    #[verifier::when_used_as_spec(spec_is_prefix)]
    pub fn is_prefix(&self) -> (r: bool)
        ensures
            r == self.spec_is_prefix(),
    {
        match self {
            UnOp::PostIncrement => false,
            UnOp::PostDecrement => false,
            _ => true,
        }
    }
}

impl BinOp {
    pub open spec fn spec_underlying_assignment(&self) -> Option<BinOp> {
        match self {
            BinOp::AssignAdd => Some(BinOp::Add),
            BinOp::AssignSubtract => Some(BinOp::Subtract),
            BinOp::AssignMultiply => Some(BinOp::Multiply),
            BinOp::AssignDivide => Some(BinOp::Divide),
            BinOp::AssignModulus => Some(BinOp::Modulus),
            BinOp::AssignBitXor => Some(BinOp::BitXor),
            BinOp::AssignShiftLeft => Some(BinOp::ShiftLeft),
            BinOp::AssignShiftRight => Some(BinOp::ShiftRight),
            BinOp::AssignBitOr => Some(BinOp::BitOr),
            BinOp::AssignBitAnd => Some(BinOp::BitAnd),
            _ => None,
        }
    }

    /// Maps compound assignment operators to the operator underlying them, and
    /// returns `None` for all other operators.
    ///
    /// For example, `AssignAdd` maps to `Some(Add)` but `Add` maps to `None`.
    #[verifier::when_used_as_spec(spec_underlying_assignment)]
    pub fn underlying_assignment(&self) -> (r: Option<BinOp>)
        ensures
            r == self.spec_underlying_assignment(),
    {
        match self {
            BinOp::AssignAdd => Some(BinOp::Add),
            BinOp::AssignSubtract => Some(BinOp::Subtract),
            BinOp::AssignMultiply => Some(BinOp::Multiply),
            BinOp::AssignDivide => Some(BinOp::Divide),
            BinOp::AssignModulus => Some(BinOp::Modulus),
            BinOp::AssignBitXor => Some(BinOp::BitXor),
            BinOp::AssignShiftLeft => Some(BinOp::ShiftLeft),
            BinOp::AssignShiftRight => Some(BinOp::ShiftRight),
            BinOp::AssignBitOr => Some(BinOp::BitOr),
            BinOp::AssignBitAnd => Some(BinOp::BitAnd),
            _ => None,
        }
    }

    /// Plain assignment, or a compound one.
    pub open spec fn spec_is_assignment(&self) -> bool {
        self is Assign || self.spec_underlying_assignment() is Some
    }

    /// Determines whether or not this is an assignment operator.
    #[verifier::when_used_as_spec(spec_is_assignment)]
    pub fn is_assignment(&self) -> (r: bool)
        ensures
            r == self.spec_is_assignment(),
    {
        match self {
            BinOp::AssignAdd
            | BinOp::AssignSubtract
            | BinOp::AssignMultiply
            | BinOp::AssignDivide
            | BinOp::AssignModulus
            | BinOp::AssignBitXor
            | BinOp::AssignShiftLeft
            | BinOp::AssignShiftRight
            | BinOp::AssignBitOr
            | BinOp::AssignBitAnd
            | BinOp::Assign => true,
            _ => false,
        }
    }
}

/// The operator under a compound assignment is no assignment, and belongs to
/// no other compound assignment.
pub proof fn law_underlying_operators(op: BinOp, other: BinOp)
    ensures
        op.spec_underlying_assignment() matches Some(under) ==> {
            &&& op.spec_is_assignment()
            &&& !under.spec_is_assignment()
            &&& other.spec_underlying_assignment() == Some(under) ==> other == op
        },
{
}

impl CLiteral {
    /// Whether the literal counts as true: a number does unless it is zero,
    /// and a string always does.
    pub open spec fn spec_get_bool(&self) -> bool {
        match self {
            CLiteral::Integer(value, _) => *value != 0,
            CLiteral::Character(value) => *value != 0,
            CLiteral::Floating(bits, _) => *bits != 0 && *bits != NEGATIVE_ZERO_BITS,
            CLiteral::String(_, _) => true,
        }
    }

    /// Determine the truthiness or falsiness of the literal.
    #[verifier::when_used_as_spec(spec_get_bool)]
    pub fn get_bool(&self) -> (r: bool)
        ensures
            r == self.spec_get_bool(),
    {
        match self {
            CLiteral::Integer(value, _) => *value != 0,
            CLiteral::Character(value) => *value != 0,
            CLiteral::Floating(bits, _) => *bits != 0 && *bits != NEGATIVE_ZERO_BITS,
            CLiteral::String(_, _) => true,
        }
    }
}

impl CExprKind {
    pub open spec fn spec_lrvalue(&self) -> LRValue {
        match self {
            CExprKind::Unary(_, _, _, lrvalue) => *lrvalue,
            CExprKind::DeclRef(_, _, lrvalue) => *lrvalue,
            CExprKind::ImplicitCast(_, _, _, _, lrvalue) => *lrvalue,
            CExprKind::ExplicitCast(_, _, _, _, lrvalue) => *lrvalue,
            CExprKind::Member(_, _, _, _, lrvalue) => *lrvalue,
            CExprKind::ArraySubscript(_, _, _, lrvalue) => *lrvalue,
            _ => LRValue::RValue,
        }
    }

    /// Whether the expression is an lvalue: as its node says, and an rvalue
    /// where the node does not say.
    #[verifier::when_used_as_spec(spec_lrvalue)]
    pub fn lrvalue(&self) -> (r: LRValue)
        ensures
            r == self.spec_lrvalue(),
    {
        match self {
            CExprKind::Unary(_, _, _, lrvalue)
            | CExprKind::DeclRef(_, _, lrvalue)
            | CExprKind::ImplicitCast(_, _, _, _, lrvalue)
            | CExprKind::ExplicitCast(_, _, _, _, lrvalue)
            | CExprKind::Member(_, _, _, _, lrvalue)
            | CExprKind::ArraySubscript(_, _, _, lrvalue) => *lrvalue,
            _ => LRValue::RValue,
        }
    }

    pub open spec fn spec_get_qual_type(&self) -> Option<CQualTypeId> {
        match self {
            CExprKind::BadExpr => None,
            CExprKind::Literal(ty, _) => Some(*ty),
            CExprKind::OffsetOf(ty, _) => Some(*ty),
            CExprKind::Unary(ty, _, _, _) => Some(*ty),
            CExprKind::UnaryType(ty, _, _, _) => Some(*ty),
            CExprKind::Binary(ty, _, _, _, _, _) => Some(*ty),
            CExprKind::ImplicitCast(ty, _, _, _, _) => Some(*ty),
            CExprKind::ExplicitCast(ty, _, _, _, _) => Some(*ty),
            CExprKind::DeclRef(ty, _, _) => Some(*ty),
            CExprKind::Call(ty, _, _) => Some(*ty),
            CExprKind::Member(ty, _, _, _, _) => Some(*ty),
            CExprKind::ArraySubscript(ty, _, _, _) => Some(*ty),
            CExprKind::Conditional(ty, _, _, _) => Some(*ty),
            CExprKind::BinaryConditional(ty, _, _) => Some(*ty),
            CExprKind::InitList(ty, _, _, _) => Some(*ty),
            CExprKind::ImplicitValueInit(ty) => Some(*ty),
            CExprKind::Paren(ty, _) => Some(*ty),
            CExprKind::CompoundLiteral(ty, _) => Some(*ty),
            CExprKind::Predefined(ty, _) => Some(*ty),
            CExprKind::Statements(ty, _) => Some(*ty),
            CExprKind::VAArg(ty, _) => Some(*ty),
            CExprKind::ShuffleVector(ty, _) => Some(*ty),
            CExprKind::ConvertVector(ty, _) => Some(*ty),
            CExprKind::DesignatedInitExpr(ty, _, _) => Some(*ty),
            CExprKind::ConstantExpr(ty, _, _) => Some(*ty),
            CExprKind::Choose(ty, _, _, _, _) => Some(*ty),
            CExprKind::Atomic { typ, .. } => Some(*typ),
        }
    }

    /// The qualified type of the expression; only `BadExpr` has none.
    #[verifier::when_used_as_spec(spec_get_qual_type)]
    pub fn get_qual_type(&self) -> (r: Option<CQualTypeId>)
        ensures
            r == self.spec_get_qual_type(),
            r is None <==> self is BadExpr,
    {
        match self {
            CExprKind::BadExpr => None,
            CExprKind::Literal(ty, _)
            | CExprKind::OffsetOf(ty, _)
            | CExprKind::Unary(ty, _, _, _)
            | CExprKind::UnaryType(ty, _, _, _)
            | CExprKind::Binary(ty, _, _, _, _, _)
            | CExprKind::ImplicitCast(ty, _, _, _, _)
            | CExprKind::ExplicitCast(ty, _, _, _, _)
            | CExprKind::DeclRef(ty, _, _)
            | CExprKind::Call(ty, _, _)
            | CExprKind::Member(ty, _, _, _, _)
            | CExprKind::ArraySubscript(ty, _, _, _)
            | CExprKind::Conditional(ty, _, _, _)
            | CExprKind::BinaryConditional(ty, _, _)
            | CExprKind::InitList(ty, _, _, _)
            | CExprKind::ImplicitValueInit(ty)
            | CExprKind::Paren(ty, _)
            | CExprKind::CompoundLiteral(ty, _)
            | CExprKind::Predefined(ty, _)
            | CExprKind::Statements(ty, _)
            | CExprKind::VAArg(ty, _)
            | CExprKind::ShuffleVector(ty, _)
            | CExprKind::ConvertVector(ty, _)
            | CExprKind::DesignatedInitExpr(ty, _, _)
            | CExprKind::ConstantExpr(ty, _, _)
            | CExprKind::Choose(ty, _, _, _, _)
            | CExprKind::Atomic { typ: ty, .. } => Some(*ty),
        }
    }

    pub open spec fn spec_get_type(&self) -> Option<CTypeId> {
        match self.spec_get_qual_type() {
            Some(ty) => Some(ty.ctype),
            None => None,
        }
    }

    /// The type of the expression, without its qualifiers.
    #[verifier::when_used_as_spec(spec_get_type)]
    pub fn get_type(&self) -> (r: Option<CTypeId>)
        ensures
            r == self.spec_get_type(),
    {
        match self.get_qual_type() {
            Some(ty) => Some(ty.ctype),
            None => None,
        }
    }

    /// Try to determine the truthiness or falsiness of the expression. Return
    /// `None` if we can't say anything.
    pub fn get_bool(&self) -> (r: Option<bool>)
        ensures
            r == match self {
                CExprKind::Literal(_, literal) => Some(literal.spec_get_bool()),
                _ => None,
            },
    {
        match self {
            CExprKind::Literal(_, literal) => Some(literal.get_bool()),
            _ => None,
        }
    }
}

/// Every expression but a bad one has the qualified type that its node carries,
/// and its type is that one without the qualifiers.
pub proof fn law_types_are_those_of_the_node(kind: CExprKind)
    ensures
        match kind {
            CExprKind::BadExpr => kind.spec_get_qual_type() is None,
            CExprKind::Literal(ty, _)
            | CExprKind::Unary(ty, _, _, _)
            | CExprKind::UnaryType(ty, _, _, _)
            | CExprKind::OffsetOf(ty, _)
            | CExprKind::Binary(ty, _, _, _, _, _)
            | CExprKind::ImplicitCast(ty, _, _, _, _)
            | CExprKind::ExplicitCast(ty, _, _, _, _)
            | CExprKind::ConstantExpr(ty, _, _)
            | CExprKind::DeclRef(ty, _, _)
            | CExprKind::Call(ty, _, _)
            | CExprKind::Member(ty, _, _, _, _)
            | CExprKind::ArraySubscript(ty, _, _, _)
            | CExprKind::Conditional(ty, _, _, _)
            | CExprKind::BinaryConditional(ty, _, _)
            | CExprKind::InitList(ty, _, _, _)
            | CExprKind::ImplicitValueInit(ty)
            | CExprKind::Paren(ty, _)
            | CExprKind::CompoundLiteral(ty, _)
            | CExprKind::Predefined(ty, _)
            | CExprKind::Statements(ty, _)
            | CExprKind::VAArg(ty, _)
            | CExprKind::ShuffleVector(ty, _)
            | CExprKind::ConvertVector(ty, _)
            | CExprKind::DesignatedInitExpr(ty, _, _)
            | CExprKind::Choose(ty, _, _, _, _)
            | CExprKind::Atomic { typ: ty, .. } => kind.spec_get_qual_type() == Some(ty),
        },
        kind.spec_get_qual_type() matches Some(ty) ==> kind.spec_get_type() == Some(ty.ctype),
        kind.spec_get_qual_type() is None ==> kind.spec_get_type() is None,
{
}

/// An expression is an lvalue exactly if its node has a mark that says so.
pub proof fn law_lvalues_are_marked(kind: CExprKind)
    ensures
        kind.spec_lrvalue() == LRValue::LValue <==> match kind {
            CExprKind::Unary(_, _, _, mark)
            | CExprKind::DeclRef(_, _, mark)
            | CExprKind::ImplicitCast(_, _, _, _, mark)
            | CExprKind::ExplicitCast(_, _, _, _, mark)
            | CExprKind::Member(_, _, _, _, mark)
            | CExprKind::ArraySubscript(_, _, _, mark) => mark == LRValue::LValue,
            _ => false,
        },
{
}

/// Only zero is false: the integer and the character, and both zeros of the
/// floating-point numbers. Strings are true.
pub proof fn law_only_zero_is_false(literal: CLiteral)
    ensures
        !literal.spec_get_bool() <==> match literal {
            CLiteral::Integer(value, _) => value == 0,
            CLiteral::Character(value) => value == 0,
            CLiteral::Floating(bits, _) => bits == 0 || bits == 0x8000_0000_0000_0000,
            CLiteral::String(_, _) => false,
        },
{
}

/// Each compound assignment stands for one operator, and the assignments are
/// these and the plain one.
pub proof fn law_assignments_and_their_operators(op: BinOp)
    ensures
        op.spec_is_assignment() <==> op == BinOp::Assign || op.spec_underlying_assignment() is Some,
        op.spec_underlying_assignment() == Some(BinOp::Add) <==> op == BinOp::AssignAdd,
        op.spec_underlying_assignment() == Some(BinOp::Subtract) <==> op == BinOp::AssignSubtract,
        op.spec_underlying_assignment() == Some(BinOp::Multiply) <==> op == BinOp::AssignMultiply,
        op.spec_underlying_assignment() == Some(BinOp::Divide) <==> op == BinOp::AssignDivide,
        op.spec_underlying_assignment() == Some(BinOp::Modulus) <==> op == BinOp::AssignModulus,
        op.spec_underlying_assignment() == Some(BinOp::BitXor) <==> op == BinOp::AssignBitXor,
        op.spec_underlying_assignment() == Some(BinOp::ShiftLeft) <==> op
            == BinOp::AssignShiftLeft,
        op.spec_underlying_assignment() == Some(BinOp::ShiftRight) <==> op
            == BinOp::AssignShiftRight,
        op.spec_underlying_assignment() == Some(BinOp::BitOr) <==> op == BinOp::AssignBitOr,
        op.spec_underlying_assignment() == Some(BinOp::BitAnd) <==> op == BinOp::AssignBitAnd,
{
}

/// The two operators that come after their operand are those that give the
/// value from before the change; all others come before it.
pub proof fn law_postfix_operators(op: UnOp)
    ensures
        !op.spec_is_prefix() <==> op == UnOp::PostIncrement || op == UnOp::PostDecrement,
{
}

} // verus!
