//! Identifiers of the nodes of a syntax tree.

use vstd::prelude::*;

verus! {

/// Names a type node.
#[derive(Eq, PartialEq, Ord, PartialOrd, Hash, Debug, Copy, Clone, Structural)]
pub struct CTypeId(pub u64);

/// Names an expression node.
#[derive(Eq, PartialEq, Ord, PartialOrd, Hash, Debug, Copy, Clone, Structural)]
pub struct CExprId(pub u64);

/// Names a declaration node.
#[derive(Eq, PartialEq, Ord, PartialOrd, Hash, Debug, Copy, Clone, Structural)]
pub struct CDeclId(pub u64);

/// Names a statement node.
#[derive(Eq, PartialEq, Ord, PartialOrd, Hash, Debug, Copy, Clone, Structural)]
pub struct CStmtId(pub u64);

/// Labels point into the `CStmtKind::Label` that declared the label.
pub type CLabelId = CStmtId;

/// Records always contain `CDeclKind::Field`s.
pub type CFieldId = CDeclId;

/// Parameters always contain `CDeclKind::Variable`s.
pub type CParamId = CDeclId;

/// Function declarations always have types which are `CTypeKind::Function`.
pub type CFuncTypeId = CTypeId;

/// Record types need to point to `CDeclKind::Struct` or `CDeclKind::Union`.
pub type CRecordId = CDeclId;

/// Typedef types need to point to `CDeclKind::Typedef`.
pub type CTypedefId = CDeclId;

/// Enum types need to point to `CDeclKind::Enum`.
pub type CEnumId = CDeclId;

/// Enums need to point to child `CDeclKind::EnumConstant`s.
pub type CEnumConstantId = CDeclId;

/// Position of a source file among the files that a context keeps.
pub type FileId = usize;

/// Names a node of any of the four sorts.
#[derive(Eq, PartialEq, Hash, Debug, Copy, Clone, Structural)]
pub enum SomeId {
    Stmt(CStmtId),
    Expr(CExprId),
    Decl(CDeclId),
    Type(CTypeId),
}

} // verus!
