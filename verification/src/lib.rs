//! A typed C syntax tree: the nodes, the context that owns them, and the
//! questions a translator asks of it.

pub mod attributes;
pub mod chain;
pub mod comments;
pub mod context;
pub mod decl_map;
pub mod decls;
pub mod exprs;
pub mod files;
pub mod ids;
pub mod iterators;
pub mod locations;
pub mod nodes;
pub mod order;
pub mod paths;
pub mod prune;
pub mod prune_laws;
pub mod purity;
pub mod resolve;
pub mod source;
pub mod stmts;
pub mod text;
pub mod types;

pub use attributes::{Attribute, AttributeSet};
pub use comments::CommentContext;
pub use context::TypedAstContext;
pub use decls::{CDecl, CDeclKind};
pub use exprs::{
    BinOp, CExpr, CExprKind, CLiteral, CastKind, ConstIntExpr, Designator, IntBase, MemberKind,
    OffsetOfKind, UnOp, UnTypeOp,
};
pub use ids::{
    CDeclId, CEnumConstantId, CEnumId, CExprId, CFieldId, CFuncTypeId, CLabelId, CParamId,
    CRecordId, CStmtId, CTypeId, CTypedefId, FileId, SomeId,
};
pub use locations::DisplaySrcSpan;
pub use nodes::{CType, NodeTable};
pub use source::{BuiltinVaListKind, LRValue, Located, SrcFile, SrcLoc, SrcSpan};
pub use stmts::{AsmOperand, CStmt, CStmtKind};
pub use types::{CQualTypeId, CTypeKind, Qualifiers};
