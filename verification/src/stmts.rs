//! C statements (6.8).

use crate::exprs::ConstIntExpr;
use crate::ids::{CDeclId, CExprId, CLabelId, CStmtId};
use crate::source::Located;
use vstd::prelude::*;

verus! {

/// A statement with its location.
pub type CStmt = Located<CStmtKind>;

/// Represents a statement in C (6.8 Statements).
#[derive(Debug, Clone)]
pub enum CStmtKind {
    // Labeled statements (6.8.1), each with the substatement that comes after
    Label(CStmtId),
    Case(CExprId, CStmtId, ConstIntExpr),
    Default(CStmtId),
    // Compound statements (6.8.2)
    Compound(Vec<CStmtId>),
    // Expression and null statements (6.8.3)
    Expr(CExprId),
    Empty,
    // Selection statements (6.8.4)
    If { scrutinee: CExprId, true_variant: CStmtId, false_variant: Option<CStmtId> },
    Switch { scrutinee: CExprId, body: CStmtId },
    // Iteration statements (6.8.5)
    While { condition: CExprId, body: CStmtId },
    DoWhile { body: CStmtId, condition: CExprId },
    ForLoop {
        init: Option<CStmtId>,
        condition: Option<CExprId>,
        increment: Option<CExprId>,
        body: CStmtId,
    },
    // Jump statements (6.8.6)
    Goto(CLabelId),
    Break,
    Continue,
    Return(Option<CExprId>),
    // Declarations (variables, etc.)
    Decls(Vec<CDeclId>),
    // GCC inline assembly
    Asm {
        asm_text: String,
        inputs: Vec<AsmOperand>,
        outputs: Vec<AsmOperand>,
        clobbers: Vec<String>,
        is_volatile: bool,
    },
}

/// An operand of an inline assembly statement.
#[derive(Clone, Debug)]
pub struct AsmOperand {
    pub constraints: String,
    pub expression: CExprId,
}

} // verus!
