//! The context that owns all the nodes of a syntax tree.

use crate::chain::{
    chain_end, chain_len, lemma_chain_end_stops, lemma_chain_step, stops, Step,
};
use crate::decl_map::{prenamed_entries, prenamed_map_new};
use crate::decls::CDecl;
use crate::exprs::{CExpr, CExprKind};
use crate::files::{distinct_files, includer, SourceTable};
use crate::ids::{CDeclId, CExprId, CStmtId, CTypeId, SomeId};
use crate::nodes::{CType, NodeTable};
use crate::source::{BuiltinVaListKind, Located, SrcFile, SrcSpan};
use crate::stmts::CStmt;
use indexmap::IndexMap;
use std::collections::HashMap;
use std::ops::Index;
use vstd::prelude::*;

verus! {

/// All that is known of a C translation unit.
#[derive(Debug, Clone)]
pub struct TypedAstContext {
    /// The types, expressions, statements and declarations.
    pub nodes: NodeTable,
    pub c_decls_top: Vec<CDeclId>,
    pub c_main: Option<CDeclId>,
    /// Record fields and enum constants to what declares them.
    pub parents: HashMap<u64, CDeclId>,
    /// The files that the nodes are located in.
    pub sources: SourceTable,
    /// Expressions to the stack of macros they were expanded from.
    pub macro_invocations: HashMap<u64, Vec<CDeclId>>,
    /// Macro declarations to the expressions they expand to.
    pub macro_expansions: HashMap<u64, Vec<CExprId>>,
    /// Expressions to the text of the macro invocation they expanded from, if any.
    pub macro_expansion_text: HashMap<u64, String>,
    pub comments: Vec<Located<String>>,
    /// The typedef declaration being squashed away, to the declaration of the
    /// corresponding structure.
    pub prenamed_decls: IndexMap<u64, CDeclId>,
    pub va_list_kind: BuiltinVaListKind,
    pub target: String,
}

/// What an expression number without a node stands for.
pub open spec fn bad_expr() -> CExpr {
    Located { loc: None, kind: CExprKind::BadExpr }
}

/// Through a parenthesized expression to the one inside.
pub open spec fn paren_step(exprs: Map<u64, CExpr>) -> spec_fn(CExprId) -> Step<CExprId> {
    |id: CExprId|
        if exprs.contains_key(id.0) {
            match exprs[id.0].kind {
                CExprKind::Paren(_, inner) => Step::Next(inner),
                _ => Step::Stop,
            }
        } else {
            Step::Stop
        }
}

impl TypedAstContext {
    /// The tables are consistent in themselves.
    pub open spec fn wf(&self) -> bool {
        self.nodes.wf() && self.sources.wf()
    }

    pub open spec fn has_type(&self, id: CTypeId) -> bool {
        self.nodes.types().contains_key(id.0)
    }

    pub open spec fn type_at(&self, id: CTypeId) -> CType {
        self.nodes.types()[id.0]
    }

    pub open spec fn has_stmt(&self, id: CStmtId) -> bool {
        self.nodes.stmts().contains_key(id.0)
    }

    pub open spec fn stmt_at(&self, id: CStmtId) -> CStmt {
        self.nodes.stmts()[id.0]
    }

    pub open spec fn has_decl(&self, id: CDeclId) -> bool {
        self.nodes.decls().contains_key(id.0)
    }

    pub open spec fn decl_at(&self, id: CDeclId) -> CDecl {
        self.nodes.decls()[id.0]
    }

    /// The parentheses around the expression are finitely many.
    pub open spec fn has_expr(&self, id: CExprId) -> bool {
        stops(paren_step(self.nodes.exprs()), id)
    }

    /// The expression inside all the parentheses; a number without a node
    /// stands for a bad expression.
    pub open spec fn expr_at(&self, id: CExprId) -> CExpr {
        let inner = chain_end(paren_step(self.nodes.exprs()), id);
        if self.nodes.exprs().contains_key(inner.0) {
            self.nodes.exprs()[inner.0]
        } else {
            bad_expr()
        }
    }

    /// All the fields but the nodes are as `other` has them.
    pub open spec fn same_but_nodes(&self, other: &TypedAstContext) -> bool {
        *self == TypedAstContext { nodes: self.nodes, ..*other }
    }

    /// A context without nodes, for the files that the front end read. Of the
    /// files with one path the first is kept.
    pub fn new(clang_files: &[SrcFile]) -> (r: TypedAstContext)
        requires
            forall|i: int|
                0 <= i < distinct_files(clang_files@).len() ==> stops(
                    includer(clang_files@),
                    #[trigger] distinct_files(clang_files@)[i],
                ),
        ensures
            r.wf(),
            r.nodes.types() == Map::<u64, CType>::empty(),
            r.nodes.exprs() == Map::<u64, CExpr>::empty(),
            r.nodes.stmts() == Map::<u64, CStmt>::empty(),
            r.nodes.decls() == Map::<u64, CDecl>::empty(),
            r.nodes.decl_order() == Seq::<u64>::empty(),
            r.sources.describes(clang_files@),
            r.c_decls_top@ == Seq::<CDeclId>::empty(),
            r.c_main is None,
            r.parents@ == Map::<u64, CDeclId>::empty(),
            r.macro_invocations@ == Map::<u64, Vec<CDeclId>>::empty(),
            r.macro_expansions@ == Map::<u64, Vec<CExprId>>::empty(),
            r.macro_expansion_text@ == Map::<u64, String>::empty(),
            r.comments@ == Seq::<Located<String>>::empty(),
            prenamed_entries(r.prenamed_decls) == Seq::<(u64, CDeclId)>::empty(),
            r.va_list_kind == BuiltinVaListKind::CharPtrBuiltinVaList,
            r.target@ == Seq::<char>::empty(),
    {
        TypedAstContext {
            nodes: NodeTable::new(),
            c_decls_top: Vec::new(),
            c_main: None,
            parents: HashMap::new(),
            sources: SourceTable::new(clang_files),
            macro_invocations: HashMap::new(),
            macro_expansions: HashMap::new(),
            macro_expansion_text: HashMap::new(),
            comments: Vec::new(),
            prenamed_decls: prenamed_map_new(),
            va_list_kind: BuiltinVaListKind::CharPtrBuiltinVaList,
            target: String::new(),
        }
    }

    /// The declaration with that number, if there is one.
    pub fn get_decl(&self, key: &CDeclId) -> (r: Option<&CDecl>)
        ensures
            r == (if self.has_decl(*key) {
                Some(&self.decl_at(*key))
            } else {
                None
            }),
    {
        self.nodes.get_decl(key.0)
    }

    /// The declarations with their numbers, in the order in which they were
    /// added.
    pub fn iter_decls(&self) -> (r: Vec<(CDeclId, &CDecl)>)
        ensures
            r@.len() == self.nodes.decl_order().len(),
            forall|i: int|
                0 <= i < r@.len() ==> {
                    &&& (#[trigger] r@[i]).0 == CDeclId(self.nodes.decl_order()[i])
                    &&& *r@[i].1 == self.nodes.decls()[self.nodes.decl_order()[i]]
                },
    {
        let mut r: Vec<(CDeclId, &CDecl)> = Vec::new();
        let mut next = self.nodes.decl_at(r.len());
        while next.is_some()
            invariant
                r@.len() <= self.nodes.decl_order().len(),
                match next {
                    Some((key, decl)) => {
                        &&& r@.len() < self.nodes.decl_order().len()
                        &&& key == self.nodes.decl_order()[r@.len() as int]
                        &&& *decl == self.nodes.decls()[key]
                    },
                    None => r@.len() >= self.nodes.decl_order().len(),
                },
                forall|j: int|
                    0 <= j < r@.len() ==> {
                        &&& (#[trigger] r@[j]).0 == CDeclId(self.nodes.decl_order()[j])
                        &&& *r@[j].1 == self.nodes.decls()[self.nodes.decl_order()[j]]
                    },
            decreases self.nodes.decl_order().len() - r@.len(),
        {
            let (key, decl) = next.unwrap();
            r.push((CDeclId(key), decl));
            next = self.nodes.decl_at(r.len());
        }
        r
    }

    /// The declaration at a place in that order, open to change.
    pub fn iter_mut_decls(&mut self, index: usize) -> (r: Option<(CDeclId, &mut CDecl)>)
        requires
            old(self).nodes.wf(),
        ensures
            match r {
                Some((id, decl)) => {
                    &&& index < old(self).nodes.decl_order().len()
                    &&& id == CDeclId(old(self).nodes.decl_order()[index as int])
                    &&& *decl == old(self).decl_at(id)
                    &&& final(self).nodes.decls() == old(self).nodes.decls().insert(
                        id.0,
                        *final(decl),
                    )
                    &&& final(self).nodes.wf()
                    &&& final(self).nodes.types() == old(self).nodes.types()
                    &&& final(self).nodes.exprs() == old(self).nodes.exprs()
                    &&& final(self).nodes.stmts() == old(self).nodes.stmts()
                    &&& final(self).nodes.decl_order() == old(self).nodes.decl_order()
                    &&& final(self).same_but_nodes(old(self))
                },
                None => index >= old(self).nodes.decl_order().len() && *final(self) == *old(self),
            },
    {
        match self.nodes.decl_at_mut(index) {
            Some((key, decl)) => Some((CDeclId(key), decl)),
            None => None,
        }
    }

    /// Where a node is located.
    pub open spec fn loc_at(&self, id: SomeId) -> Option<SrcSpan> {
        match id {
            SomeId::Stmt(id) => self.stmt_at(id).loc,
            SomeId::Expr(id) => self.expr_at(id).loc,
            SomeId::Decl(id) => self.decl_at(id).loc,
            SomeId::Type(id) => self.type_at(id).loc,
        }
    }

    /// The node is there; an expression is so if its parentheses come to an end.
    pub open spec fn has_node(&self, id: SomeId) -> bool {
        match id {
            SomeId::Stmt(id) => self.has_stmt(id),
            SomeId::Expr(id) => self.has_expr(id),
            SomeId::Decl(id) => self.has_decl(id),
            SomeId::Type(id) => self.has_type(id),
        }
    }

    /// Where a node is located, if it has a location.
    pub fn get_src_loc(&self, id: SomeId) -> (r: Option<SrcSpan>)
        requires
            self.has_node(id),
        ensures
            r == self.loc_at(id),
    {
        match id {
            SomeId::Stmt(id) => self.index(id).loc,
            SomeId::Expr(id) => self.index(id).loc,
            SomeId::Decl(id) => self.index(id).loc,
            SomeId::Type(id) => self.index(id).loc,
        }
    }
}

impl vstd::std_specs::core::IndexSpecImpl<CTypeId> for TypedAstContext {
    open spec fn index_req(&self, index: &CTypeId) -> bool {
        self.has_type(*index)
    }
}

impl Index<CTypeId> for TypedAstContext {
    type Output = CType;

    fn index(&self, index: CTypeId) -> (output: &CType)
        ensures
            *output == self.type_at(index),
    {
        self.nodes.get_type(index.0).unwrap()
    }
}

impl vstd::std_specs::core::IndexSpecImpl<CExprId> for TypedAstContext {
    open spec fn index_req(&self, index: &CExprId) -> bool {
        self.has_expr(*index)
    }
}

impl Index<CExprId> for TypedAstContext {
    type Output = CExpr;

    /// Looks through parentheses.
    fn index(&self, index: CExprId) -> (output: &CExpr)
        ensures
            *output == self.expr_at(index),
    {
        let ghost step = paren_step(self.nodes.exprs());
        let mut cur = index;
        loop
            invariant
                step == paren_step(self.nodes.exprs()),
                stops(step, cur),
                chain_end(step, cur) == chain_end(step, index),
            decreases chain_len(step, cur),
        {
            proof {
                lemma_chain_step(step, cur);
            }
            match self.nodes.get_expr(cur.0) {
                None => {
                    return &Located { loc: None, kind: CExprKind::BadExpr };
                },
                Some(expr) => {
                    if let CExprKind::Paren(_, inner) = &expr.kind {
                        cur = *inner;
                    } else {
                        return expr;
                    }
                },
            }
        }
    }
}

impl vstd::std_specs::core::IndexSpecImpl<CDeclId> for TypedAstContext {
    open spec fn index_req(&self, index: &CDeclId) -> bool {
        self.has_decl(*index)
    }
}

impl Index<CDeclId> for TypedAstContext {
    type Output = CDecl;

    fn index(&self, index: CDeclId) -> (output: &CDecl)
        ensures
            *output == self.decl_at(index),
    {
        self.nodes.get_decl(index.0).unwrap()
    }
}

impl vstd::std_specs::core::IndexSpecImpl<CStmtId> for TypedAstContext {
    open spec fn index_req(&self, index: &CStmtId) -> bool {
        self.has_stmt(*index)
    }
}

impl Index<CStmtId> for TypedAstContext {
    type Output = CStmt;

    fn index(&self, index: CStmtId) -> (output: &CStmt)
        ensures
            *output == self.stmt_at(index),
    {
        self.nodes.get_stmt(index.0).unwrap()
    }
}

/// A parenthesized expression stands for the one inside, any other expression
/// for itself, and a number without a node for a bad expression without a
/// location.
pub proof fn law_parentheses_are_transparent(ctx: TypedAstContext, id: CExprId)
    ensures
        if !ctx.nodes.exprs().contains_key(id.0) {
            &&& ctx.has_expr(id)
            &&& ctx.expr_at(id).kind is BadExpr
            &&& ctx.expr_at(id).loc is None
        } else {
            match ctx.nodes.exprs()[id.0].kind {
                CExprKind::Paren(_, inner) => {
                    &&& ctx.has_expr(id) <==> ctx.has_expr(inner)
                    &&& ctx.has_expr(id) ==> ctx.expr_at(id) == ctx.expr_at(inner)
                },
                _ => ctx.has_expr(id) && ctx.expr_at(id) == ctx.nodes.exprs()[id.0],
            }
        },
{
    lemma_chain_step(paren_step(ctx.nodes.exprs()), id);
}

/// What is inside all the parentheses is not in parentheses itself.
pub proof fn law_no_parentheses_are_left(ctx: TypedAstContext, id: CExprId)
    requires
        ctx.has_expr(id),
    ensures
        !(ctx.expr_at(id).kind is Paren),
{
    lemma_chain_end_stops(paren_step(ctx.nodes.exprs()), id);
}

/// A node is located where the table of its sort has it.
pub proof fn law_nodes_are_located_in_their_table(ctx: TypedAstContext, id: SomeId)
    ensures
        match id {
            SomeId::Stmt(s) => {
                &&& ctx.has_node(id) <==> ctx.nodes.stmts().contains_key(s.0)
                &&& ctx.loc_at(id) == ctx.nodes.stmts()[s.0].loc
            },
            SomeId::Decl(d) => {
                &&& ctx.has_node(id) <==> ctx.nodes.decls().contains_key(d.0)
                &&& ctx.loc_at(id) == ctx.nodes.decls()[d.0].loc
            },
            SomeId::Type(t) => {
                &&& ctx.has_node(id) <==> ctx.nodes.types().contains_key(t.0)
                &&& ctx.loc_at(id) == ctx.nodes.types()[t.0].loc
            },
            SomeId::Expr(e) => {
                &&& ctx.has_node(id) <==> ctx.has_expr(e)
                &&& ctx.loc_at(id) == ctx.expr_at(e).loc
            },
        },
{
}

} // verus!
