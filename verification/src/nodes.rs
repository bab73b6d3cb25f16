//! The table of nodes: types, expressions and statements by their number, and
//! declarations by their number in the order in which they were added.

use crate::decl_map::{
    decl_entries, decl_keys, decl_map_get, decl_map_get_index, decl_map_get_index_mut,
    decl_map_insert, decl_map_new, decl_map_retain,
};
use crate::decls::CDecl;
use crate::exprs::CExpr;
use crate::source::Located;
use crate::stmts::CStmt;
use crate::types::CTypeKind;
use indexmap::IndexMap;
use std::collections::{HashMap, HashSet};
use vstd::prelude::*;

verus! {

/// A type with its location.
pub type CType = Located<CTypeKind>;

/// The nodes of a syntax tree.
#[derive(Debug, Clone)]
pub struct NodeTable {
    c_types: HashMap<u64, CType>,
    c_exprs: HashMap<u64, CExpr>,
    c_stmts: HashMap<u64, CStmt>,
    // Walked over to export all defined types, so its order has to be stable.
    c_decls: IndexMap<u64, CDecl>,
}

/// What a filtered sequence holds, and that filtering adds no repetition.
proof fn lemma_filter(s: Seq<u64>, keep: spec_fn(u64) -> bool)
    ensures
        forall|x: u64| #[trigger] s.filter(keep).contains(x) <==> s.contains(x) && keep(x),
        s.no_duplicates() ==> s.filter(keep).no_duplicates(),
    decreases s.len(),
{
    reveal(Seq::filter);
    if s.len() > 0 {
        let rest = s.drop_last();
        let last = s.last();
        lemma_filter(rest, keep);
        let kept = rest.filter(keep);
        assert(s.contains(last)) by {
            assert(s[s.len() - 1] == last);
        }
        assert forall|x: u64| #[trigger] s.filter(keep).contains(x) <==> s.contains(x) && keep(
            x,
        ) by {
            if s.contains(x) && x != last {
                let i = choose|i: int| 0 <= i < s.len() && s[i] == x;
                assert(rest[i] == x);
            }
            if rest.contains(x) {
                let i = choose|i: int| 0 <= i < rest.len() && rest[i] == x;
                assert(s[i] == x);
            }
            if kept.contains(x) {
                let i = choose|i: int| 0 <= i < kept.len() && kept[i] == x;
                if keep(last) {
                    assert(kept.push(last)[i] == x);
                }
            }
            if keep(last) {
                assert(kept.push(last)[kept.len() as int] == last);
                if kept.push(last).contains(x) && x != last {
                    let i = choose|i: int|
                        0 <= i < kept.push(last).len() && kept.push(last)[i] == x;
                    assert(kept[i] == x);
                }
            }
        }
        if s.no_duplicates() {
            assert(!rest.contains(last));
            assert(!kept.contains(last));
        }
    }
}

impl NodeTable {
    /// The types, by their number.
    pub closed spec fn types(&self) -> Map<u64, CType> {
        self.c_types@
    }

    /// The expressions, by their number.
    pub closed spec fn exprs(&self) -> Map<u64, CExpr> {
        self.c_exprs@
    }

    /// The statements, by their number.
    pub closed spec fn stmts(&self) -> Map<u64, CStmt> {
        self.c_stmts@
    }

    /// The declarations, by their number.
    pub closed spec fn decls(&self) -> Map<u64, CDecl> {
        decl_entries(self.c_decls)
    }

    /// The numbers of the declarations, in the order in which they were added.
    pub closed spec fn decl_order(&self) -> Seq<u64> {
        decl_keys(self.c_decls)
    }

    /// The order lists every declaration once.
    pub open spec fn wf(&self) -> bool {
        &&& self.decl_order().no_duplicates()
        &&& forall|key: u64| #[trigger]
            self.decl_order().contains(key) <==> self.decls().contains_key(key)
    }

    /// A table without nodes.
    pub fn new() -> (r: NodeTable)
        ensures
            r.wf(),
            r.types() == Map::<u64, CType>::empty(),
            r.exprs() == Map::<u64, CExpr>::empty(),
            r.stmts() == Map::<u64, CStmt>::empty(),
            r.decls() == Map::<u64, CDecl>::empty(),
            r.decl_order() == Seq::<u64>::empty(),
    {
        NodeTable {
            c_types: HashMap::new(),
            c_exprs: HashMap::new(),
            c_stmts: HashMap::new(),
            c_decls: decl_map_new(),
        }
    }

    /// Adds a type, or replaces the one with that number.
    pub fn insert_type(&mut self, key: u64, typ: CType)
        ensures
            final(self).types() == old(self).types().insert(key, typ),
            final(self).exprs() == old(self).exprs(),
            final(self).stmts() == old(self).stmts(),
            final(self).decls() == old(self).decls(),
            final(self).decl_order() == old(self).decl_order(),
    {
        self.c_types.insert(key, typ);
    }

    /// Adds an expression, or replaces the one with that number.
    pub fn insert_expr(&mut self, key: u64, expr: CExpr)
        ensures
            final(self).types() == old(self).types(),
            final(self).exprs() == old(self).exprs().insert(key, expr),
            final(self).stmts() == old(self).stmts(),
            final(self).decls() == old(self).decls(),
            final(self).decl_order() == old(self).decl_order(),
    {
        self.c_exprs.insert(key, expr);
    }

    /// Adds a statement, or replaces the one with that number.
    pub fn insert_stmt(&mut self, key: u64, stmt: CStmt)
        ensures
            final(self).types() == old(self).types(),
            final(self).exprs() == old(self).exprs(),
            final(self).stmts() == old(self).stmts().insert(key, stmt),
            final(self).decls() == old(self).decls(),
            final(self).decl_order() == old(self).decl_order(),
    {
        self.c_stmts.insert(key, stmt);
    }

    /// Adds a declaration at the end, or replaces the one with that number in
    /// its place.
    pub fn insert_decl(&mut self, key: u64, decl: CDecl)
        requires
            old(self).wf(),
        ensures
            final(self).wf(),
            final(self).types() == old(self).types(),
            final(self).exprs() == old(self).exprs(),
            final(self).stmts() == old(self).stmts(),
            final(self).decls() == old(self).decls().insert(key, decl),
            final(self).decl_order() == if old(self).decls().contains_key(key) {
                old(self).decl_order()
            } else {
                old(self).decl_order().push(key)
            },
    {
        let _ = decl_map_insert(&mut self.c_decls, key, decl);
        proof {
            let before = old(self).decl_order();
            let after = self.decl_order();
            if !old(self).decls().contains_key(key) {
                assert(!before.contains(key));
                assert forall|k: u64| #[trigger]
                    after.contains(k) <==> self.decls().contains_key(k) by {
                    assert(after[before.len() as int] == key);
                    if before.contains(k) {
                        let i = choose|i: int| 0 <= i < before.len() && before[i] == k;
                        assert(after[i] == k);
                    }
                    if after.contains(k) && k != key {
                        let i = choose|i: int| 0 <= i < after.len() && after[i] == k;
                        assert(before[i] == k);
                    }
                }
            }
        }
    }

    /// The type with that number, if there is one.
    pub fn get_type(&self, key: u64) -> (r: Option<&CType>)
        ensures
            r == (if self.types().contains_key(key) {
                Some(&self.types()[key])
            } else {
                None
            }),
    {
        self.c_types.get(&key)
    }

    /// The expression with that number, if there is one.
    pub fn get_expr(&self, key: u64) -> (r: Option<&CExpr>)
        ensures
            r == (if self.exprs().contains_key(key) {
                Some(&self.exprs()[key])
            } else {
                None
            }),
    {
        self.c_exprs.get(&key)
    }

    /// The statement with that number, if there is one.
    pub fn get_stmt(&self, key: u64) -> (r: Option<&CStmt>)
        ensures
            r == (if self.stmts().contains_key(key) {
                Some(&self.stmts()[key])
            } else {
                None
            }),
    {
        self.c_stmts.get(&key)
    }

    /// The declaration with that number, if there is one.
    pub fn get_decl(&self, key: u64) -> (r: Option<&CDecl>)
        ensures
            r == (if self.decls().contains_key(key) {
                Some(&self.decls()[key])
            } else {
                None
            }),
    {
        decl_map_get(&self.c_decls, key)
    }

    /// The declaration at a place in the order, with its number.
    pub fn decl_at(&self, index: usize) -> (r: Option<(u64, &CDecl)>)
        ensures
            match r {
                Some((key, decl)) => {
                    &&& index < self.decl_order().len()
                    &&& key == self.decl_order()[index as int]
                    &&& *decl == self.decls()[key]
                },
                None => index >= self.decl_order().len(),
            },
    {
        decl_map_get_index(&self.c_decls, index)
    }

    /// The declaration at a place in the order, with its number, open to change.
    pub fn decl_at_mut(&mut self, index: usize) -> (r: Option<(u64, &mut CDecl)>)
        requires
            old(self).wf(),
        ensures
            match r {
                Some((key, decl)) => {
                    &&& index < old(self).decl_order().len()
                    &&& key == old(self).decl_order()[index as int]
                    &&& *decl == old(self).decls()[key]
                    &&& final(self).decls() == old(self).decls().insert(key, *final(decl))
                    &&& final(self).wf()
                    &&& final(self).types() == old(self).types()
                    &&& final(self).exprs() == old(self).exprs()
                    &&& final(self).stmts() == old(self).stmts()
                    &&& final(self).decl_order() == old(self).decl_order()
                },
                None => index >= old(self).decl_order().len() && *final(self) == *old(self),
            },
    {
        proof {
            if index < self.decl_order().len() {
                let key = self.decl_order()[index as int];
                assert(self.decl_order().contains(key));
            }
        }
        decl_map_get_index_mut(&mut self.c_decls, index)
    }

    /// Drops the declarations whose number `wanted` has not got. Those that
    /// stay keep their order.
    pub fn retain_decls(&mut self, wanted: &HashSet<u64>)
        requires
            old(self).wf(),
        ensures
            final(self).wf(),
            final(self).types() == old(self).types(),
            final(self).exprs() == old(self).exprs(),
            final(self).stmts() == old(self).stmts(),
            final(self).decls() == old(self).decls().restrict(wanted@),
            final(self).decl_order() == old(self).decl_order().filter(
                |key: u64| wanted@.contains(key),
            ),
    {
        decl_map_retain(&mut self.c_decls, wanted);
        proof {
            let before = old(self).decl_order();
            lemma_filter(before, |key: u64| wanted@.contains(key));
            assert forall|key: u64| #[trigger] self.decl_order().contains(
                key,
            ) <==> self.decls().contains_key(key) by {
                assert(before.contains(key) <==> old(self).decls().contains_key(key));
            }
        }
    }
}

} // verus!
