//! Dropping the declarations that nothing asks for.
//!
//! What may be visible from another compilation unit is kept, and so is all
//! that it depends on, directly or not.

use crate::attributes::Attribute;
use crate::context::TypedAstContext;
use crate::decls::CDeclKind;
use crate::exprs::CExprKind;
use crate::ids::{CDeclId, SomeId};
use crate::iterators::{children, decl_nodes, push_decls};
use crate::types::CTypeKind;
use std::collections::HashSet;
use std::ops::Index;
use vstd::prelude::*;
use vstd::set_lib::{lemma_int_range, lemma_len_subset, lemma_map_size, set_int_range};

verus! {

/// What a node refers to without being made of it: the declaration that an
/// elaborated type looks through to, the macros that an expression comes
/// from, the declaration that an expression names, the enum that a constant
/// belongs to.
pub open spec fn mentioned(ctx: TypedAstContext, id: SomeId) -> Seq<SomeId> {
    match id {
        SomeId::Stmt(_) => Seq::empty(),
        SomeId::Expr(expr) => {
            let macros = if ctx.macro_invocations@.contains_key(expr.0) {
                decl_nodes(ctx.macro_invocations@[expr.0]@)
            } else {
                Seq::empty()
            };
            match ctx.expr_at(expr).kind {
                CExprKind::DeclRef(_, decl, _) => macros.push(SomeId::Decl(decl)),
                _ => macros,
            }
        },
        SomeId::Decl(decl) => match ctx.decl_at(decl).kind {
            CDeclKind::EnumConstant { .. } => seq![SomeId::Decl(ctx.parents@[decl.0])],
            _ => Seq::empty(),
        },
        SomeId::Type(typ) => match ctx.type_at(typ).kind {
            CTypeKind::Elaborated(target) => match ctx.type_at(target).kind.as_decl_or_typedef() {
                Some(decl) => seq![SomeId::Decl(decl)],
                None => Seq::empty(),
            },
            _ => Seq::empty(),
        },
    }
}

/// The node is there, and so is what it mentions: an elaborated type looks
/// through to a declaration, and an enum constant belongs to an enum.
pub open spec fn is_sound(ctx: TypedAstContext, id: SomeId) -> bool {
    &&& ctx.has_node(id)
    &&& match id {
        SomeId::Decl(decl) => ctx.decl_at(decl).kind is EnumConstant
            ==> ctx.parents@.contains_key(decl.0),
        SomeId::Type(typ) => match ctx.type_at(typ).kind {
            CTypeKind::Elaborated(target) => {
                &&& ctx.has_type(target)
                &&& ctx.type_at(target).kind.as_decl_or_typedef() is Some
            },
            _ => true,
        },
        _ => true,
    }
}

/// The node `a` depends directly on the node `b`.
pub open spec fn needs(ctx: TypedAstContext, a: SomeId, b: SomeId) -> bool {
    children(ctx, a).contains(b) || mentioned(ctx, a).contains(b)
}

/// A top-level declaration of this kind is kept for its own sake: a function
/// or variable that might be visible from another compilation unit or is
/// marked as used, and, if asked for, any other function with a body.
pub open spec fn is_kept_itself(kind: CDeclKind, want_unused_functions: bool) -> bool {
    match kind {
        CDeclKind::Function {
            body,
            is_global,
            is_inline,
            is_inline_externally_visible,
            attrs,
            ..
        } => {
            ||| body is Some && is_global && (!is_inline || is_inline_externally_visible)
            ||| body is Some && want_unused_functions
            ||| attrs@.contains(Attribute::Used.key())
        },
        CDeclKind::Variable { is_defn, is_externally_visible, attrs, .. } => {
            ||| is_defn && is_externally_visible
            ||| attrs@.contains(Attribute::Used.key())
        },
        _ => false,
    }
}

/// A top-level declaration that is kept for its own sake.
pub open spec fn is_root(ctx: TypedAstContext, want_unused_functions: bool, id: SomeId) -> bool {
    id matches SomeId::Decl(decl) && ctx.c_decls_top@.contains(decl) && is_kept_itself(
        ctx.decl_at(decl).kind,
        want_unused_functions,
    )
}

/// `n` dependencies lead from a root to the node.
pub open spec fn reached_in(
    ctx: TypedAstContext,
    want_unused_functions: bool,
    id: SomeId,
    n: nat,
) -> bool
    decreases n,
{
    if n == 0 {
        is_root(ctx, want_unused_functions, id)
    } else {
        exists|by: SomeId|
            reached_in(ctx, want_unused_functions, by, (n - 1) as nat) && #[trigger] needs(
                ctx,
                by,
                id,
            )
    }
}

/// A root depends on the node, directly or not.
pub open spec fn is_wanted(ctx: TypedAstContext, want_unused_functions: bool, id: SomeId) -> bool {
    exists|n: nat| reached_in(ctx, want_unused_functions, id, n)
}

/// The declaration with that number is wanted.
pub open spec fn is_wanted_decl(
    ctx: TypedAstContext,
    want_unused_functions: bool,
) -> spec_fn(u64) -> bool {
    |key: u64| is_wanted(ctx, want_unused_functions, SomeId::Decl(CDeclId(key)))
}

/// The top-level declarations are there, and all that is wanted is sound.
pub open spec fn is_prunable(ctx: TypedAstContext, want_unused_functions: bool) -> bool {
    &&& ctx.nodes.wf()
    &&& forall|i: int| 0 <= i < ctx.c_decls_top@.len() ==> ctx.has_decl(#[trigger] ctx.c_decls_top@[i])
    &&& forall|id: SomeId| #[trigger]
        is_wanted(ctx, want_unused_functions, id) ==> is_sound(ctx, id)
}

/// `after` is `before` without the declarations that are not wanted.
pub open spec fn is_pruned(
    before: TypedAstContext,
    want_unused_functions: bool,
    after: TypedAstContext,
) -> bool {
    let keep = is_wanted_decl(before, want_unused_functions);
    &&& after.nodes.wf()
    &&& after.nodes.types() == before.nodes.types()
    &&& after.nodes.exprs() == before.nodes.exprs()
    &&& after.nodes.stmts() == before.nodes.stmts()
    &&& after.nodes.decls() == before.nodes.decls().restrict(Set::new(keep))
    &&& after.nodes.decl_order() == before.nodes.decl_order().filter(keep)
    &&& after.c_decls_top@ == before.c_decls_top@.filter(|id: CDeclId| keep(id.0))
    &&& after.c_main == match before.c_main {
        Some(id) => if keep(id.0) {
            Some(id)
        } else {
            None
        },
        None => None,
    }
    &&& after == TypedAstContext {
        nodes: after.nodes,
        c_decls_top: after.c_decls_top,
        c_main: after.c_main,
        ..before
    }
}

/// A root is wanted.
pub proof fn law_roots_are_wanted(ctx: TypedAstContext, want_unused_functions: bool, id: SomeId)
    requires
        is_root(ctx, want_unused_functions, id),
    ensures
        is_wanted(ctx, want_unused_functions, id),
{
    assert(reached_in(ctx, want_unused_functions, id, 0));
}

/// What a wanted node needs is wanted.
pub proof fn law_needs_of_wanted_are_wanted(
    ctx: TypedAstContext,
    want_unused_functions: bool,
    a: SomeId,
    b: SomeId,
)
    requires
        is_wanted(ctx, want_unused_functions, a),
        needs(ctx, a, b),
    ensures
        is_wanted(ctx, want_unused_functions, b),
{
    let n = choose|n: nat| reached_in(ctx, want_unused_functions, a, n);
    assert(reached_in(ctx, want_unused_functions, b, n + 1));
}

/// Whatever holds of the roots and passes on from a node to what it needs
/// holds of all that is wanted: nothing is wanted without a reason.
pub proof fn law_wanted_is_least(
    ctx: TypedAstContext,
    want_unused_functions: bool,
    holds: spec_fn(SomeId) -> bool,
    id: SomeId,
)
    requires
        forall|r: SomeId| #[trigger] is_root(ctx, want_unused_functions, r) ==> holds(r),
        forall|a: SomeId, b: SomeId| holds(a) && #[trigger] needs(ctx, a, b) ==> holds(b),
        is_wanted(ctx, want_unused_functions, id),
    ensures
        holds(id),
{
    let n = choose|n: nat| reached_in(ctx, want_unused_functions, id, n);
    lemma_reached_holds(ctx, want_unused_functions, holds, id, n);
}

proof fn lemma_reached_holds(
    ctx: TypedAstContext,
    want_unused_functions: bool,
    holds: spec_fn(SomeId) -> bool,
    id: SomeId,
    n: nat,
)
    requires
        forall|r: SomeId| #[trigger] is_root(ctx, want_unused_functions, r) ==> holds(r),
        forall|a: SomeId, b: SomeId| holds(a) && #[trigger] needs(ctx, a, b) ==> holds(b),
        reached_in(ctx, want_unused_functions, id, n),
    ensures
        holds(id),
    decreases n,
{
    if n > 0 {
        let by = choose|by: SomeId|
            reached_in(ctx, want_unused_functions, by, (n - 1) as nat) && #[trigger] needs(
                ctx,
                by,
                id,
            );
        lemma_reached_holds(ctx, want_unused_functions, holds, by, (n - 1) as nat);
    }
}

/// Whatever is wanted when unused functions go is wanted when they stay.
pub proof fn law_unused_functions_add(ctx: TypedAstContext, id: SomeId)
    requires
        is_wanted(ctx, false, id),
    ensures
        is_wanted(ctx, true, id),
{
    let holds = |x: SomeId| is_wanted(ctx, true, x);
    assert forall|r: SomeId| #[trigger] is_root(ctx, false, r) implies holds(r) by {
        law_roots_are_wanted(ctx, true, r);
    }
    assert forall|a: SomeId, b: SomeId| holds(a) && #[trigger] needs(ctx, a, b) implies holds(
        b,
    ) by {
        law_needs_of_wanted_are_wanted(ctx, true, a, b);
    }
    law_wanted_is_least(ctx, false, holds, id);
}

/// A wanted node depends on the same nodes before and after.
proof fn lemma_same_needs(
    before: TypedAstContext,
    want_unused_functions: bool,
    after: TypedAstContext,
    id: SomeId,
)
    requires
        is_prunable(before, want_unused_functions),
        is_pruned(before, want_unused_functions, after),
        is_wanted(before, want_unused_functions, id),
    ensures
        is_sound(after, id),
        forall|b: SomeId| #[trigger] needs(before, id, b) == needs(after, id, b),
{
    assert(is_sound(before, id));
    if let SomeId::Decl(decl) = id {
        assert(is_wanted_decl(before, want_unused_functions)(decl.0));
        assert(after.has_decl(decl));
        assert(after.decl_at(decl) == before.decl_at(decl));
    }
    assert(children(after, id) == children(before, id));
    assert(mentioned(after, id) == mentioned(before, id));
}

proof fn lemma_same_roots(
    before: TypedAstContext,
    want_unused_functions: bool,
    after: TypedAstContext,
    id: SomeId,
)
    requires
        is_prunable(before, want_unused_functions),
        is_pruned(before, want_unused_functions, after),
    ensures
        is_root(before, want_unused_functions, id) == is_root(after, want_unused_functions, id),
{
    let keep = is_wanted_decl(before, want_unused_functions);
    let keep_id = |id: CDeclId| keep(id.0);
    let top = before.c_decls_top@;
    if let SomeId::Decl(decl) = id {
        if is_root(before, want_unused_functions, id) {
            law_roots_are_wanted(before, want_unused_functions, id);
            assert(is_sound(before, id));
            assert(keep_id(decl));
            let i = choose|i: int| 0 <= i < top.len() && top[i] == decl;
            top.lemma_filter_contains(keep_id, i);
        }
        if is_root(after, want_unused_functions, id) {
            let kept = top.filter(keep_id);
            let i = choose|i: int| 0 <= i < kept.len() && kept[i] == decl;
            top.lemma_filter_pred(keep_id, i);
            assert(is_sound(before, id));
            top.lemma_filter_contains_rev(keep_id, decl);
        }
    }
}

proof fn lemma_same_reached(
    before: TypedAstContext,
    want_unused_functions: bool,
    after: TypedAstContext,
    id: SomeId,
    n: nat,
)
    requires
        is_prunable(before, want_unused_functions),
        is_pruned(before, want_unused_functions, after),
    ensures
        reached_in(before, want_unused_functions, id, n) == reached_in(
            after,
            want_unused_functions,
            id,
            n,
        ),
    decreases n,
{
    if n == 0 {
        lemma_same_roots(before, want_unused_functions, after, id);
    } else {
        let m = (n - 1) as nat;
        if reached_in(before, want_unused_functions, id, n) {
            let by = choose|by: SomeId|
                reached_in(before, want_unused_functions, by, m) && #[trigger] needs(
                    before,
                    by,
                    id,
                );
            lemma_same_reached(before, want_unused_functions, after, by, m);
            assert(is_wanted(before, want_unused_functions, by));
            lemma_same_needs(before, want_unused_functions, after, by);
            assert(needs(after, by, id));
        }
        if reached_in(after, want_unused_functions, id, n) {
            let by = choose|by: SomeId|
                reached_in(after, want_unused_functions, by, m) && #[trigger] needs(after, by, id);
            lemma_same_reached(before, want_unused_functions, after, by, m);
            assert(is_wanted(before, want_unused_functions, by));
            lemma_same_needs(before, want_unused_functions, after, by);
            assert(needs(before, by, id));
        }
    }
}

/// Pruning leaves what is wanted as it is: the same nodes are wanted after
/// it, and they are all there, so no declaration that stayed depends on one
/// that went.
pub proof fn law_pruned_is_closed(
    before: TypedAstContext,
    want_unused_functions: bool,
    after: TypedAstContext,
)
    requires
        is_prunable(before, want_unused_functions),
        is_pruned(before, want_unused_functions, after),
    ensures
        forall|id: SomeId| #[trigger]
            is_wanted(after, want_unused_functions, id) <==> is_wanted(
                before,
                want_unused_functions,
                id,
            ),
        is_prunable(after, want_unused_functions),
{
    assert forall|id: SomeId| #[trigger]
        is_wanted(after, want_unused_functions, id) <==> is_wanted(
            before,
            want_unused_functions,
            id,
        ) by {
        if is_wanted(after, want_unused_functions, id) {
            let n = choose|n: nat| reached_in(after, want_unused_functions, id, n);
            lemma_same_reached(before, want_unused_functions, after, id, n);
            assert(reached_in(before, want_unused_functions, id, n));
        }
        if is_wanted(before, want_unused_functions, id) {
            let n = choose|n: nat| reached_in(before, want_unused_functions, id, n);
            lemma_same_reached(before, want_unused_functions, after, id, n);
            assert(reached_in(after, want_unused_functions, id, n));
        }
    }
    assert forall|id: SomeId| #[trigger] is_wanted(after, want_unused_functions, id) implies is_sound(
        after,
        id,
    ) by {
        lemma_same_needs(before, want_unused_functions, after, id);
    }
    let keep = is_wanted_decl(before, want_unused_functions);
    let keep_id = |id: CDeclId| keep(id.0);
    let top = before.c_decls_top@;
    assert forall|i: int| 0 <= i < after.c_decls_top@.len() implies after.has_decl(
        #[trigger] after.c_decls_top@[i],
    ) by {
        let id = after.c_decls_top@[i];
        top.lemma_filter_pred(keep_id, i);
        assert(is_sound(before, SomeId::Decl(id)));
    }
}

proof fn lemma_filter_all<A>(s: Seq<A>, keep: spec_fn(A) -> bool)
    requires
        forall|i: int| 0 <= i < s.len() ==> keep(#[trigger] s[i]),
    ensures
        s.filter(keep) == s,
    decreases s.len(),
{
    reveal(Seq::filter);
    if s.len() > 0 {
        assert forall|i: int| 0 <= i < s.drop_last().len() implies keep(
            #[trigger] s.drop_last()[i],
        ) by {
            assert(s.drop_last()[i] == s[i]);
        }
        lemma_filter_all(s.drop_last(), keep);
        assert(keep(s[s.len() - 1]));
        assert(s.drop_last().push(s.last()) =~= s);
    }
}

/// Pruning what was pruned changes nothing.
pub proof fn law_pruning_twice_is_pruning_once(
    before: TypedAstContext,
    want_unused_functions: bool,
    once: TypedAstContext,
    twice: TypedAstContext,
)
    requires
        is_prunable(before, want_unused_functions),
        is_pruned(before, want_unused_functions, once),
        is_pruned(once, want_unused_functions, twice),
    ensures
        twice.nodes.types() == once.nodes.types(),
        twice.nodes.exprs() == once.nodes.exprs(),
        twice.nodes.stmts() == once.nodes.stmts(),
        twice.nodes.decls() == once.nodes.decls(),
        twice.nodes.decl_order() == once.nodes.decl_order(),
        twice.c_decls_top@ == once.c_decls_top@,
        twice.c_main == once.c_main,
{
    law_pruned_is_closed(before, want_unused_functions, once);
    let keep = is_wanted_decl(before, want_unused_functions);
    let keep_id = |id: CDeclId| keep(id.0);
    let again = is_wanted_decl(once, want_unused_functions);
    let again_id = |id: CDeclId| again(id.0);
    assert(keep =~= again);
    assert(keep_id =~= again_id);
    assert forall|i: int| 0 <= i < once.nodes.decl_order().len() implies again(
        #[trigger] once.nodes.decl_order()[i],
    ) by {
        before.nodes.decl_order().lemma_filter_pred(keep, i);
    }
    lemma_filter_all(once.nodes.decl_order(), again);
    assert forall|i: int| 0 <= i < once.c_decls_top@.len() implies again_id(
        #[trigger] once.c_decls_top@[i],
    ) by {
        before.c_decls_top@.lemma_filter_pred(keep_id, i);
    }
    lemma_filter_all(once.c_decls_top@, again_id);
    assert(twice.nodes.decls() =~= once.nodes.decls());
}

/// How many numbers of one sort there are.
spec fn numbers() -> int {
    0x1_0000_0000_0000_0000
}

proof fn lemma_numbers(s: Set<u64>)
    requires
        s.finite(),
    ensures
        s.len() <= numbers(),
{
    let f = |x: u64| x as int;
    let image = s.map(f);
    lemma_map_size(s, image, f);
    lemma_int_range(0, numbers());
    assert(image.subset_of(set_int_range(0, numbers())));
    lemma_len_subset(image, set_int_range(0, numbers()));
}

/// A set of nodes.
struct NodeSet {
    stmts: HashSet<u64>,
    exprs: HashSet<u64>,
    decls: HashSet<u64>,
    types: HashSet<u64>,
}

impl NodeSet {
    spec fn has(&self, id: SomeId) -> bool {
        match id {
            SomeId::Stmt(id) => self.stmts@.contains(id.0),
            SomeId::Expr(id) => self.exprs@.contains(id.0),
            SomeId::Decl(id) => self.decls@.contains(id.0),
            SomeId::Type(id) => self.types@.contains(id.0),
        }
    }

    spec fn wf(&self) -> bool {
        self.stmts@.finite() && self.exprs@.finite() && self.decls@.finite() && self.types@.finite()
    }

    /// How many nodes the set has not got.
    spec fn missing(&self) -> int {
        4 * numbers() - self.stmts@.len() - self.exprs@.len() - self.decls@.len() - self.types@.len()
    }

    proof fn lemma_missing(&self)
        requires
            self.wf(),
        ensures
            self.missing() >= 0,
    {
        lemma_numbers(self.stmts@);
        lemma_numbers(self.exprs@);
        lemma_numbers(self.decls@);
        lemma_numbers(self.types@);
    }

    fn new() -> (r: NodeSet)
        ensures
            r.wf(),
            forall|id: SomeId| !#[trigger] r.has(id),
    {
        NodeSet {
            stmts: HashSet::new(),
            exprs: HashSet::new(),
            decls: HashSet::new(),
            types: HashSet::new(),
        }
    }

    /// Adds a node; tells whether it was new.
    fn insert(&mut self, id: SomeId) -> (r: bool)
        requires
            old(self).wf(),
        ensures
            final(self).wf(),
            r == !old(self).has(id),
            forall|x: SomeId| #[trigger] final(self).has(x) <==> old(self).has(x) || x == id,
            final(self).missing() == old(self).missing() - if r {
                1int
            } else {
                0int
            },
    {
        match id {
            SomeId::Stmt(id) => self.stmts.insert(id.0),
            SomeId::Expr(id) => self.exprs.insert(id.0),
            SomeId::Decl(id) => self.decls.insert(id.0),
            SomeId::Type(id) => self.types.insert(id.0),
        }
    }
}

/// Marks nodes as seen, and puts those that were not on the stack.
fn push_unseen(seen: &mut NodeSet, stack: &mut Vec<SomeId>, ids: &Vec<SomeId>)
    requires
        old(seen).wf(),
    ensures
        final(seen).wf(),
        forall|x: SomeId| #[trigger]
            final(seen).has(x) <==> old(seen).has(x) || ids@.contains(x),
        forall|x: SomeId| #[trigger]
            final(stack)@.contains(x) <==> old(stack)@.contains(x) || (final(seen).has(x)
                && !old(seen).has(x)),
        final(seen).missing() <= old(seen).missing(),
        final(seen).missing() == old(seen).missing() ==> final(stack)@ == old(stack)@,
{
    let mut i: usize = 0;
    while i < ids.len()
        invariant
            i <= ids.len(),
            seen.wf(),
            forall|x: SomeId| #[trigger]
                seen.has(x) <==> old(seen).has(x) || ids@.take(i as int).contains(x),
            forall|x: SomeId| #[trigger]
                stack@.contains(x) <==> old(stack)@.contains(x) || (seen.has(x) && !old(seen).has(x)),
            seen.missing() <= old(seen).missing(),
            seen.missing() == old(seen).missing() ==> stack@ == old(stack)@,
        decreases ids.len() - i,
    {
        let id = ids[i];
        let ghost before = *seen;
        let ghost stack_before = stack@;
        proof {
            let taken = ids@.take(i as int);
            let next = ids@.take(i + 1);
            assert(next =~= taken.push(id));
            assert(next[i as int] == id);
            assert forall|x: SomeId| #[trigger] next.contains(x) <==> taken.contains(x) || x == id by {
                if taken.contains(x) {
                    let j = choose|j: int| 0 <= j < taken.len() && taken[j] == x;
                    assert(next[j] == x);
                }
            }
        }
        if seen.insert(id) {
            stack.push(id);
            proof {
                assert forall|x: SomeId| #[trigger]
                    stack@.contains(x) <==> stack_before.contains(x) || x == id by {
                    assert(stack@[stack_before.len() as int] == id);
                    if stack_before.contains(x) {
                        let j = choose|j: int| 0 <= j < stack_before.len() && stack_before[j] == x;
                        assert(stack@[j] == x);
                    }
                }
            }
        }
        i = i + 1;
    }
    assert(ids@.take(ids@.len() as int) =~= ids@);
}

/// The ids of a list that the set holds, in their order.
fn retain_ids(ids: &Vec<CDeclId>, wanted: &HashSet<u64>) -> (r: Vec<CDeclId>)
    ensures
        r@ == ids@.filter(|id: CDeclId| wanted@.contains(id.0)),
{
    let ghost keep = |id: CDeclId| wanted@.contains(id.0);
    let mut r: Vec<CDeclId> = Vec::new();
    let mut i: usize = 0;
    proof {
        reveal(Seq::filter);
        assert(ids@.take(0).filter(keep) =~= Seq::empty());
    }
    while i < ids.len()
        invariant
            i <= ids.len(),
            keep == (|id: CDeclId| wanted@.contains(id.0)),
            r@ == ids@.take(i as int).filter(keep),
        decreases ids.len() - i,
    {
        proof {
            reveal(Seq::filter);
            assert(ids@.take(i + 1).drop_last() =~= ids@.take(i as int));
        }
        if wanted.contains(&ids[i].0) {
            r.push(ids[i]);
        }
        i = i + 1;
    }
    assert(ids@.take(ids@.len() as int) =~= ids@);
    r
}

impl TypedAstContext {
    /// Whether a top-level declaration is kept for its own sake.
    fn is_kept(kind: &CDeclKind, want_unused_functions: bool) -> (r: bool)
        ensures
            r == is_kept_itself(*kind, want_unused_functions),
    {
        match kind {
            CDeclKind::Function {
                body,
                is_global,
                is_inline,
                is_inline_externally_visible,
                attrs,
                ..
            } => {
                // Depending on the C specification and dialect, an inlined
                // function may be externally visible. The front end decides.
                (body.is_some() && *is_global && (!*is_inline || *is_inline_externally_visible))
                    || (body.is_some() && want_unused_functions)
                    || attrs.contains(&Attribute::Used)
            },
            CDeclKind::Variable { is_defn, is_externally_visible, attrs, .. } => (*is_defn
                && *is_externally_visible) || attrs.contains(&Attribute::Used),
            _ => false,
        }
    }

    /// What a node refers to without being made of it.
    fn mentions(&self, id: SomeId) -> (r: Vec<SomeId>)
        requires
            is_sound(*self, id),
        ensures
            r@ == mentioned(*self, id),
    {
        let mut r: Vec<SomeId> = Vec::new();
        match id {
            SomeId::Type(typ) => {
                if let CTypeKind::Elaborated(target) = &self.index(typ).kind {
                    let decl = self.index(*target).kind.as_decl_or_typedef().unwrap();
                    r.push(SomeId::Decl(decl));
                }
            },
            SomeId::Expr(expr) => {
                if let Some(macros) = self.macro_invocations.get(&expr.0) {
                    push_decls(&mut r, macros);
                }
                if let CExprKind::DeclRef(_, decl, _) = &self.index(expr).kind {
                    r.push(SomeId::Decl(*decl));
                }
            },
            SomeId::Decl(decl) => {
                if let CDeclKind::EnumConstant { .. } = &self.index(decl).kind {
                    // The enum constant is used, so the whole enum is also used.
                    r.push(SomeId::Decl(*self.parents.get(&decl.0).unwrap()));
                }
            },
            SomeId::Stmt(_) => {},
        }
        assert(r@ =~= mentioned(*self, id));
        r
    }

    /// The numbers of the declarations that are wanted.
    fn wanted_decls(&self, want_unused_functions: bool) -> (r: HashSet<u64>)
        requires
            is_prunable(*self, want_unused_functions),
        ensures
            r@ == Set::new(is_wanted_decl(*self, want_unused_functions)),
    {
        let mut seen = NodeSet::new();
        // Everything in here is also seen.
        let mut stack: Vec<SomeId> = Vec::new();

        let mut roots: Vec<SomeId> = Vec::new();
        let mut i: usize = 0;
        while i < self.c_decls_top.len()
            invariant
                i <= self.c_decls_top.len(),
                is_prunable(*self, want_unused_functions),
                forall|x: SomeId| #[trigger]
                    roots@.contains(x) ==> is_root(*self, want_unused_functions, x),
                forall|j: int| #![trigger self.c_decls_top@[j]]
                    0 <= j < i && is_kept_itself(
                        self.decl_at(self.c_decls_top@[j]).kind,
                        want_unused_functions,
                    ) ==> roots@.contains(SomeId::Decl(self.c_decls_top@[j])),
            decreases self.c_decls_top.len() - i,
        {
            let id = self.c_decls_top[i];
            let ghost before = roots@;
            if Self::is_kept(&self.index(id).kind, want_unused_functions) {
                roots.push(SomeId::Decl(id));
                proof {
                    assert(self.c_decls_top@.contains(id));
                    assert forall|x: SomeId| #[trigger] roots@.contains(x) implies before.contains(x)
                        || x == SomeId::Decl(id) by {}
                    assert forall|x: SomeId| before.contains(x) implies #[trigger] roots@.contains(
                        x,
                    ) by {
                        let j = choose|j: int| 0 <= j < before.len() && before[j] == x;
                        assert(roots@[j] == x);
                    }
                    assert(roots@[before.len() as int] == SomeId::Decl(id));
                }
            }
            i = i + 1;
        }
        push_unseen(&mut seen, &mut stack, &roots);
        proof {
            assert forall|x: SomeId| #[trigger] seen.has(x) implies is_wanted(
                *self,
                want_unused_functions,
                x,
            ) by {
                law_roots_are_wanted(*self, want_unused_functions, x);
            }
            assert forall|x: SomeId| #[trigger]
                is_root(*self, want_unused_functions, x) implies seen.has(x) by {
                assert(roots@.contains(x));
            }
        }
        while stack.len() > 0
            invariant
                is_prunable(*self, want_unused_functions),
                seen.wf(),
                forall|x: SomeId| #[trigger]
                    is_root(*self, want_unused_functions, x) ==> seen.has(x),
                forall|x: SomeId| #[trigger]
                    seen.has(x) ==> is_wanted(*self, want_unused_functions, x),
                forall|x: SomeId| #[trigger] stack@.contains(x) ==> seen.has(x),
                forall|x: SomeId, y: SomeId|
                    seen.has(x) && !stack@.contains(x) && #[trigger] needs(*self, x, y)
                        ==> seen.has(y),
            decreases seen.missing(), stack.len(),
        {
            let ghost seen_before = seen;
            let ghost stack_before = stack@;
            let id = stack.pop().unwrap();
            let ghost popped = stack@;
            proof {
                assert(stack_before[stack_before.len() - 1] == id);
                assert(stack_before.contains(id));
                assert forall|x: SomeId| #[trigger] stack_before.contains(x) <==> popped.contains(x)
                    || x == id by {
                    if popped.contains(x) {
                        let j = choose|j: int| 0 <= j < popped.len() && popped[j] == x;
                        assert(stack_before[j] == x);
                    }
                    if stack_before.contains(x) && x != id {
                        let j = choose|j: int| 0 <= j < stack_before.len() && stack_before[j] == x;
                        assert(popped[j] == x);
                    }
                }
                assert forall|x: SomeId| #[trigger] popped.contains(x) implies seen.has(x) by {
                    assert(stack_before.contains(x));
                }
                assert(is_wanted(*self, want_unused_functions, id));
            }
            let made_of = self.immediate_children(id);
            let mentions = self.mentions(id);
            push_unseen(&mut seen, &mut stack, &made_of);
            push_unseen(&mut seen, &mut stack, &mentions);
            proof {
                assert forall|x: SomeId| #[trigger] seen.has(x) implies is_wanted(
                    *self,
                    want_unused_functions,
                    x,
                ) by {
                    if !seen_before.has(x) {
                        assert(needs(*self, id, x));
                        law_needs_of_wanted_are_wanted(*self, want_unused_functions, id, x);
                    }
                }
                seen.lemma_missing();
            }
        }
        proof {
            let holds = |x: SomeId| seen.has(x);
            assert forall|key: u64| #[trigger] seen.decls@.contains(key) <==> is_wanted(
                *self,
                want_unused_functions,
                SomeId::Decl(CDeclId(key)),
            ) by {
                let id = SomeId::Decl(CDeclId(key));
                assert(seen.has(id) == seen.decls@.contains(key));
                if is_wanted(*self, want_unused_functions, id) {
                    law_wanted_is_least(*self, want_unused_functions, holds, id);
                }
            }
            assert(seen.decls@ =~= Set::new(is_wanted_decl(*self, want_unused_functions)));
        }
        seen.decls
    }

    /// Drops every declaration that no top-level declaration of interest
    /// depends on. Those that stay keep their order.
    pub fn prune_unwanted_decls(&mut self, want_unused_functions: bool)
        requires
            is_prunable(*old(self), want_unused_functions),
        ensures
            is_pruned(*old(self), want_unused_functions, *final(self)),
    {
        let wanted = self.wanted_decls(want_unused_functions);
        let ghost keep = is_wanted_decl(*self, want_unused_functions);
        proof {
            assert forall|key: u64| #[trigger] wanted@.contains(key) <==> keep(key) by {}
            assert((|key: u64| wanted@.contains(key)) =~= keep);
            assert((|id: CDeclId| wanted@.contains(id.0)) =~= (|id: CDeclId| keep(id.0)));
        }
        // Forget the main function if its declaration goes.
        if let Some(main_id) = self.c_main {
            if !wanted.contains(&main_id.0) {
                self.c_main = None;
            }
        }
        self.nodes.retain_decls(&wanted);
        self.c_decls_top = retain_ids(&self.c_decls_top, &wanted);
    }
}

} // verus!
