//! Looking through typedefs, casts and other nodes that only wrap another one.

use crate::chain::{
    chain_at, chain_end, chain_len, lemma_chain_end_stops, lemma_chain_step, stops, Step,
};
use crate::context::{law_no_parentheses_are_left, TypedAstContext};
use crate::decls::CDeclKind;
use crate::exprs::{CExprKind, CastKind};
use crate::ids::{CDeclId, CExprId, CTypeId};
use crate::nodes::CType;
use crate::source::BuiltinVaListKind;
use crate::types::{CQualTypeId, CTypeKind};
use std::ops::Index;
use vstd::prelude::*;

verus! {

/// The declaration is a typedef, and this is the type it names.
pub open spec fn typedef_target(ctx: TypedAstContext, id: CDeclId) -> Option<CTypeId> {
    if ctx.has_decl(id) {
        match ctx.decl_at(id).kind {
            CDeclKind::Typedef { typ, .. } => Some(typ.ctype),
            _ => None,
        }
    } else {
        None
    }
}

/// From a type that only wraps or names another one to that other one.
pub open spec fn type_step(ctx: TypedAstContext) -> spec_fn(CTypeId) -> Step<CTypeId> {
    |id: CTypeId|
        if !ctx.has_type(id) {
            Step::Stuck
        } else {
            match ctx.type_at(id).kind {
                CTypeKind::Attributed(inner, _) => Step::Next(inner.ctype),
                CTypeKind::Elaborated(inner) => Step::Next(inner),
                CTypeKind::Decayed(inner) => Step::Next(inner),
                CTypeKind::TypeOf(inner) => Step::Next(inner),
                CTypeKind::Paren(inner) => Step::Next(inner),
                CTypeKind::Typedef(decl) => match typedef_target(ctx, decl) {
                    Some(target) => Step::Next(target),
                    None => Step::Stuck,
                },
                _ => Step::Stop,
            }
        }
}

/// From a typedef to the type it names.
pub open spec fn typedef_step(ctx: TypedAstContext) -> spec_fn(CTypeId) -> Step<CTypeId> {
    |id: CTypeId|
        if !ctx.has_type(id) {
            Step::Stuck
        } else {
            match ctx.type_at(id).kind {
                CTypeKind::Typedef(decl) => match typedef_target(ctx, decl) {
                    Some(target) => Step::Next(target),
                    None => Step::Stuck,
                },
                _ => Step::Stop,
            }
        }
}

/// The type is a typedef with that name.
pub open spec fn is_typedef_named(ctx: TypedAstContext, id: CTypeId, wanted: Seq<char>) -> bool {
    match ctx.type_at(id).kind {
        CTypeKind::Typedef(decl) => match ctx.decl_at(decl).kind {
            CDeclKind::Typedef { name, .. } => name@ == wanted,
            _ => false,
        },
        _ => false,
    }
}

/// From a cast or a parenthesized expression to its operand.
pub open spec fn cast_step(ctx: TypedAstContext) -> spec_fn(CExprId) -> Step<CExprId> {
    |id: CExprId|
        if !ctx.has_expr(id) {
            Step::Stuck
        } else {
            match ctx.expr_at(id).kind {
                CExprKind::ImplicitCast(_, operand, _, _, _) => Step::Next(operand),
                CExprKind::ExplicitCast(_, operand, _, _, _) => Step::Next(operand),
                CExprKind::Paren(_, operand) => Step::Next(operand),
                _ => Step::Stop,
            }
        }
}

/// The target type, operand and kind of a cast.
pub open spec fn as_cast(kind: CExprKind) -> Option<(CQualTypeId, CExprId, CastKind)> {
    match kind {
        CExprKind::ExplicitCast(ty, operand, cast, _, _) => Some((ty, operand, cast)),
        CExprKind::ImplicitCast(ty, operand, cast, _, _) => Some((ty, operand, cast)),
        _ => None,
    }
}

/// The expression casts a null constant to a pointer.
pub open spec fn is_null_cast(kind: CExprKind) -> bool {
    as_cast(kind) matches Some((_, _, cast)) && cast == CastKind::NullToPointer
}

/// From a bit cast to a pointer type to the expression that is cast.
pub open spec fn null_step(ctx: TypedAstContext) -> spec_fn(CExprId) -> Step<CExprId> {
    |id: CExprId|
        if !ctx.has_expr(id) {
            Step::Stuck
        } else {
            match as_cast(ctx.expr_at(id).kind) {
                Some((ty, operand, cast)) => if cast != CastKind::BitCast {
                    Step::Stop
                } else if !ctx.resolves(ty.ctype) {
                    Step::Stuck
                } else if ctx.resolved(ty.ctype).kind is Pointer {
                    Step::Next(operand)
                } else {
                    Step::Stop
                },
                None => Step::Stop,
            }
        }
}

/// The declaration is a struct with that name.
pub open spec fn is_struct_named(ctx: TypedAstContext, record: CDeclId, wanted: Seq<char>) -> bool {
    match ctx.decl_at(record).kind {
        CDeclKind::Struct { name: Some(name), .. } => name@ == wanted,
        _ => false,
    }
}

/// What a type comes down to wraps and names no other type, and comes down
/// to itself.
pub proof fn law_resolving_twice_is_resolving_once(ctx: TypedAstContext, typ: CTypeId)
    requires
        ctx.resolves(typ),
    ensures
        ctx.has_type(ctx.resolved_id(typ)),
        type_step(ctx)(ctx.resolved_id(typ)) is Stop,
        ctx.resolves(ctx.resolved_id(typ)),
        ctx.resolved_id(ctx.resolved_id(typ)) == ctx.resolved_id(typ),
{
    lemma_chain_end_stops(type_step(ctx), typ);
    lemma_chain_step(type_step(ctx), ctx.resolved_id(typ));
}

/// What is under all the casts is no cast, and has itself under all the casts.
pub proof fn law_uncasting_twice_is_uncasting_once(ctx: TypedAstContext, expr_id: CExprId)
    requires
        ctx.casts_end(expr_id),
    ensures
        ctx.has_expr(ctx.uncast(expr_id)),
        as_cast(ctx.expr_at(ctx.uncast(expr_id)).kind) is None,
        ctx.casts_end(ctx.uncast(expr_id)),
        ctx.uncast(ctx.uncast(expr_id)) == ctx.uncast(expr_id),
{
    lemma_chain_end_stops(cast_step(ctx), expr_id);
    lemma_chain_step(cast_step(ctx), ctx.uncast(expr_id));
}

/// A typedef comes down to what the type that it names comes down to.
pub proof fn law_typedefs_are_transparent(ctx: TypedAstContext, typ: CTypeId, decl: CDeclId)
    requires
        ctx.has_type(typ),
        ctx.type_at(typ).kind == CTypeKind::Typedef(decl),
        typedef_target(ctx, decl) is Some,
    ensures
        ctx.resolves(typ) == ctx.resolves(typedef_target(ctx, decl).unwrap()),
        ctx.resolves(typ) ==> ctx.resolved_id(typ) == ctx.resolved_id(
            typedef_target(ctx, decl).unwrap(),
        ),
{
    lemma_chain_step(type_step(ctx), typ);
}

fn is_named(name: &String, wanted: &str) -> (r: bool)
    ensures
        r == (name@ == wanted@),
{
    let wanted = wanted.to_owned();
    *name == wanted
}

impl TypedAstContext {
    /// Looking through the type comes to an end.
    pub open spec fn resolves(&self, typ: CTypeId) -> bool {
        stops(type_step(*self), typ)
    }

    /// The number of the type that `typ` comes down to.
    pub open spec fn resolved_id(&self, typ: CTypeId) -> CTypeId {
        chain_end(type_step(*self), typ)
    }

    /// The type that `typ` comes down to.
    pub open spec fn resolved(&self, typ: CTypeId) -> CType {
        self.type_at(self.resolved_id(typ))
    }

    /// Looks through typedefs, attributes, parentheses and the like.
    pub fn resolve_type_id(&self, typ: CTypeId) -> (r: CTypeId)
        requires
            self.resolves(typ),
        ensures
            r == self.resolved_id(typ),
            self.has_type(r),
    {
        let ghost step = type_step(*self);
        let mut cur = typ;
        loop
            invariant
                step == type_step(*self),
                stops(step, cur),
                chain_end(step, cur) == chain_end(step, typ),
            decreases chain_len(step, cur),
        {
            proof {
                lemma_chain_step(step, cur);
            }
            cur =
            match &self.index(cur).kind {
                CTypeKind::Attributed(inner, _) => inner.ctype,
                CTypeKind::Elaborated(inner) => *inner,
                CTypeKind::Decayed(inner) => *inner,
                CTypeKind::TypeOf(inner) => *inner,
                CTypeKind::Paren(inner) => *inner,
                CTypeKind::Typedef(decl) => match &self.index(*decl).kind {
                    CDeclKind::Typedef { typ, .. } => typ.ctype,
                    _ => {
                        return cur;
                    },
                },
                _ => {
                    return cur;
                },
            };
        }
    }

    /// The type that `typ` comes down to.
    pub fn resolve_type(&self, typ: CTypeId) -> (r: &CType)
        requires
            self.resolves(typ),
        ensures
            *r == self.resolved(typ),
    {
        let id = self.resolve_type_id(typ);
        self.index(id)
    }

    /// Looking for the null constant under pointer casts comes to an end.
    pub open spec fn null_check_ends(&self, expr_id: CExprId) -> bool {
        stops(null_step(*self), expr_id)
    }

    /// Under bit casts to pointer types there is a null constant.
    pub open spec fn spec_is_null_expr(&self, expr_id: CExprId) -> bool {
        is_null_cast(self.expr_at(chain_end(null_step(*self), expr_id)).kind)
    }

    /// Is the expression a null pointer constant, possibly cast to other
    /// pointer types?
    pub fn is_null_expr(&self, expr_id: CExprId) -> (r: bool)
        requires
            self.null_check_ends(expr_id),
        ensures
            r == self.spec_is_null_expr(expr_id),
    {
        let ghost step = null_step(*self);
        let mut cur = expr_id;
        loop
            invariant
                step == null_step(*self),
                stops(step, cur),
                chain_end(step, cur) == chain_end(step, expr_id),
            decreases chain_len(step, cur),
        {
            proof {
                lemma_chain_step(step, cur);
            }
            match &self.index(cur).kind {
                CExprKind::ExplicitCast(ty, operand, cast, _, _)
                | CExprKind::ImplicitCast(ty, operand, cast, _, _) => match *cast {
                    CastKind::NullToPointer => {
                        return true;
                    },
                    CastKind::BitCast => {
                        if !self.resolve_type(ty.ctype).kind.is_pointer() {
                            return false;
                        }
                        cur = *operand;
                    },
                    _ => {
                        return false;
                    },
                },
                _ => {
                    return false;
                },
            }
        }
    }

    /// The type comes down to a record or enum without a body.
    pub open spec fn spec_is_forward_declared(&self, typ: CTypeId) -> bool {
        match self.resolved(typ).kind.spec_as_underlying_decl() {
            Some(decl_id) => match self.decl_at(decl_id).kind {
                CDeclKind::Struct { fields, .. } => fields is None,
                CDeclKind::Union { fields, .. } => fields is None,
                CDeclKind::Enum { integral_type, .. } => integral_type is None,
                _ => false,
            },
            None => false,
        }
    }

    /// Predicate for struct, union, and enum declarations without bodies.
    /// These forward declarations are suitable for use as the targets of
    /// pointers.
    pub fn is_forward_declared_type(&self, typ: CTypeId) -> (r: bool)
        requires
            self.resolves(typ),
            self.resolved(typ).kind.spec_as_underlying_decl() matches Some(decl_id)
                ==> self.has_decl(decl_id),
        ensures
            r == self.spec_is_forward_declared(typ),
    {
        match self.resolve_type(typ).kind.as_underlying_decl() {
            Some(decl_id) => match &self.index(decl_id).kind {
                CDeclKind::Struct { fields: None, .. } => true,
                CDeclKind::Union { fields: None, .. } => true,
                CDeclKind::Enum { integral_type: None, .. } => true,
                _ => false,
            },
            None => false,
        }
    }

    /// The chain of typedefs that starts at `typ` comes to an end.
    pub open spec fn typedefs_end(&self, typ: CTypeId) -> bool {
        stops(typedef_step(*self), typ)
    }

    /// The last typedef of the chain that starts at `typ` has that name.
    pub open spec fn last_typedef_is_named(&self, typ: CTypeId, wanted: Seq<char>) -> bool {
        let len = chain_len(typedef_step(*self), typ);
        &&& len > 0
        &&& is_typedef_named(
            *self,
            chain_at(typedef_step(*self), typ, (len - 1) as nat),
            wanted,
        )
    }

    /// Follow a chain of typedefs and return true iff the last typedef is named
    /// `__builtin_va_list`, thus naming the type that the front end uses to
    /// represent `va_list`s.
    pub fn is_builtin_va_list(&self, typ: CTypeId) -> (r: bool)
        requires
            self.typedefs_end(typ),
        ensures
            r == self.last_typedef_is_named(typ, "__builtin_va_list"@),
    {
        let ghost step = typedef_step(*self);
        let ghost len = chain_len(step, typ);
        let ghost mut taken: nat = 0;
        let mut cur = typ;
        let mut named = false;
        loop
            invariant
                step == typedef_step(*self),
                len == chain_len(step, typ),
                stops(step, cur),
                taken + chain_len(step, cur) == len,
                forall|n: nat|
                    #[trigger] chain_at(step, cur, n) == chain_at(step, typ, taken + n),
                named == (taken > 0 && is_typedef_named(
                    *self,
                    chain_at(step, typ, (taken - 1) as nat),
                    "__builtin_va_list"@,
                )),
            decreases chain_len(step, cur),
        {
            proof {
                lemma_chain_step(step, cur);
                assert(chain_at(step, cur, 0) == cur);
            }
            let ghost before = cur;
            match &self.index(cur).kind {
                CTypeKind::Typedef(decl) => match &self.index(*decl).kind {
                    CDeclKind::Typedef { name, typ: target, .. } => {
                        named = is_named(name, "__builtin_va_list");
                        cur = target.ctype;
                    },
                    _ => {
                        return false;
                    },
                },
                _ => {
                    return named;
                },
            }
            proof {
                assert(step(before) == Step::Next(cur));
                assert forall|n: nat|
                    #[trigger] chain_at(step, cur, n) == chain_at(step, typ, taken + 1 + n) by {
                    assert(chain_at(step, before, n + 1) == chain_at(step, typ, taken + (n + 1)));
                }
                taken = taken + 1;
            }
        }
    }

    /// What a type comes down to is known, and if that is a struct, its
    /// declaration is there.
    pub open spec fn record_known(&self, typ: CTypeId) -> bool {
        &&& self.resolves(typ)
        &&& self.resolved(typ).kind matches CTypeKind::Struct(record) ==> self.has_decl(record)
    }

    /// What `is_va_list_struct` looks at is there.
    pub open spec fn va_list_struct_known(&self, typ: CTypeId) -> bool {
        &&& self.record_known(typ)
        &&& self.resolved(typ).kind matches CTypeKind::ConstantArray(element, size) ==> size == 1
            ==> self.record_known(element)
    }

    /// The type comes down to one of the structs that implement `va_list`, or
    /// to an array of one `struct __va_list_tag`.
    pub open spec fn spec_is_va_list_struct(&self, typ: CTypeId) -> bool {
        match self.resolved(typ).kind {
            CTypeKind::Struct(record) => is_struct_named(*self, record, "__va_list_tag"@)
                || is_struct_named(*self, record, "__va_list"@),
            CTypeKind::ConstantArray(element, size) => {
                &&& size == 1
                &&& self.resolved(element).kind matches CTypeKind::Struct(record)
                &&& is_struct_named(*self, record, "__va_list_tag"@)
            },
            _ => false,
        }
    }

    fn names_struct(&self, record: CDeclId, wanted: &str) -> (r: bool)
        requires
            self.has_decl(record),
        ensures
            r == is_struct_named(*self, record, wanted@),
    {
        match &self.index(record).kind {
            CDeclKind::Struct { name: Some(name), .. } => is_named(name, wanted),
            _ => false,
        }
    }

    /// Predicate for types that are used to implement C's `va_list`.
    pub fn is_va_list_struct(&self, typ: CTypeId) -> (r: bool)
        requires
            self.va_list_struct_known(typ),
        ensures
            r == self.spec_is_va_list_struct(typ),
    {
        match &self.resolve_type(typ).kind {
            CTypeKind::Struct(record) => self.names_struct(*record, "__va_list_tag")
                || self.names_struct(*record, "__va_list"),
            // Here a `va_list` is an array of one element, a `struct __va_list_tag`.
            CTypeKind::ConstantArray(element, 1) => match &self.resolve_type(*element).kind {
                CTypeKind::Struct(record) => self.names_struct(*record, "__va_list_tag"),
                _ => false,
            },
            _ => false,
        }
    }

    /// What a `va_list` of the target is, seen from `typ`: the type that a
    /// pointer points to or an array consists of, or `typ` itself, as the
    /// target has it. `None` where `typ` has not got that form.
    pub open spec fn va_list_target(&self, typ: CTypeId) -> Option<CTypeId> {
        match self.va_list_kind {
            BuiltinVaListKind::AArch64ABIBuiltinVaList
            | BuiltinVaListKind::AAPCSABIBuiltinVaList => Some(typ),
            _ => match self.resolved(typ).kind {
                CTypeKind::Pointer(target) => Some(target.ctype),
                CTypeKind::ConstantArray(element, _) => Some(element),
                _ => None,
            },
        }
    }

    /// What `is_va_list` looks at is there, and the target has a kind of
    /// `va_list` that is supported.
    pub open spec fn va_list_known(&self, typ: CTypeId) -> bool {
        &&& match self.va_list_kind {
            BuiltinVaListKind::CharPtrBuiltinVaList
            | BuiltinVaListKind::VoidPtrBuiltinVaList
            | BuiltinVaListKind::X86_64ABIBuiltinVaList
            | BuiltinVaListKind::AArch64ABIBuiltinVaList
            | BuiltinVaListKind::AAPCSABIBuiltinVaList => true,
            _ => false,
        }
        &&& self.resolves(typ)
        &&& self.va_list_target(typ) matches Some(target) ==> self.va_list_struct_known(target)
    }

    /// The type is a `va_list` of the target.
    pub open spec fn spec_is_va_list(&self, typ: CTypeId) -> bool {
        match self.va_list_target(typ) {
            Some(target) => self.spec_is_va_list_struct(target),
            None => false,
        }
    }

    /// Predicate for pointers to types that are used to implement C's `va_list`.
    pub fn is_va_list(&self, typ: CTypeId) -> (r: bool)
        requires
            self.va_list_known(typ),
        ensures
            r == self.spec_is_va_list(typ),
    {
        match self.va_list_kind {
            // Here a `va_list` is the record itself.
            BuiltinVaListKind::AArch64ABIBuiltinVaList
            | BuiltinVaListKind::AAPCSABIBuiltinVaList => self.is_va_list_struct(typ),
            _ => match &self.resolve_type(typ).kind {
                CTypeKind::Pointer(target) => self.is_va_list_struct(target.ctype),
                CTypeKind::ConstantArray(element, _) => self.is_va_list_struct(*element),
                _ => false,
            },
        }
    }

    /// The type comes down to a pointer to a function.
    pub open spec fn spec_is_function_pointer(&self, typ: CTypeId) -> bool {
        match self.resolved(typ).kind {
            CTypeKind::Pointer(target) => self.resolved(target.ctype).kind is Function,
            _ => false,
        }
    }

    /// Predicate for function pointers.
    pub fn is_function_pointer(&self, typ: CTypeId) -> (r: bool)
        requires
            self.resolves(typ),
            self.resolved(typ).kind matches CTypeKind::Pointer(target) ==> self.resolves(
                target.ctype,
            ),
        ensures
            r == self.spec_is_function_pointer(typ),
    {
        match &self.resolve_type(typ).kind {
            CTypeKind::Pointer(target) => match &self.resolve_type(target.ctype).kind {
                CTypeKind::Function(_, _, _, _, _) => true,
                _ => false,
            },
            _ => false,
        }
    }

    /// The type comes down to an array without a size, or with at most one element.
    pub open spec fn spec_maybe_flexible_array(&self, typ: CTypeId) -> bool {
        match self.resolved(typ).kind {
            CTypeKind::IncompleteArray(_) => true,
            CTypeKind::ConstantArray(_, size) => size <= 1,
            _ => false,
        }
    }

    /// Can the given field declaration be a flexible array member?
    pub fn maybe_flexible_array(&self, typ: CTypeId) -> (r: bool)
        requires
            self.resolves(typ),
        ensures
            r == self.spec_maybe_flexible_array(typ),
    {
        match &self.resolve_type(typ).kind {
            CTypeKind::IncompleteArray(_) => true,
            CTypeKind::ConstantArray(_, size) => *size == 0 || *size == 1,
            _ => false,
        }
    }

    /// What the pointer that the type comes down to points to.
    pub open spec fn spec_pointee(&self, typ: CTypeId) -> Option<CQualTypeId> {
        match self.resolved(typ).kind {
            CTypeKind::Pointer(target) => Some(target),
            _ => None,
        }
    }

    /// What a pointer type points to.
    pub fn get_pointee_qual_type(&self, typ: CTypeId) -> (r: Option<CQualTypeId>)
        requires
            self.resolves(typ),
        ensures
            r == self.spec_pointee(typ),
    {
        match &self.resolve_type(typ).kind {
            CTypeKind::Pointer(target) => Some(*target),
            _ => None,
        }
    }

    /// The casts around the expression come to an end.
    pub open spec fn casts_end(&self, expr_id: CExprId) -> bool {
        stops(cast_step(*self), expr_id)
    }

    /// The expression under all the casts.
    pub open spec fn uncast(&self, expr_id: CExprId) -> CExprId {
        chain_end(cast_step(*self), expr_id)
    }

    /// Resolve expression value, ignoring any casts.
    pub fn resolve_expr(&self, expr_id: CExprId) -> (r: (CExprId, &CExprKind))
        requires
            self.casts_end(expr_id),
        ensures
            r.0 == self.uncast(expr_id),
            *r.1 == self.expr_at(self.uncast(expr_id)).kind,
    {
        let ghost step = cast_step(*self);
        let mut cur = expr_id;
        loop
            invariant
                step == cast_step(*self),
                stops(step, cur),
                chain_end(step, cur) == chain_end(step, expr_id),
            decreases chain_len(step, cur),
        {
            proof {
                lemma_chain_step(step, cur);
            }
            let kind = &self.index(cur).kind;
            match kind {
                CExprKind::ImplicitCast(_, operand, _, _, _)
                | CExprKind::ExplicitCast(_, operand, _, _, _)
                | CExprKind::Paren(_, operand) => {
                    cur = *operand;
                },
                _ => {
                    return (cur, kind);
                },
            }
        }
    }

    /// The type that a declaration gives the expressions that refer to it.
    pub open spec fn declared_type(&self, decl_id: CDeclId) -> Option<CTypeId> {
        match self.decl_at(decl_id).kind {
            CDeclKind::Function { typ, .. } => Some(typ),
            CDeclKind::Variable { typ, .. } => Some(typ.ctype),
            CDeclKind::Typedef { typ, .. } => Some(typ.ctype),
            _ => None,
        }
    }

    /// The type of an expression without casts: that of the declaration it
    /// refers to, if it refers to one that has a type, else its own.
    pub open spec fn true_type(&self, kind: CExprKind) -> Option<CTypeId> {
        match kind {
            CExprKind::DeclRef(_, decl_id, _) => match self.declared_type(decl_id) {
                Some(typ) => Some(self.resolved_id(typ)),
                None => kind.spec_get_type(),
            },
            _ => kind.spec_get_type(),
        }
    }

    /// The expression under all the casts, with its type.
    pub open spec fn spec_expr_type(&self, expr_id: CExprId) -> Option<(CExprId, CTypeId)> {
        match self.true_type(self.expr_at(self.uncast(expr_id)).kind) {
            Some(typ) => Some((self.uncast(expr_id), typ)),
            None => None,
        }
    }

    /// Resolve true expression type, iterating through any casts and variable
    /// references.
    pub fn resolve_expr_type_id(&self, expr_id: CExprId) -> (r: Option<(CExprId, CTypeId)>)
        requires
            self.casts_end(expr_id),
            self.expr_at(self.uncast(expr_id)).kind matches CExprKind::DeclRef(_, decl_id, _)
                ==> {
                &&& self.has_decl(decl_id)
                &&& self.declared_type(decl_id) matches Some(typ) ==> self.resolves(typ)
            },
        ensures
            r == self.spec_expr_type(expr_id),
    {
        let (id, kind) = self.resolve_expr(expr_id);
        let mut ty = kind.get_type();
        if let CExprKind::DeclRef(_, decl_id, _) = kind {
            match &self.index(*decl_id).kind {
                CDeclKind::Function { typ, .. } => {
                    ty = Some(self.resolve_type_id(*typ));
                },
                CDeclKind::Variable { typ, .. } | CDeclKind::Typedef { typ, .. } => {
                    ty = Some(self.resolve_type_id(typ.ctype));
                },
                _ => {},
            }
        }
        match ty {
            Some(typ) => Some((id, typ)),
            None => None,
        }
    }

    /// What `expr_diverges` looks at is there.
    pub open spec fn divergence_known(&self, expr_id: CExprId) -> bool {
        &&& self.has_expr(expr_id)
        &&& self.expr_at(expr_id).kind matches CExprKind::Call(_, func_id, _) ==> {
            &&& self.has_expr(func_id)
            &&& self.expr_at(func_id).kind.spec_get_type() matches Some(type_id) ==> {
                &&& self.has_type(type_id)
                &&& self.type_at(type_id).kind matches CTypeKind::Pointer(target)
                    ==> self.has_type(target.ctype)
            }
        }
    }

    /// The type of the functions that an expression of type `type_id` points
    /// to says that they do not return.
    pub open spec fn points_to_no_return(&self, type_id: CTypeId) -> bool {
        match self.type_at(type_id).kind {
            CTypeKind::Pointer(target) => match self.type_at(target.ctype).kind {
                CTypeKind::Function(_, _, _, no_return, _) => no_return,
                _ => false,
            },
            _ => false,
        }
    }

    /// The expression calls a function whose type says that it does not return.
    pub open spec fn spec_diverges(&self, expr_id: CExprId) -> bool {
        match self.expr_at(expr_id).kind {
            CExprKind::Call(_, func_id, _) => match self.expr_at(func_id).kind.spec_get_type() {
                Some(type_id) => self.points_to_no_return(type_id),
                None => false,
            },
            _ => false,
        }
    }

    /// Pessimistically try to check if an expression doesn't return. If it
    /// does, or we can't tell that it doesn't, return `false`.
    pub fn expr_diverges(&self, expr_id: CExprId) -> (r: bool)
        requires
            self.divergence_known(expr_id),
        ensures
            r == self.spec_diverges(expr_id),
    {
        let func_id = match &self.index(expr_id).kind {
            CExprKind::Call(_, func_id, _) => *func_id,
            _ => {
                return false;
            },
        };
        let type_id = match self.index(func_id).kind.get_type() {
            None => {
                return false;
            },
            Some(t) => t,
        };
        let pointed_id = match &self.index(type_id).kind {
            CTypeKind::Pointer(target) => target.ctype,
            _ => {
                return false;
            },
        };
        match &self.index(pointed_id).kind {
            CTypeKind::Function(_, _, _, no_return, _) => *no_return,
            _ => false,
        }
    }

    /// The declaration is a struct with an alignment of its own.
    pub open spec fn spec_has_inner_struct(&self, decl_id: CDeclId) -> bool {
        match self.decl_at(decl_id).kind {
            CDeclKind::Struct { manual_alignment, .. } => manual_alignment is Some,
            _ => false,
        }
    }

    /// Has the struct to be wrapped in another one, to get its alignment?
    pub fn has_inner_struct_decl(&self, decl_id: CDeclId) -> (r: bool)
        requires
            self.has_decl(decl_id),
        ensures
            r == self.spec_has_inner_struct(decl_id),
    {
        match &self.index(decl_id).kind {
            CDeclKind::Struct { manual_alignment: Some(_), .. } => true,
            _ => false,
        }
    }

    /// The declaration is a struct that is packed, wholly or by a limit on alignment.
    pub open spec fn spec_is_packed_struct(&self, decl_id: CDeclId) -> bool {
        match self.decl_at(decl_id).kind {
            CDeclKind::Struct { is_packed, max_field_alignment, .. } => is_packed
                || max_field_alignment is Some,
            _ => false,
        }
    }

    /// Is the declaration a struct that is packed in any way?
    pub fn is_packed_struct_decl(&self, decl_id: CDeclId) -> (r: bool)
        requires
            self.has_decl(decl_id),
        ensures
            r == self.spec_is_packed_struct(decl_id),
    {
        match &self.index(decl_id).kind {
            CDeclKind::Struct { is_packed: true, .. } => true,
            CDeclKind::Struct { max_field_alignment: Some(_), .. } => true,
            _ => false,
        }
    }

    /// The type comes down to a struct with an alignment of its own.
    pub open spec fn spec_is_aligned_struct(&self, typ: CTypeId) -> bool {
        match self.resolved(typ).kind.spec_as_underlying_decl() {
            Some(decl_id) => match self.decl_at(decl_id).kind {
                CDeclKind::Struct { manual_alignment, .. } => manual_alignment is Some,
                _ => false,
            },
            None => false,
        }
    }

    /// Does the type come down to a struct with an alignment of its own?
    pub fn is_aligned_struct_type(&self, typ: CTypeId) -> (r: bool)
        requires
            self.resolves(typ),
            self.resolved(typ).kind.spec_as_underlying_decl() matches Some(decl_id)
                ==> self.has_decl(decl_id),
        ensures
            r == self.spec_is_aligned_struct(typ),
    {
        match self.resolve_type(typ).kind.as_underlying_decl() {
            Some(decl_id) => match &self.index(decl_id).kind {
                CDeclKind::Struct { manual_alignment: Some(_), .. } => true,
                _ => false,
            },
            None => false,
        }
    }
}

/// A type that only wraps or names another one comes down to what that one
/// comes down to, and every other type to itself.
pub proof fn law_what_types_come_down_to(ctx: TypedAstContext, typ: CTypeId)
    requires
        ctx.has_type(typ),
    ensures
        match ctx.type_at(typ).kind {
            CTypeKind::Attributed(CQualTypeId { ctype: inner, .. }, _)
            | CTypeKind::Elaborated(inner)
            | CTypeKind::Decayed(inner)
            | CTypeKind::TypeOf(inner)
            | CTypeKind::Paren(inner) => {
                &&& ctx.resolves(typ) <==> ctx.resolves(inner)
                &&& ctx.resolves(typ) ==> ctx.resolved_id(typ) == ctx.resolved_id(inner)
            },
            CTypeKind::Typedef(decl) => ctx.has_decl(decl) ==> match ctx.decl_at(decl).kind {
                CDeclKind::Typedef { typ: named, .. } => {
                    &&& ctx.resolves(typ) <==> ctx.resolves(named.ctype)
                    &&& ctx.resolves(typ) ==> ctx.resolved_id(typ) == ctx.resolved_id(named.ctype)
                },
                _ => !ctx.resolves(typ),
            },
            _ => ctx.resolves(typ) && ctx.resolved_id(typ) == typ,
        },
        ctx.resolves(typ) ==> ctx.resolved(typ) == ctx.nodes.types()[ctx.resolved_id(typ).0],
{
    lemma_chain_step(type_step(ctx), typ);
}

/// What a type comes down to is none of the types that wrap or name another.
pub proof fn law_resolved_types_are_bare(ctx: TypedAstContext, typ: CTypeId)
    requires
        ctx.resolves(typ),
    ensures
        match ctx.resolved(typ).kind {
            CTypeKind::Attributed(_, _) => false,
            CTypeKind::Elaborated(_) => false,
            CTypeKind::Decayed(_) => false,
            CTypeKind::TypeOf(_) => false,
            CTypeKind::Paren(_) => false,
            CTypeKind::Typedef(_) => false,
            _ => true,
        },
{
    law_resolving_twice_is_resolving_once(ctx, typ);
}

/// A cast of either sort is looked through to its operand, and every other
/// expression stands for itself.
pub proof fn law_casts_are_transparent(ctx: TypedAstContext, expr_id: CExprId)
    requires
        ctx.has_expr(expr_id),
    ensures
        match ctx.expr_at(expr_id).kind {
            CExprKind::ImplicitCast(_, operand, _, _, _)
            | CExprKind::ExplicitCast(_, operand, _, _, _) => {
                &&& ctx.casts_end(expr_id) <==> ctx.casts_end(operand)
                &&& ctx.casts_end(expr_id) ==> ctx.uncast(expr_id) == ctx.uncast(operand)
                &&& ctx.casts_end(expr_id) ==> ctx.spec_expr_type(expr_id) == ctx.spec_expr_type(
                    operand,
                )
            },
            _ => ctx.casts_end(expr_id) && ctx.uncast(expr_id) == expr_id,
        },
{
    law_no_parentheses_are_left(ctx, expr_id);
    lemma_chain_step(cast_step(ctx), expr_id);
}

/// Under its casts, a reference to a function, variable or typedef has the type
/// that the declaration gives it, resolved; every other expression has its own.
pub proof fn law_references_have_the_declared_type(ctx: TypedAstContext, expr_id: CExprId)
    requires
        ctx.casts_end(expr_id),
    ensures
        match ctx.expr_at(ctx.uncast(expr_id)).kind {
            CExprKind::DeclRef(own, decl_id, _) => match ctx.decl_at(decl_id).kind {
                CDeclKind::Function { typ, .. } => ctx.spec_expr_type(expr_id) == Some(
                    (ctx.uncast(expr_id), ctx.resolved_id(typ)),
                ),
                CDeclKind::Variable { typ, .. } => ctx.spec_expr_type(expr_id) == Some(
                    (ctx.uncast(expr_id), ctx.resolved_id(typ.ctype)),
                ),
                CDeclKind::Typedef { typ, .. } => ctx.spec_expr_type(expr_id) == Some(
                    (ctx.uncast(expr_id), ctx.resolved_id(typ.ctype)),
                ),
                _ => ctx.spec_expr_type(expr_id) == Some((ctx.uncast(expr_id), own.ctype)),
            },
            CExprKind::BadExpr => ctx.spec_expr_type(expr_id) is None,
            other => {
                &&& ctx.spec_expr_type(expr_id) matches Some((id, typ))
                &&& id == ctx.uncast(expr_id)
                &&& other.spec_get_qual_type() matches Some(own)
                &&& typ == own.ctype
            },
        },
{
}

/// A cast of either sort from a null constant to a pointer is a null
/// expression; a bit cast of either sort to a pointer type is one exactly if
/// its operand is; nothing else is.
pub proof fn law_null_pointer_constants(ctx: TypedAstContext, expr_id: CExprId)
    requires
        ctx.has_expr(expr_id),
    ensures
        match ctx.expr_at(expr_id).kind {
            CExprKind::ImplicitCast(ty, operand, cast, _, _)
            | CExprKind::ExplicitCast(ty, operand, cast, _, _) => {
                if cast == CastKind::NullToPointer {
                    ctx.null_check_ends(expr_id) && ctx.spec_is_null_expr(expr_id)
                } else if cast == CastKind::BitCast {
                    &&& ctx.null_check_ends(expr_id) ==> ctx.resolves(ty.ctype)
                    &&& ctx.resolves(ty.ctype) && ctx.resolved(ty.ctype).kind is Pointer ==> {
                        &&& ctx.null_check_ends(expr_id) <==> ctx.null_check_ends(operand)
                        &&& ctx.null_check_ends(expr_id) ==> ctx.spec_is_null_expr(expr_id)
                            == ctx.spec_is_null_expr(operand)
                    }
                    &&& ctx.resolves(ty.ctype) && !(ctx.resolved(ty.ctype).kind is Pointer)
                        ==> ctx.null_check_ends(expr_id) && !ctx.spec_is_null_expr(expr_id)
                } else {
                    ctx.null_check_ends(expr_id) && !ctx.spec_is_null_expr(expr_id)
                }
            },
            _ => ctx.null_check_ends(expr_id) && !ctx.spec_is_null_expr(expr_id),
        },
{
    lemma_chain_step(null_step(ctx), expr_id);
}

/// The name of the last typedef of a chain: that of a typedef of what is no
/// typedef itself, else that of the typedef that it names. What is no typedef
/// has no last one.
pub proof fn law_last_typedefs(ctx: TypedAstContext, typ: CTypeId, wanted: Seq<char>)
    requires
        ctx.typedefs_end(typ),
    ensures
        match ctx.type_at(typ).kind {
            CTypeKind::Typedef(decl) => {
                &&& ctx.decl_at(decl).kind matches CDeclKind::Typedef { name, typ: named, .. }
                &&& ctx.typedefs_end(named.ctype)
                &&& ctx.last_typedef_is_named(typ, wanted) == match ctx.type_at(named.ctype).kind {
                    CTypeKind::Typedef(_) => ctx.last_typedef_is_named(named.ctype, wanted),
                    _ => name@ == wanted,
                }
            },
            _ => !ctx.last_typedef_is_named(typ, wanted),
        },
{
    let step = typedef_step(ctx);
    lemma_chain_step(step, typ);
    if let Step::Next(next) = step(typ) {
        lemma_chain_step(step, next);
        let len = chain_len(step, next);
        if len == 0 {
            assert(chain_at(step, typ, 0) == typ);
        } else {
            assert(chain_at(step, typ, len) == chain_at(step, next, (len - 1) as nat));
        }
    }
}

/// What implements a `va_list`: a struct with either of two names, or an array
/// of exactly one struct with the first of them.
pub proof fn law_what_implements_va_list(ctx: TypedAstContext, typ: CTypeId)
    ensures
        ctx.spec_is_va_list_struct(typ) <==> match ctx.resolved(typ).kind {
            CTypeKind::Struct(record) => {
                &&& ctx.decl_at(record).kind matches CDeclKind::Struct { name, .. }
                &&& name matches Some(name)
                &&& name@ == "__va_list_tag"@ || name@ == "__va_list"@
            },
            CTypeKind::ConstantArray(element, 1) => {
                &&& ctx.resolved(element).kind matches CTypeKind::Struct(record)
                &&& ctx.decl_at(record).kind matches CDeclKind::Struct { name, .. }
                &&& name matches Some(name)
                &&& name@ == "__va_list_tag"@
            },
            _ => false,
        },
{
}

/// A `va_list` is what implements it where the target passes the record itself,
/// and elsewhere a pointer to that or an array of it.
pub proof fn law_va_lists_by_target(ctx: TypedAstContext, typ: CTypeId)
    requires
        ctx.va_list_known(typ),
    ensures
        if ctx.va_list_kind == BuiltinVaListKind::AArch64ABIBuiltinVaList || ctx.va_list_kind
            == BuiltinVaListKind::AAPCSABIBuiltinVaList {
            ctx.spec_is_va_list(typ) == ctx.spec_is_va_list_struct(typ)
        } else {
            ctx.spec_is_va_list(typ) <==> match ctx.resolved(typ).kind {
                CTypeKind::Pointer(target) => ctx.spec_is_va_list_struct(target.ctype),
                CTypeKind::ConstantArray(element, _) => ctx.spec_is_va_list_struct(element),
                _ => false,
            }
        },
{
}

/// A call diverges exactly if what is called has a type that points to a
/// function type that is marked as not returning; nothing else diverges.
pub proof fn law_what_diverges(ctx: TypedAstContext, expr_id: CExprId)
    ensures
        ctx.spec_diverges(expr_id) <==> {
            &&& ctx.expr_at(expr_id).kind matches CExprKind::Call(_, func, _)
            &&& ctx.expr_at(func).kind.spec_get_qual_type() matches Some(ty)
            &&& ctx.type_at(ty.ctype).kind matches CTypeKind::Pointer(target)
            &&& ctx.type_at(target.ctype).kind matches CTypeKind::Function(_, _, _, no_return, _)
            &&& no_return
        },
{
}

/// What is told of a type is told of what it comes down to: a typedef or
/// another wrapper around it changes nothing.
pub proof fn law_wrappers_change_no_answer(ctx: TypedAstContext, typ: CTypeId)
    requires
        ctx.resolves(typ),
    ensures
        ({
            let bare = ctx.resolved_id(typ);
            &&& ctx.spec_is_forward_declared(typ) == ctx.spec_is_forward_declared(bare)
            &&& ctx.spec_is_function_pointer(typ) == ctx.spec_is_function_pointer(bare)
            &&& ctx.spec_maybe_flexible_array(typ) == ctx.spec_maybe_flexible_array(bare)
            &&& ctx.spec_pointee(typ) == ctx.spec_pointee(bare)
            &&& ctx.spec_is_aligned_struct(typ) == ctx.spec_is_aligned_struct(bare)
            &&& ctx.spec_is_va_list_struct(typ) == ctx.spec_is_va_list_struct(bare)
            &&& ctx.spec_is_va_list(typ) == ctx.spec_is_va_list(bare)
        }),
{
    law_resolving_twice_is_resolving_once(ctx, typ);
}

/// Which types are forward declarations: records without fields and enums
/// without an integral type, and no others.
pub proof fn law_forward_declarations(ctx: TypedAstContext, typ: CTypeId)
    ensures
        ctx.spec_is_forward_declared(typ) <==> match ctx.resolved(typ).kind {
            CTypeKind::Struct(d) | CTypeKind::Union(d) | CTypeKind::Enum(d) => {
                match ctx.decl_at(d).kind {
                    CDeclKind::Struct { fields: None, .. } => true,
                    CDeclKind::Union { fields: None, .. } => true,
                    CDeclKind::Enum { integral_type: None, .. } => true,
                    _ => false,
                }
            },
            _ => false,
        },
{
}

/// Pointers, what they point to, and arrays that can be the last member of a
/// struct without a size.
pub proof fn law_pointers_and_flexible_arrays(ctx: TypedAstContext, typ: CTypeId)
    ensures
        match ctx.resolved(typ).kind {
            CTypeKind::Pointer(target) => {
                &&& ctx.spec_pointee(typ) == Some(target)
                &&& ctx.spec_is_function_pointer(typ) <==> (ctx.resolved(
                    target.ctype,
                ).kind is Function)
                &&& !ctx.spec_maybe_flexible_array(typ)
            },
            other => {
                &&& ctx.spec_pointee(typ) is None
                &&& !ctx.spec_is_function_pointer(typ)
                &&& ctx.spec_maybe_flexible_array(typ) <==> other is IncompleteArray || (
                other matches CTypeKind::ConstantArray(_, size) && (size == 0 || size == 1))
            },
        },
{
}

/// A struct has an inner one exactly if it was given an alignment, and is
/// packed exactly if it is marked so or the alignment of its fields is limited.
pub proof fn law_packing_and_alignment(ctx: TypedAstContext, id: CDeclId, typ: CTypeId)
    ensures
        ctx.spec_has_inner_struct(id) <==> {
            &&& ctx.decl_at(id).kind matches CDeclKind::Struct { manual_alignment, .. }
            &&& manual_alignment is Some
        },
        ctx.spec_is_packed_struct(id) <==> {
            &&& ctx.decl_at(id).kind matches CDeclKind::Struct {
                is_packed,
                max_field_alignment,
                ..
            }
            &&& is_packed || max_field_alignment is Some
        },
        ctx.spec_is_aligned_struct(typ) <==> match ctx.resolved(typ).kind {
            CTypeKind::Struct(d) | CTypeKind::Union(d) | CTypeKind::Enum(d) => {
                ctx.spec_has_inner_struct(d)
            },
            _ => false,
        },
{
}

} // verus!
