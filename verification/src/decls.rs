//! C declarations.

use crate::attributes::AttributeSet;
use crate::exprs::ConstIntExpr;
use crate::ids::{CDeclId, CEnumConstantId, CExprId, CFieldId, CFuncTypeId, CParamId, CStmtId};
use crate::source::Located;
use crate::types::CQualTypeId;
use vstd::prelude::*;

verus! {

/// A declaration with its location.
pub type CDecl = Located<CDeclKind>;

/// Represents a declaration in C.
#[derive(Debug, Clone)]
pub enum CDeclKind {
    Function {
        is_global: bool,
        is_inline: bool,
        is_implicit: bool,
        is_extern: bool,
        is_inline_externally_visible: bool,
        typ: CFuncTypeId,
        name: String,
        parameters: Vec<CParamId>,
        body: Option<CStmtId>,
        attrs: AttributeSet,
    },
    Variable {
        has_static_duration: bool,
        has_thread_duration: bool,
        is_externally_visible: bool,
        is_defn: bool,
        ident: String,
        initializer: Option<CExprId>,
        typ: CQualTypeId,
        attrs: AttributeSet,
    },
    Enum {
        name: Option<String>,
        variants: Vec<CEnumConstantId>,
        integral_type: Option<CQualTypeId>,
    },
    EnumConstant { name: String, value: ConstIntExpr },
    Typedef { name: String, typ: CQualTypeId, is_implicit: bool },
    Struct {
        name: Option<String>,
        fields: Option<Vec<CFieldId>>,
        is_packed: bool,
        manual_alignment: Option<u64>,
        max_field_alignment: Option<u64>,
        platform_byte_size: u64,
        platform_alignment: u64,
    },
    Union { name: Option<String>, fields: Option<Vec<CFieldId>>, is_packed: bool },
    Field {
        name: String,
        typ: CQualTypeId,
        bitfield_width: Option<u64>,
        platform_bit_offset: u64,
        platform_type_bitwidth: u64,
    },
    MacroObject { name: String },
    MacroFunction { name: String },
    NonCanonicalDecl { canonical_decl: CDeclId },
    StaticAssert { assert_expr: CExprId, message: Option<CExprId> },
}

impl CDeclKind {
    /// The name that the declaration introduces, if it has one that callers
    /// can refer to.
    pub open spec fn spec_name(&self) -> Option<String> {
        match self {
            CDeclKind::Function { name, .. } => Some(*name),
            CDeclKind::Variable { ident, .. } => Some(*ident),
            CDeclKind::Typedef { name, .. } => Some(*name),
            CDeclKind::EnumConstant { name, .. } => Some(*name),
            CDeclKind::Enum { name, .. } => *name,
            CDeclKind::Struct { name, .. } => *name,
            CDeclKind::Union { name, .. } => *name,
            CDeclKind::Field { name, .. } => Some(*name),
            CDeclKind::MacroObject { name } => Some(*name),
            _ => None,
        }
    }

    pub fn get_name(&self) -> (r: Option<&String>)
        ensures
            match r {
                Some(name) => self.spec_name() == Some(*name),
                None => self.spec_name() is None,
            },
    {
        match self {
            CDeclKind::Function { name, .. } => Some(name),
            CDeclKind::Variable { ident, .. } => Some(ident),
            CDeclKind::Typedef { name, .. } => Some(name),
            CDeclKind::EnumConstant { name, .. } => Some(name),
            CDeclKind::Enum { name: Some(name), .. } => Some(name),
            CDeclKind::Struct { name: Some(name), .. } => Some(name),
            CDeclKind::Union { name: Some(name), .. } => Some(name),
            CDeclKind::Field { name, .. } => Some(name),
            CDeclKind::MacroObject { name } => Some(name),
            _ => None,
        }
    }
}

/// Every declaration that has a name introduces that name; a macro with
/// parameters, a redeclaration and an assertion introduce none.
pub proof fn law_names_of_declarations(kind: CDeclKind)
    ensures
        match kind {
            CDeclKind::Function { name, .. } => kind.spec_name() == Some(name),
            CDeclKind::Variable { ident, .. } => kind.spec_name() == Some(ident),
            CDeclKind::Enum { name, .. } => kind.spec_name() == name,
            CDeclKind::EnumConstant { name, .. } => kind.spec_name() == Some(name),
            CDeclKind::Typedef { name, .. } => kind.spec_name() == Some(name),
            CDeclKind::Struct { name, .. } => kind.spec_name() == name,
            CDeclKind::Union { name, .. } => kind.spec_name() == name,
            CDeclKind::Field { name, .. } => kind.spec_name() == Some(name),
            CDeclKind::MacroObject { name } => kind.spec_name() == Some(name),
            CDeclKind::MacroFunction { .. } => kind.spec_name() is None,
            CDeclKind::NonCanonicalDecl { .. } => kind.spec_name() is None,
            CDeclKind::StaticAssert { .. } => kind.spec_name() is None,
        },
{
}

} // verus!
