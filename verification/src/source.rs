//! Source files and positions, as the parser front end reports them.

use vstd::prelude::*;

verus! {

/// A position in a file, named by the id that the front end gave the file.
#[derive(Debug, Copy, Clone, PartialEq, Eq, PartialOrd, Ord, Structural)]
pub struct SrcLoc {
    pub fileid: u64,
    pub line: u64,
    pub column: u64,
}

/// A stretch of one file.
#[derive(Debug, Copy, Clone, PartialEq, Eq, Structural)]
pub struct SrcSpan {
    pub fileid: u64,
    pub begin_line: u64,
    pub begin_column: u64,
    pub end_line: u64,
    pub end_column: u64,
}

/// A file that the front end read, with the place that pulled it in.
#[derive(Debug, Clone)]
pub struct SrcFile {
    pub path: Option<String>,
    pub include_loc: Option<SrcLoc>,
}

/// How the target represents a `va_list`.
#[derive(Debug, Copy, Clone, PartialEq, Eq, Structural)]
pub enum BuiltinVaListKind {
    CharPtrBuiltinVaList,
    VoidPtrBuiltinVaList,
    AArch64ABIBuiltinVaList,
    PNaClABIBuiltinVaList,
    PowerABIBuiltinVaList,
    X86_64ABIBuiltinVaList,
    AAPCSABIBuiltinVaList,
    SystemZBuiltinVaList,
}

/// Whether an expression denotes a place or a value.
#[derive(Debug, Copy, Clone, PartialEq, Eq, Structural)]
pub enum LRValue {
    LValue,
    RValue,
}

/// Some node, possibly with source location information bundled with it.
#[derive(Debug, Clone)]
pub struct Located<T> {
    pub loc: Option<SrcSpan>,
    pub kind: T,
}

impl SrcSpan {
    /// Where the span begins.
    pub open spec fn spec_begin(&self) -> SrcLoc {
        SrcLoc { fileid: self.fileid, line: self.begin_line, column: self.begin_column }
    }

    /// Where the span ends.
    pub open spec fn spec_end(&self) -> SrcLoc {
        SrcLoc { fileid: self.fileid, line: self.end_line, column: self.end_column }
    }

    #[verifier::when_used_as_spec(spec_begin)]
    pub fn begin(&self) -> (r: SrcLoc)
        ensures
            r == self.spec_begin(),
    {
        SrcLoc { fileid: self.fileid, line: self.begin_line, column: self.begin_column }
    }

    #[verifier::when_used_as_spec(spec_end)]
    pub fn end(&self) -> (r: SrcLoc)
        ensures
            r == self.spec_end(),
    {
        SrcLoc { fileid: self.fileid, line: self.end_line, column: self.end_column }
    }
}

impl SrcFile {
    /// An equal file.
    pub fn duplicate(&self) -> (r: SrcFile)
        ensures
            r == *self,
    {
        let path = match &self.path {
            Some(p) => Some(p.clone()),
            None => None,
        };
        SrcFile { path, include_loc: self.include_loc }
    }
}

impl<T> Located<T> {
    /// Where the node begins, if it has a location.
    pub open spec fn spec_begin_loc(&self) -> Option<SrcLoc> {
        match self.loc {
            Some(span) => Some(span.spec_begin()),
            None => None,
        }
    }

    /// Where the node ends, if it has a location.
    pub open spec fn spec_end_loc(&self) -> Option<SrcLoc> {
        match self.loc {
            Some(span) => Some(span.spec_end()),
            None => None,
        }
    }

    #[verifier::when_used_as_spec(spec_begin_loc)]
    pub fn begin_loc(&self) -> (r: Option<SrcLoc>)
        ensures
            r == self.spec_begin_loc(),
    {
        match self.loc {
            Some(span) => Some(span.begin()),
            None => None,
        }
    }

    #[verifier::when_used_as_spec(spec_end_loc)]
    pub fn end_loc(&self) -> (r: Option<SrcLoc>)
        ensures
            r == self.spec_end_loc(),
    {
        match self.loc {
            Some(span) => Some(span.end()),
            None => None,
        }
    }
}

/// A span begins at its first line and column and ends at its last, in one
/// file, and a node is where its span is.
pub proof fn law_spans_run_from_begin_to_end<T>(span: SrcSpan, node: Located<T>)
    ensures
        span.spec_begin().fileid == span.fileid,
        span.spec_begin().line == span.begin_line,
        span.spec_begin().column == span.begin_column,
        span.spec_end().fileid == span.fileid,
        span.spec_end().line == span.end_line,
        span.spec_end().column == span.end_column,
        node.loc == Some(span) ==> node.spec_begin_loc() == Some(span.spec_begin())
            && node.spec_end_loc() == Some(span.spec_end()),
        node.loc is None ==> node.spec_begin_loc() is None && node.spec_end_loc() is None,
{
}

} // verus!
