use vstd::prelude::*;

verus! {

/// How a dependency edge was declared in the source.
#[derive(Clone, Copy, Debug, PartialEq, Eq, Structural)]
pub enum ResolveKind {
    /// `import ... from "x"`, and re-exports that carry a source.
    Import,
    /// `require("x")`.
    Require,
    /// `import("x")`.
    DynamicImport,
    /// `module.hot.accept("x", cb)`.
    ModuleHotAccept,
}

impl ResolveKind {
    /// A small integer that identifies the kind inside an edge key.
    pub open spec fn spec_code(self) -> u8 {
        match self {
            ResolveKind::Import => 0,
            ResolveKind::Require => 1,
            ResolveKind::DynamicImport => 2,
            ResolveKind::ModuleHotAccept => 3,
        }
    }

    #[verifier::when_used_as_spec(spec_code)]
    pub fn code(self) -> (r: u8)
        ensures
            r == self.spec_code(),
    {
        match self {
            ResolveKind::Import => 0,
            ResolveKind::Require => 1,
            ResolveKind::DynamicImport => 2,
            ResolveKind::ModuleHotAccept => 3,
        }
    }

    /// The kind that a code stands for, if any.
    pub open spec fn spec_from_code(c: u8) -> Option<ResolveKind> {
        if c == 0 {
            Some(ResolveKind::Import)
        } else if c == 1 {
            Some(ResolveKind::Require)
        } else if c == 2 {
            Some(ResolveKind::DynamicImport)
        } else if c == 3 {
            Some(ResolveKind::ModuleHotAccept)
        } else {
            None
        }
    }

    pub fn from_code(c: u8) -> (r: Option<ResolveKind>)
        ensures
            r == Self::spec_from_code(c),
    {
        if c == 0 {
            Some(ResolveKind::Import)
        } else if c == 1 {
            Some(ResolveKind::Require)
        } else if c == 2 {
            Some(ResolveKind::DynamicImport)
        } else if c == 3 {
            Some(ResolveKind::ModuleHotAccept)
        } else {
            None
        }
    }
}

/// Start and end byte offsets of a node in the source text.
#[derive(Clone, Copy, Debug, PartialEq, Eq, Structural)]
pub struct ErrorSpan {
    pub start: u32,
    pub end: u32,
}

/// The identity of a dependency edge: specifier text, kind code, start, end.
/// Two edges are the same edge exactly when their keys are equal.
pub type EdgeKey = (Seq<char>, u8, u32, u32);

/// The executable form of an edge key, as stored in a `DependencySet`.
pub type Edge = (String, u8, u32, u32);

pub open spec fn edge_view(e: Edge) -> EdgeKey {
    (e.0@, e.1, e.2, e.3)
}

/// The key of the edge with the given parts.
pub open spec fn edge_key(specifier: Seq<char>, kind: ResolveKind, span: ErrorSpan) -> EdgeKey {
    (specifier, kind.spec_code(), span.start, span.end)
}

/// One module reference found in a file: its specifier as written (not
/// resolved to a path), how it was declared, and the span of the declaration
/// or call that holds it.
#[derive(Clone, Debug)]
pub struct ModuleDependency {
    pub specifier: String,
    pub kind: ResolveKind,
    pub span: ErrorSpan,
}

impl ModuleDependency {
    pub open spec fn key(&self) -> EdgeKey {
        edge_key(self.specifier@, self.kind, self.span)
    }

    /// The dependency as an edge of a `DependencySet`.
    pub fn to_edge(&self) -> (r: Edge)
        ensures
            edge_view(r) == self.key(),
    {
        (self.specifier.clone(), self.kind.code(), self.span.start, self.span.end)
    }

    /// The dependency that an edge stands for; `None` for an unknown kind code.
    pub fn from_edge(e: &Edge) -> (r: Option<ModuleDependency>)
        ensures
            ResolveKind::spec_from_code(e.1) is Some <==> r is Some,
            r is Some ==> r->0.key() == edge_view(*e),
    {
        match ResolveKind::from_code(e.1) {
            Some(kind) => Some(
                ModuleDependency {
                    specifier: e.0.clone(),
                    kind,
                    span: ErrorSpan { start: e.2, end: e.3 },
                },
            ),
            None => None,
        }
    }
}

} // verus!
