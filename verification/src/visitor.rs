//! The syntax nodes that the rules look at, as the values that the rules read of them.

use crate::upgrader::{TextRange, ToTextRange};
use vstd::pervasive::unreached;
use vstd::prelude::*;

verus! {

/// The categories of syntax nodes that rules can be attached to.
#[derive(Clone, Copy, Debug, PartialEq, Eq, Structural)]
pub enum NodeKind {
    MethodCallExpr,
    CallExpr,
    IdentPat,
    Path,
    PathExpr,
    PathPat,
    FieldExpr,
    RecordPat,
    RecordExpr,
    RecordExprField,
    RecordPatField,
    TupleStructPat,
    /// Any other node: the walk passes through it.
    Other,
}

/// A declaration as the frontend identifies it: a handle that is equal for the same
/// declaration and for no other of its kind.
#[derive(Clone, Copy, Debug, PartialEq, Eq, Structural)]
pub enum Decl {
    Struct(u64),
    Method(u64),
    Field(u64),
    Variant(u64),
}

/// An identifier that declares a name.
#[derive(Clone, Debug)]
pub struct Name {
    pub text: String,
    pub range: TextRange,
}

/// An identifier that refers to a name.
#[derive(Clone, Debug)]
pub struct NameRef {
    pub text: String,
    pub range: TextRange,
}

/// An identifier of either form.
#[derive(Clone, Debug)]
pub enum NameOrNameRef {
    Name(Name),
    NameRef(NameRef),
}

/// One segment of a path, with its identifier.
#[derive(Clone, Debug)]
pub struct PathSegment {
    pub name_ref: Option<NameRef>,
}

/// A path; `segment` is its last segment.
#[derive(Clone, Debug)]
pub struct Path {
    pub segment: Option<PathSegment>,
}

/// One syntax node: its category, its span and text, the identifier by which rules find
/// it, and the declaration that the frontend resolved it to.
#[derive(Clone, Debug)]
pub struct Node {
    pub kind: NodeKind,
    pub range: TextRange,
    pub text: String,
    /// The node's own identifier: a method's or field's name, a binding's name, or the
    /// name in the last segment of the node's path.
    pub name: Option<NameOrNameRef>,
    /// A record field written without its name, as in `Struct { member }`.
    pub shorthand: bool,
    /// What the node names, where the frontend could tell.
    pub target: Option<Decl>,
}

/// A node with the nodes below it, in source order.
#[derive(Debug)]
pub struct SyntaxTree {
    pub node: Node,
    pub children: Vec<SyntaxTree>,
}

impl NameOrNameRef {
    /// The identifier's characters.
    pub open spec fn text(self) -> Seq<char> {
        match self {
            NameOrNameRef::Name(n) => n.text@,
            NameOrNameRef::NameRef(n) => n.text@,
        }
    }

    /// The identifier's span.
    pub open spec fn range(self) -> TextRange {
        match self {
            NameOrNameRef::Name(n) => n.range,
            NameOrNameRef::NameRef(n) => n.range,
        }
    }
}

impl Node {
    /// The characters of the node's identifier, where it has one.
    pub open spec fn local_name(self) -> Option<Seq<char>> {
        match self.name {
            Some(n) => Some(n.text()),
            None => None,
        }
    }
}

/// The text of an identifier of either form.
pub fn get_name(name_or_name_ref: Option<NameOrNameRef>) -> (r: Option<String>)
    ensures
        match name_or_name_ref {
            Some(n) => r matches Some(s) && s@ == n.text(),
            None => r is None,
        },
{
    match name_or_name_ref {
        Some(NameOrNameRef::Name(name)) => Some(name.text),
        Some(NameOrNameRef::NameRef(name_ref)) => Some(name_ref.text),
        None => None,
    }
}

/// The text of a referring identifier.
pub fn get_name_from_name_ref(name_ref: Option<NameRef>) -> (r: Option<String>)
    ensures
        match name_ref {
            Some(n) => r matches Some(s) && s@ == n.text@,
            None => r is None,
        },
{
    match name_ref {
        Some(n) => Some(n.text),
        None => None,
    }
}

/// The text of a declaring identifier.
pub fn get_name_from_name(name: Option<Name>) -> (r: Option<String>)
    ensures
        match name {
            Some(n) => r matches Some(s) && s@ == n.text@,
            None => r is None,
        },
{
    match name {
        Some(n) => Some(n.text),
        None => None,
    }
}

/// The identifier in the last segment of a path, where the path has one.
pub open spec fn path_name(path: Option<Path>) -> Option<Seq<char>> {
    match path {
        Some(Path { segment: Some(PathSegment { name_ref: Some(n) }) }) => Some(n.text@),
        _ => None,
    }
}

/// The text of the identifier in the last segment of a path.
pub fn get_name_from_path(path: Option<Path>) -> (r: Option<String>)
    ensures
        match path_name(path) {
            Some(t) => r matches Some(s) && s@ == t,
            None => r is None,
        },
{
    match path {
        Some(p) => match p.segment {
            Some(segment) => get_name_from_name_ref(segment.name_ref),
            None => None,
        },
        None => None,
    }
}

impl ToTextRange for Option<Name> {
    open spec fn has_range(&self) -> bool {
        self is Some
    }

    open spec fn range(&self) -> TextRange {
        self->0.range
    }

    fn to(self) -> (r: TextRange) {
        match self {
            Some(name) => name.range,
            None => unreached(),
        }
    }
}

impl ToTextRange for Option<NameRef> {
    open spec fn has_range(&self) -> bool {
        self is Some
    }

    open spec fn range(&self) -> TextRange {
        self->0.range
    }

    fn to(self) -> (r: TextRange) {
        match self {
            Some(name_ref) => name_ref.range,
            None => unreached(),
        }
    }
}

/// The span of a segment is that of its identifier.
impl ToTextRange for Option<PathSegment> {
    open spec fn has_range(&self) -> bool {
        self matches Some(segment) && segment.name_ref is Some
    }

    open spec fn range(&self) -> TextRange {
        self->0.name_ref->0.range
    }

    fn to(self) -> (r: TextRange) {
        match self {
            Some(segment) => segment.name_ref.to(),
            None => unreached(),
        }
    }
}

/// The span of a path is that of the identifier in its last segment.
impl ToTextRange for Option<Path> {
    open spec fn has_range(&self) -> bool {
        self matches Some(path) && path.segment matches Some(segment) && segment.name_ref is Some
    }

    open spec fn range(&self) -> TextRange {
        self->0.segment->0.name_ref->0.range
    }

    fn to(self) -> (r: TextRange) {
        match self {
            Some(path) => path.segment.to(),
            None => unreached(),
        }
    }
}

} // verus!
