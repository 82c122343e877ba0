//! The path-addressed model of a package's public API.
use vstd::prelude::*;

use crate::text::{join, joined, views};

verus! {

/// A segment of a rendered type signature.
#[derive(Debug, Clone, PartialEq, Eq)]
pub enum TypeSegment {
    /// Text reproduced as written.
    Literal(String),
    /// Text naming a type that a renderer may link to.
    Referenceable(String),
}

/// What a segment holds, as mathematical text.
pub enum SegmentView {
    Literal(Seq<char>),
    Referenceable(Seq<char>),
}

impl SegmentView {
    pub open spec fn text(self) -> Seq<char> {
        match self {
            SegmentView::Literal(s) => s,
            SegmentView::Referenceable(s) => s,
        }
    }
}

impl View for TypeSegment {
    type V = SegmentView;

    open spec fn view(&self) -> SegmentView {
        match self {
            TypeSegment::Literal(s) => SegmentView::Literal(s@),
            TypeSegment::Referenceable(s) => SegmentView::Referenceable(s@),
        }
    }
}

/// The views of a list of segments.
pub open spec fn segment_views(v: Seq<TypeSegment>) -> Seq<SegmentView> {
    v.map_values(|s: TypeSegment| s@)
}

impl TypeSegment {
    /// The text that this segment contributes to the signature.
    pub open spec fn text(self) -> Seq<char> {
        self@.text()
    }

    /// The text that this segment contributes to the signature.
    pub fn content(&self) -> (r: &String)
        ensures
            r@ == self.text(),
    {
        match self {
            TypeSegment::Literal(s) => s,
            TypeSegment::Referenceable(s) => s,
        }
    }

    /// Whether this segment names a type that a renderer may link to.
    pub fn is_referenceable(&self) -> (r: bool)
        ensures
            r == (self@ is Referenceable),
    {
        match self {
            TypeSegment::Literal(_) => false,
            TypeSegment::Referenceable(_) => true,
        }
    }
}

/// The separator between the identifiers of a path in its display form.
pub open spec fn path_separator() -> Seq<char> {
    seq![':', ':']
}

/// The display form of a path: its identifiers joined with `::`.
pub open spec fn path_text(path: Seq<Seq<char>>) -> Seq<char> {
    joined(path, path_separator())
}

/// Whether `child` is `parent` with exactly one identifier appended.
pub open spec fn is_child_path(child: Seq<Seq<char>>, parent: Seq<Seq<char>>) -> bool {
    child.len() == parent.len() + 1 && child.drop_last() == parent
}

/// The display form of a path given as a list of strings.
pub fn path_display(path: &Vec<String>) -> (r: String)
    ensures
        r@ == path_text(views(path@)),
{
    proof {
        reveal_strlit("::");
        assert("::"@ =~= path_separator());
    }
    join(path, "::")
}

/// The last identifier of a non-empty path.
pub fn last_identifier(path: &Vec<String>) -> (r: String)
    requires
        path@.len() > 0,
    ensures
        r@ == views(path@).last(),
{
    path[path.len() - 1].clone()
}

/// A crate: the root of every path of one analysis.
#[derive(Debug, Clone, PartialEq, Eq)]
pub struct Crate {
    pub name: String,
    pub version: String,
    pub docstring: String,
}

impl Crate {
    /// The crate's path: its name alone.
    pub fn path(&self) -> (r: Vec<String>)
        ensures
            views(r@) == seq![self.name@],
    {
        let mut r: Vec<String> = Vec::new();
        r.push(self.name.clone());
        assert(views(r@) =~= seq![self.name@]);
        r
    }

    /// The display form of the crate's path: its name.
    pub fn path_str(&self) -> (r: String)
        ensures
            r@ == self.name@,
    {
        self.name.clone()
    }
}

/// A module.
#[derive(Debug, Clone, PartialEq, Eq)]
pub struct Module {
    /// The file the module was read from.
    pub file: Option<String>,
    /// The fully qualified path of the module.
    pub path: Vec<String>,
    pub docstring: String,
    /// The public sub-modules that the module declares, as written.
    pub declarations: Vec<String>,
}

impl Module {
    /// The display form of the module's path.
    pub fn path_str(&self) -> (r: String)
        ensures
            r@ == path_text(views(self.path@)),
    {
        path_display(&self.path)
    }

    /// The module's own name: the last identifier of its path.
    pub fn name(&self) -> (r: String)
        requires
            self.path@.len() > 0,
        ensures
            r@ == views(self.path@).last(),
    {
        last_identifier(&self.path)
    }
}

/// A struct, with its public fields.
#[derive(Debug, Clone, PartialEq, Eq)]
pub struct Struct {
    pub path: Vec<String>,
    pub docstring: String,
    pub fields: Vec<Field>,
}

impl Struct {
    /// The display form of the struct's path.
    pub fn path_str(&self) -> (r: String)
        ensures
            r@ == path_text(views(self.path@)),
    {
        path_display(&self.path)
    }

    /// The struct's own name.
    pub fn name(&self) -> (r: String)
        requires
            self.path@.len() > 0,
        ensures
            r@ == views(self.path@).last(),
    {
        last_identifier(&self.path)
    }
}

/// An enum, with its variants.
#[derive(Debug, Clone, PartialEq, Eq)]
pub struct Enum {
    pub path: Vec<String>,
    pub docstring: String,
    pub variants: Vec<Variant>,
}

impl Enum {
    /// The display form of the enum's path.
    pub fn path_str(&self) -> (r: String)
        ensures
            r@ == path_text(views(self.path@)),
    {
        path_display(&self.path)
    }

    /// The enum's own name.
    pub fn name(&self) -> (r: String)
        requires
            self.path@.len() > 0,
        ensures
            r@ == views(self.path@).last(),
    {
        last_identifier(&self.path)
    }
}

/// A variant of an enum, with all its fields.
#[derive(Debug, Clone, PartialEq, Eq)]
pub struct Variant {
    pub path: Vec<String>,
    pub docstring: String,
    /// The discriminant expression, as raw text.
    pub discriminant: Option<String>,
    pub fields: Vec<Field>,
}

impl Variant {
    /// The display form of the variant's path.
    pub fn path_str(&self) -> (r: String)
        ensures
            r@ == path_text(views(self.path@)),
    {
        path_display(&self.path)
    }

    /// The variant's own name.
    pub fn name(&self) -> (r: String)
        requires
            self.path@.len() > 0,
        ensures
            r@ == views(self.path@).last(),
    {
        last_identifier(&self.path)
    }
}

/// A field of a struct or variant. The last identifier of its path is the field's
/// name, or its position in a tuple struct or tuple variant.
#[derive(Debug, Clone, PartialEq, Eq)]
pub struct Field {
    pub path: Vec<String>,
    pub docstring: String,
    pub type_: Vec<TypeSegment>,
}

impl Field {
    /// The display form of the field's path.
    pub fn path_str(&self) -> (r: String)
        ensures
            r@ == path_text(views(self.path@)),
    {
        path_display(&self.path)
    }

    /// The field's own name.
    pub fn name(&self) -> (r: String)
        requires
            self.path@.len() > 0,
        ensures
            r@ == views(self.path@).last(),
    {
        last_identifier(&self.path)
    }
}

/// A function.
#[derive(Debug, Clone, PartialEq, Eq)]
pub struct Function {
    pub path: Vec<String>,
    pub docstring: String,
}

impl Function {
    /// The display form of the function's path.
    pub fn path_str(&self) -> (r: String)
        ensures
            r@ == path_text(views(self.path@)),
    {
        path_display(&self.path)
    }

    /// The function's own name.
    pub fn name(&self) -> (r: String)
        requires
            self.path@.len() > 0,
        ensures
            r@ == views(self.path@).last(),
    {
        last_identifier(&self.path)
    }
}

/// Everything one analysis of a package found.
#[derive(Debug, Clone, PartialEq, Eq)]
pub struct AnalysisResult {
    pub crate_: Crate,
    pub modules: Vec<Module>,
    pub structs: Vec<Struct>,
    pub enums: Vec<Enum>,
    pub functions: Vec<Function>,
}

impl AnalysisResult {
    /// A result holding the crate alone.
    pub fn new(crate_: Crate) -> (r: Self)
        ensures
            r.crate_ == crate_,
            r.modules@.len() == 0,
            r.structs@.len() == 0,
            r.enums@.len() == 0,
            r.functions@.len() == 0,
    {
        AnalysisResult {
            crate_,
            modules: Vec::new(),
            structs: Vec::new(),
            enums: Vec::new(),
            functions: Vec::new(),
        }
    }
}

} // verus!
