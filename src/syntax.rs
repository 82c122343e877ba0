//! The parsed form of a source file, as far as the analysis reads it.
use vstd::prelude::*;

verus! {

/// An attribute on an item: its path as text, and the string literal it is set to
/// when it has the form `#[name = "literal"]`.
#[derive(Debug, Clone, PartialEq, Eq)]
pub struct Attribute {
    pub path: String,
    pub string_value: Option<String>,
}

/// The qualifier of a raw pointer type.
#[derive(PartialEq, Eq, Structural, Clone, Copy, Debug)]
pub enum PointerKind {
    Const,
    Mut,
    Plain,
}

/// A type expression. Raw text is token text, with tokens separated by single spaces.
#[derive(Debug, PartialEq, Eq)]
pub enum TypeExpr {
    /// `[elem; len]`, with the length expression as raw text.
    Array { elem: Box<TypeExpr>, len: String },
    /// `[elem]`.
    Slice(Box<TypeExpr>),
    /// `(a, b, ...)`.
    Tuple(Vec<TypeExpr>),
    /// `&'lifetime mut elem`, with the lifetime's identifier without its apostrophe.
    Reference { lifetime: Option<String>, mutable: bool, elem: Box<TypeExpr> },
    /// `*const elem`, `*mut elem`.
    Ptr { kind: PointerKind, elem: Box<TypeExpr> },
    /// `(elem)`.
    Paren(Box<TypeExpr>),
    /// A type inside invisible delimiters, as macro expansion leaves it.
    Group(Box<TypeExpr>),
    /// `_`.
    Infer,
    /// `!`.
    Never,
    /// `impl A + B`, with each bound as raw text.
    ImplTrait(Vec<String>),
    /// `dyn A + B`, with each bound as raw text.
    TraitObject(Vec<String>),
    /// A path such as `a::b::C<D, E>`, as raw text.
    Path(String),
    /// Any other type, as raw text.
    Verbatim(String),
}

/// A field of a struct or an enum variant.
#[derive(Debug, PartialEq, Eq)]
pub struct FieldDecl {
    pub attrs: Vec<Attribute>,
    /// Whether the field is declared `pub`.
    pub public: bool,
    /// The field's name; `None` in a tuple struct or tuple variant.
    pub ident: Option<String>,
    pub ty: TypeExpr,
}

/// A variant of an enum.
#[derive(Debug, PartialEq, Eq)]
pub struct VariantDecl {
    pub attrs: Vec<Attribute>,
    pub ident: String,
    /// The discriminant expression as raw text.
    pub discriminant: Option<String>,
    pub fields: Vec<FieldDecl>,
}

/// A struct item.
#[derive(Debug, PartialEq, Eq)]
pub struct StructDecl {
    pub attrs: Vec<Attribute>,
    pub public: bool,
    pub ident: String,
    pub fields: Vec<FieldDecl>,
}

/// An enum item.
#[derive(Debug, PartialEq, Eq)]
pub struct EnumDecl {
    pub attrs: Vec<Attribute>,
    pub public: bool,
    pub ident: String,
    pub variants: Vec<VariantDecl>,
}

/// A function item.
#[derive(Debug, Clone, PartialEq, Eq)]
pub struct FnDecl {
    pub attrs: Vec<Attribute>,
    pub public: bool,
    pub ident: String,
}

/// A module item, declared (`mod a;`) or with a body.
#[derive(Debug, Clone, PartialEq, Eq)]
pub struct ModDecl {
    pub public: bool,
    pub ident: String,
}

/// A top-level item of a source file.
#[derive(Debug, PartialEq, Eq)]
pub enum Item {
    Mod(ModDecl),
    Struct(StructDecl),
    Enum(EnumDecl),
    Fn(FnDecl),
    /// Any other kind of item; the analysis skips it.
    Other,
}

/// A parsed source file: its inner attributes and its top-level items.
#[derive(Debug, PartialEq, Eq)]
pub struct SourceFile {
    pub attrs: Vec<Attribute>,
    pub items: Vec<Item>,
}

} // verus!
