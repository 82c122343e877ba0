//! Records for the public items of one parsed source file.
use vstd::prelude::*;

use crate::docstring::{docstring_from_attrs, docstring_of};
use crate::model::{segment_views, Enum, Field, Function, Module, Struct, Variant};
use crate::signature::{convert_type, signature_of};
use crate::syntax::{EnumDecl, FieldDecl, FnDecl, Item, SourceFile, StructDecl, VariantDecl};
use crate::text::{child_path, clone_option, clone_strings, decimal, decimal_text, opt_view, views};

verus! {

/// The last identifier of a field's path: its name, or else its position.
pub open spec fn field_name(d: FieldDecl, position: nat) -> Seq<char> {
    match d.ident {
        Some(n) => n@,
        None => decimal(position),
    }
}

/// Whether `r` is the record of the field `d` at `position` under the path `parent`.
pub open spec fn field_record(r: Field, parent: Seq<Seq<char>>, position: nat, d: FieldDecl) -> bool {
    &&& views(r.path@) == parent.push(field_name(d, position))
    &&& r.docstring@ == docstring_of(d.attrs@)
    &&& segment_views(r.type_@) == signature_of(d.ty)
}

/// The positions of the public fields among `fields`, in order.
pub open spec fn public_positions(fields: Seq<FieldDecl>) -> Seq<nat>
    decreases fields.len(),
{
    if fields.len() == 0 {
        Seq::empty()
    } else {
        let rest = public_positions(fields.drop_last());
        if fields.last().public {
            rest.push((fields.len() - 1) as nat)
        } else {
            rest
        }
    }
}

/// Whether `fields` are the records of `decls` at the positions `positions`, under
/// the path `parent`.
pub open spec fn fields_record(
    fields: Seq<Field>,
    parent: Seq<Seq<char>>,
    positions: Seq<nat>,
    decls: Seq<FieldDecl>,
) -> bool {
    &&& fields.len() == positions.len()
    &&& forall|k: int|
        0 <= k < fields.len() ==> #[trigger] field_record(
            fields[k],
            parent,
            positions[k],
            decls[positions[k] as int],
        )
}

/// The positions `0, 1, ..., n - 1`.
pub open spec fn all_positions(n: nat) -> Seq<nat> {
    Seq::new(n, |i: int| i as nat)
}

/// Whether `r` is the record of the struct `d` under the module path `parent`: its
/// public fields, in order.
pub open spec fn struct_record(r: Struct, parent: Seq<Seq<char>>, d: StructDecl) -> bool {
    &&& views(r.path@) == parent.push(d.ident@)
    &&& r.docstring@ == docstring_of(d.attrs@)
    &&& fields_record(r.fields@, parent.push(d.ident@), public_positions(d.fields@), d.fields@)
}

/// Whether `r` is the record of the variant `d` under the enum path `parent`: all its
/// fields, in order.
pub open spec fn variant_record(r: Variant, parent: Seq<Seq<char>>, d: VariantDecl) -> bool {
    &&& views(r.path@) == parent.push(d.ident@)
    &&& r.docstring@ == docstring_of(d.attrs@)
    &&& opt_view(r.discriminant) == opt_view(d.discriminant)
    &&& fields_record(
        r.fields@,
        parent.push(d.ident@),
        all_positions(d.fields@.len()),
        d.fields@,
    )
}

/// Whether `r` is the record of the enum `d` under the module path `parent`.
pub open spec fn enum_record(r: Enum, parent: Seq<Seq<char>>, d: EnumDecl) -> bool {
    &&& views(r.path@) == parent.push(d.ident@)
    &&& r.docstring@ == docstring_of(d.attrs@)
    &&& r.variants@.len() == d.variants@.len()
    &&& forall|k: int|
        0 <= k < r.variants@.len() ==> #[trigger] variant_record(
            r.variants@[k],
            parent.push(d.ident@),
            d.variants@[k],
        )
}

/// Whether `r` is the record of the function `d` under the module path `parent`.
pub open spec fn function_record(r: Function, parent: Seq<Seq<char>>, d: FnDecl) -> bool {
    &&& views(r.path@) == parent.push(d.ident@)
    &&& r.docstring@ == docstring_of(d.attrs@)
}

/// The public structs among `items`, in order.
pub open spec fn public_structs(items: Seq<Item>) -> Seq<StructDecl>
    decreases items.len(),
{
    if items.len() == 0 {
        Seq::empty()
    } else {
        let rest = public_structs(items.drop_last());
        match items.last() {
            Item::Struct(d) => if d.public {
                rest.push(d)
            } else {
                rest
            },
            _ => rest,
        }
    }
}

/// The public enums among `items`, in order.
pub open spec fn public_enums(items: Seq<Item>) -> Seq<EnumDecl>
    decreases items.len(),
{
    if items.len() == 0 {
        Seq::empty()
    } else {
        let rest = public_enums(items.drop_last());
        match items.last() {
            Item::Enum(d) => if d.public {
                rest.push(d)
            } else {
                rest
            },
            _ => rest,
        }
    }
}

/// The public functions among `items`, in order.
pub open spec fn public_functions(items: Seq<Item>) -> Seq<FnDecl>
    decreases items.len(),
{
    if items.len() == 0 {
        Seq::empty()
    } else {
        let rest = public_functions(items.drop_last());
        match items.last() {
            Item::Fn(d) => if d.public {
                rest.push(d)
            } else {
                rest
            },
            _ => rest,
        }
    }
}

/// The names of the public modules among `items`, in order.
pub open spec fn declared_modules(items: Seq<Item>) -> Seq<Seq<char>>
    decreases items.len(),
{
    if items.len() == 0 {
        Seq::empty()
    } else {
        let rest = declared_modules(items.drop_last());
        match items.last() {
            Item::Mod(d) => if d.public {
                rest.push(d.ident@)
            } else {
                rest
            },
            _ => rest,
        }
    }
}

/// Whether `m` is the record of the module read from `file` at `path`.
pub open spec fn module_record(
    m: Module,
    file: Option<Seq<char>>,
    path: Seq<Seq<char>>,
    source: SourceFile,
) -> bool {
    &&& opt_view(m.file) == file
    &&& views(m.path@) == path
    &&& m.docstring@ == docstring_of(source.attrs@)
    &&& views(m.declarations@) == declared_modules(source.items@)
}

/// Whether `structs`, `enums` and `functions` are the records of the public items of
/// `items` under the module path `path`, in order.
pub open spec fn items_record(
    structs: Seq<Struct>,
    enums: Seq<Enum>,
    functions: Seq<Function>,
    path: Seq<Seq<char>>,
    items: Seq<Item>,
) -> bool {
    &&& structs.len() == public_structs(items).len()
    &&& forall|k: int|
        0 <= k < structs.len() ==> #[trigger] struct_record(
            structs[k],
            path,
            public_structs(items)[k],
        )
    &&& enums.len() == public_enums(items).len()
    &&& forall|k: int|
        0 <= k < enums.len() ==> #[trigger] enum_record(enums[k], path, public_enums(items)[k])
    &&& functions.len() == public_functions(items).len()
    &&& forall|k: int|
        0 <= k < functions.len() ==> #[trigger] function_record(
            functions[k],
            path,
            public_functions(items)[k],
        )
}

impl Field {
    /// The record of the field `ast` at `position` under the path `parent`.
    pub fn parse(parent: &Vec<String>, position: usize, ast: &FieldDecl) -> (r: Field)
        ensures
            field_record(r, views(parent@), position as nat, *ast),
    {
        let name = match &ast.ident {
            Some(n) => n.clone(),
            None => decimal_text(position),
        };
        Field {
            path: child_path(parent, name),
            docstring: docstring_from_attrs(&ast.attrs),
            type_: convert_type(&ast.ty),
        }
    }
}

impl Struct {
    /// The record of the struct `ast` under the module path `parent`.
    pub fn parse(parent: &Vec<String>, ast: &StructDecl) -> (r: Struct)
        ensures
            struct_record(r, views(parent@), *ast),
    {
        let path = child_path(parent, ast.ident.clone());
        let mut fields: Vec<Field> = Vec::new();
        let mut i: usize = 0;
        while i < ast.fields.len()
            invariant
                i <= ast.fields.len(),
                views(path@) == views(parent@).push(ast.ident@),
                fields_record(
                    fields@,
                    views(path@),
                    public_positions(ast.fields@.take(i as int)),
                    ast.fields@,
                ),
            decreases ast.fields.len() - i,
        {
            let ghost before = public_positions(ast.fields@.take(i as int));
            assert(ast.fields@.take(i + 1).drop_last() =~= ast.fields@.take(i as int));
            assert(ast.fields@.take(i + 1).last() == ast.fields@[i as int]);
            if ast.fields[i].public {
                let f = Field::parse(&path, i, &ast.fields[i]);
                fields.push(f);
                assert(public_positions(ast.fields@.take(i + 1)) == before.push(i as nat));
                assert(forall|k: int|
                    0 <= k < before.len() ==> #[trigger] before.push(i as nat)[k] == before[k]);
            }
            i += 1;
        }
        assert(ast.fields@.take(ast.fields.len() as int) =~= ast.fields@);
        Struct { path, docstring: docstring_from_attrs(&ast.attrs), fields }
    }
}

impl Variant {
    /// The record of the variant `ast` under the enum path `parent`.
    pub fn parse(parent: &Vec<String>, ast: &VariantDecl) -> (r: Variant)
        ensures
            variant_record(r, views(parent@), *ast),
    {
        let path = child_path(parent, ast.ident.clone());
        let mut fields: Vec<Field> = Vec::new();
        let mut i: usize = 0;
        while i < ast.fields.len()
            invariant
                i <= ast.fields.len(),
                views(path@) == views(parent@).push(ast.ident@),
                fields_record(fields@, views(path@), all_positions(i as nat), ast.fields@),
            decreases ast.fields.len() - i,
        {
            let ghost before = fields@;
            let f = Field::parse(&path, i, &ast.fields[i]);
            fields.push(f);
            let ghost positions = all_positions((i + 1) as nat);
            assert forall|k: int| 0 <= k < fields@.len() implies #[trigger] field_record(
                fields@[k],
                views(path@),
                positions[k],
                ast.fields@[positions[k] as int],
            ) by {
                assert(positions[k] == k as nat);
                if k < i {
                    assert(all_positions(i as nat)[k] == k as nat);
                    assert(fields@[k] == before[k]);
                }
            }
            i += 1;
        }
        Variant {
            path,
            docstring: docstring_from_attrs(&ast.attrs),
            discriminant: clone_option(&ast.discriminant),
            fields,
        }
    }
}

impl Enum {
    /// The record of the enum `ast` under the module path `parent`.
    pub fn parse(parent: &Vec<String>, ast: &EnumDecl) -> (r: Enum)
        ensures
            enum_record(r, views(parent@), *ast),
    {
        let path = child_path(parent, ast.ident.clone());
        let mut variants: Vec<Variant> = Vec::new();
        let mut i: usize = 0;
        while i < ast.variants.len()
            invariant
                i <= ast.variants.len(),
                views(path@) == views(parent@).push(ast.ident@),
                variants@.len() == i,
                forall|k: int|
                    0 <= k < i ==> #[trigger] variant_record(
                        variants@[k],
                        views(path@),
                        ast.variants@[k],
                    ),
            decreases ast.variants.len() - i,
        {
            let v = Variant::parse(&path, &ast.variants[i]);
            variants.push(v);
            i += 1;
        }
        Enum { path, docstring: docstring_from_attrs(&ast.attrs), variants }
    }
}

impl Function {
    /// The record of the function `ast` under the module path `parent`.
    pub fn parse(parent: &Vec<String>, ast: &FnDecl) -> (r: Function)
        ensures
            function_record(r, views(parent@), *ast),
    {
        Function {
            path: child_path(parent, ast.ident.clone()),
            docstring: docstring_from_attrs(&ast.attrs),
        }
    }
}

impl Module {
    /// The record of the module read from `file` at `path`, and the records of its
    /// public structs, enums and functions.
    pub fn parse(file: Option<String>, path: &Vec<String>, source: &SourceFile) -> (r: (
        Module,
        Vec<Struct>,
        Vec<Enum>,
        Vec<Function>,
    ))
        ensures
            module_record(r.0, opt_view(file), views(path@), *source),
            items_record(r.1@, r.2@, r.3@, views(path@), source.items@),
    {
        let mut declarations: Vec<String> = Vec::new();
        let mut structs: Vec<Struct> = Vec::new();
        let mut enums: Vec<Enum> = Vec::new();
        let mut functions: Vec<Function> = Vec::new();
        let mut i: usize = 0;
        while i < source.items.len()
            invariant
                i <= source.items.len(),
                views(declarations@) == declared_modules(source.items@.take(i as int)),
                items_record(
                    structs@,
                    enums@,
                    functions@,
                    views(path@),
                    source.items@.take(i as int),
                ),
            decreases source.items.len() - i,
        {
            let ghost items = source.items@.take(i + 1);
            assert(items.drop_last() =~= source.items@.take(i as int));
            assert(items.last() == source.items@[i as int]);
            match &source.items[i] {
                Item::Mod(d) => {
                    if d.public {
                        let ghost before = declarations@;
                        declarations.push(d.ident.clone());
                        assert(views(declarations@) =~= views(before).push(d.ident@));
                    }
                },
                Item::Struct(d) => {
                    if d.public {
                        let s = Struct::parse(path, d);
                        structs.push(s);
                    }
                },
                Item::Enum(d) => {
                    if d.public {
                        let e = Enum::parse(path, d);
                        enums.push(e);
                    }
                },
                Item::Fn(d) => {
                    if d.public {
                        let f = Function::parse(path, d);
                        functions.push(f);
                    }
                },
                Item::Other => {},
            }
            i += 1;
        }
        assert(source.items@.take(source.items.len() as int) =~= source.items@);
        let module = Module {
            file,
            path: clone_strings(path),
            docstring: docstring_from_attrs(&source.attrs),
            declarations,
        };
        (module, structs, enums, functions)
    }
}

} // verus!
