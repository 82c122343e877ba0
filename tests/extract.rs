use analyzer::model::{Enum, Field, Function, Module, Struct, TypeSegment, Variant};
use analyzer::syntax::{
    Attribute, EnumDecl, FieldDecl, FnDecl, Item, ModDecl, SourceFile, StructDecl, TypeExpr,
    VariantDecl,
};

fn strs(v: &[&str]) -> Vec<String> {
    v.iter().map(|s| s.to_string()).collect()
}

fn doc(s: &str) -> Attribute {
    Attribute { path: "doc".to_string(), string_value: Some(s.to_string()) }
}

fn path(s: &str) -> TypeExpr {
    TypeExpr::Path(s.to_string())
}

fn field(public: bool, ident: Option<&str>, attrs: Vec<Attribute>, ty: TypeExpr) -> FieldDecl {
    FieldDecl { attrs, public, ident: ident.map(|s| s.to_string()), ty }
}

#[test]
fn test_parse_struct_no_fields() {
    let ast = StructDecl {
        attrs: vec![doc(" Multi-line"), doc(" docstring")],
        public: true,
        ident: "MyStruct".to_string(),
        fields: vec![],
    };
    let s = Struct::parse(&strs(&["crate"]), &ast);
    assert_eq!(
        s,
        Struct {
            path: strs(&["crate", "MyStruct"]),
            docstring: "Multi-line\ndocstring".to_string(),
            fields: vec![],
        }
    );
}

#[test]
fn test_parse_struct_fields() {
    let ast = StructDecl {
        attrs: vec![doc(" Multi-line"), doc(" docstring")],
        public: true,
        ident: "MyStruct".to_string(),
        fields: vec![
            field(
                true,
                Some("my_field"),
                vec![doc(" Docstring")],
                TypeExpr::Array { elem: Box::new(path("T")), len: "1".to_string() },
            ),
            field(false, Some("other"), vec![doc(" a non-public field")], path("String")),
        ],
    };
    let s = Struct::parse(&strs(&["crate"]), &ast);
    assert_eq!(
        s,
        Struct {
            path: strs(&["crate", "MyStruct"]),
            docstring: "Multi-line\ndocstring".to_string(),
            fields: vec![Field {
                path: strs(&["crate", "MyStruct", "my_field"]),
                docstring: "Docstring".to_string(),
                type_: vec![
                    TypeSegment::Literal("[".to_string()),
                    TypeSegment::Referenceable("T".to_string()),
                    TypeSegment::Literal("; 1]".to_string()),
                ],
            }],
        }
    );
}

#[test]
fn tuple_struct_fields_are_named_by_position() {
    let ast = StructDecl {
        attrs: vec![],
        public: true,
        ident: "Pair".to_string(),
        fields: vec![
            field(false, None, vec![], path("u8")),
            field(true, None, vec![], path("u16")),
            field(true, None, vec![], path("u32")),
        ],
    };
    let s = Struct::parse(&strs(&["c", "m"]), &ast);
    let names: Vec<String> = s.fields.iter().map(|f| f.name()).collect();
    assert_eq!(names, strs(&["1", "2"]));
    assert_eq!(s.fields[1].path, strs(&["c", "m", "Pair", "2"]));
    assert_eq!(s.fields[1].path_str(), "c::m::Pair::2");
}

#[test]
fn field_position_of_many_digits() {
    let f = Field::parse(&strs(&["c", "S"]), 1234, &field(true, None, vec![], path("u8")));
    assert_eq!(f.path, strs(&["c", "S", "1234"]));
}

#[test]
fn test_parse_enum() {
    let ast = EnumDecl {
        attrs: vec![doc(" Multi-line"), doc(" docstring")],
        public: true,
        ident: "MyEnum".to_string(),
        variants: vec![
            VariantDecl {
                attrs: vec![doc(" variant without fields")],
                ident: "MyVariant1".to_string(),
                discriminant: None,
                fields: vec![],
            },
            VariantDecl {
                attrs: vec![doc(" variant with discriminant")],
                ident: "MyVariant2".to_string(),
                discriminant: Some("1".to_string()),
                fields: vec![],
            },
            VariantDecl {
                attrs: vec![doc(" variant with unnamed fields")],
                ident: "MyVariant3".to_string(),
                discriminant: None,
                fields: vec![field(false, None, vec![], path("u8"))],
            },
            VariantDecl {
                attrs: vec![doc(" variant with named fields")],
                ident: "MyVariant3".to_string(),
                discriminant: None,
                fields: vec![field(false, Some("field"), vec![doc(" field docstring")], path("u8"))],
            },
        ],
    };
    let e = Enum::parse(&strs(&["crate"]), &ast);
    let u8_sig = vec![TypeSegment::Referenceable("u8".to_string())];
    assert_eq!(
        e,
        Enum {
            path: strs(&["crate", "MyEnum"]),
            docstring: "Multi-line\ndocstring".to_string(),
            variants: vec![
                Variant {
                    path: strs(&["crate", "MyEnum", "MyVariant1"]),
                    docstring: "variant without fields".to_string(),
                    discriminant: None,
                    fields: vec![],
                },
                Variant {
                    path: strs(&["crate", "MyEnum", "MyVariant2"]),
                    docstring: "variant with discriminant".to_string(),
                    discriminant: Some("1".to_string()),
                    fields: vec![],
                },
                Variant {
                    path: strs(&["crate", "MyEnum", "MyVariant3"]),
                    docstring: "variant with unnamed fields".to_string(),
                    discriminant: None,
                    fields: vec![Field {
                        path: strs(&["crate", "MyEnum", "MyVariant3", "0"]),
                        docstring: "".to_string(),
                        type_: u8_sig.clone(),
                    }],
                },
                Variant {
                    path: strs(&["crate", "MyEnum", "MyVariant3"]),
                    docstring: "variant with named fields".to_string(),
                    discriminant: None,
                    fields: vec![Field {
                        path: strs(&["crate", "MyEnum", "MyVariant3", "field"]),
                        docstring: "field docstring".to_string(),
                        type_: u8_sig.clone(),
                    }],
                },
            ],
        }
    );
    assert_eq!(e.variants[0].name(), "MyVariant1");
    assert_eq!(e.variants[0].path_str(), "crate::MyEnum::MyVariant1");
}

#[test]
fn test_function_parse() {
    let item = FnDecl {
        attrs: vec![doc(" This is a docstring")],
        public: true,
        ident: "my_function".to_string(),
    };
    let func = Function::parse(&strs(&["my_module"]), &item);
    assert_eq!(
        func,
        Function {
            path: strs(&["my_module", "my_function"]),
            docstring: "This is a docstring".to_string(),
        }
    );
    assert_eq!(func.name(), "my_function");
    assert_eq!(func.path_str(), "my_module::my_function");
}

#[test]
fn test_parse_module() {
    let source = SourceFile {
        attrs: vec![doc(" Multi-line"), doc(" docstring")],
        items: vec![Item::Enum(EnumDecl {
            attrs: vec![],
            public: true,
            ident: "MyEnum".to_string(),
            variants: vec![VariantDecl {
                attrs: vec![],
                ident: "MyVariant1".to_string(),
                discriminant: None,
                fields: vec![],
            }],
        })],
    };
    let (module, structs, enums, functions) = Module::parse(None, &strs(&["test"]), &source);
    assert_eq!(
        module,
        Module {
            file: None,
            path: strs(&["test"]),
            docstring: "Multi-line\ndocstring".to_string(),
            declarations: vec![],
        }
    );
    assert!(structs.is_empty());
    assert!(functions.is_empty());
    assert_eq!(
        enums,
        vec![Enum {
            path: strs(&["test", "MyEnum"]),
            docstring: "".to_string(),
            variants: vec![Variant {
                path: strs(&["test", "MyEnum", "MyVariant1"]),
                docstring: "".to_string(),
                discriminant: None,
                fields: vec![],
            }],
        }]
    );
}

#[test]
fn private_items_and_other_kinds_are_skipped() {
    let source = SourceFile {
        attrs: vec![],
        items: vec![
            Item::Mod(ModDecl { public: true, ident: "a".to_string() }),
            Item::Mod(ModDecl { public: false, ident: "hidden".to_string() }),
            Item::Struct(StructDecl {
                attrs: vec![],
                public: false,
                ident: "Private".to_string(),
                fields: vec![],
            }),
            Item::Fn(FnDecl { attrs: vec![], public: true, ident: "f".to_string() }),
            Item::Fn(FnDecl { attrs: vec![], public: false, ident: "g".to_string() }),
            Item::Other,
            Item::Mod(ModDecl { public: true, ident: "b".to_string() }),
        ],
    };
    let (module, structs, enums, functions) =
        Module::parse(Some("src/lib.rs".to_string()), &strs(&["c"]), &source);
    assert_eq!(module.declarations, strs(&["a", "b"]));
    assert_eq!(module.file, Some("src/lib.rs".to_string()));
    assert_eq!(module.name(), "c");
    assert_eq!(module.path_str(), "c");
    assert!(structs.is_empty());
    assert!(enums.is_empty());
    assert_eq!(functions.len(), 1);
    assert_eq!(functions[0].path, strs(&["c", "f"]));
}

#[test]
fn getters_give_name_and_display_path() {
    let s = Struct { path: strs(&["c", "m", "S"]), docstring: String::new(), fields: vec![] };
    assert_eq!(s.name(), "S");
    assert_eq!(s.path_str(), "c::m::S");
    let e = Enum { path: strs(&["c", "E"]), docstring: String::new(), variants: vec![] };
    assert_eq!(e.name(), "E");
    assert_eq!(e.path_str(), "c::E");
    let f = Field { path: strs(&["c", "S", "x"]), docstring: String::new(), type_: vec![] };
    assert_eq!(f.name(), "x");
    assert_eq!(f.path_str(), "c::S::x");
}
