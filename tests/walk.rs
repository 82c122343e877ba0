use analyzer::model::{Crate, Field, TypeSegment};
use analyzer::syntax::{
    Attribute, EnumDecl, FieldDecl, Item, ModDecl, SourceFile, StructDecl, TypeExpr, VariantDecl,
};
use analyzer::walk::{analyze_sources, ModuleWalk, SourceEntry};

fn strs(v: &[&str]) -> Vec<String> {
    v.iter().map(|s| s.to_string()).collect()
}

fn doc(s: &str) -> Attribute {
    Attribute { path: "doc".to_string(), string_value: Some(s.to_string()) }
}

fn pub_mod(name: &str) -> Item {
    Item::Mod(ModDecl { public: true, ident: name.to_string() })
}

fn unit_struct(name: &str, docs: &str) -> Item {
    Item::Struct(StructDecl {
        attrs: vec![doc(docs)],
        public: true,
        ident: name.to_string(),
        fields: vec![],
    })
}

fn empty_enum(name: &str, docs: &str) -> Item {
    Item::Enum(EnumDecl {
        attrs: vec![doc(docs)],
        public: true,
        ident: name.to_string(),
        variants: vec![],
    })
}

fn file(location: &[&str], attrs: Vec<Attribute>, items: Vec<Item>) -> SourceEntry {
    SourceEntry { location: strs(location), source: SourceFile { attrs, items } }
}

fn krate(name: &str) -> Crate {
    Crate { name: name.to_string(), version: "0.1.0".to_string(), docstring: String::new() }
}

fn module_paths(modules: &[analyzer::model::Module]) -> Vec<Vec<String>> {
    modules.iter().map(|m| m.path.clone()).collect()
}

#[test]
fn test_analyze_crate() {
    let files = vec![
        file(&["src", "lib.rs"], vec![doc(" The crate docstring")], vec![pub_mod("my_module")]),
        file(
            &["src", "my_module.rs"],
            vec![doc(" The module docstring")],
            vec![
                pub_mod("my_submodule"),
                unit_struct("DummyStruct1", " The struct1 docstring"),
                empty_enum("DummyEnum1", " The enum1 docstring"),
            ],
        ),
        file(
            &["src", "my_module", "my_submodule.rs"],
            vec![doc(" The sub-module docstring")],
            vec![
                unit_struct("DummyStruct2", " The struct2 docstring"),
                empty_enum("DummyEnum2", " The enum2 docstring"),
            ],
        ),
    ];
    let mut result = analyze_sources(krate("my_crate"), strs(&["src", "lib.rs"]), &files);
    assert_eq!(result.crate_.name, "my_crate");
    assert_eq!(result.crate_.version, "0.1.0");
    assert_eq!(result.modules[0].file, Some("src/lib.rs".to_string()));
    for module in result.modules.iter_mut() {
        module.file = None;
    }
    assert_eq!(
        module_paths(&result.modules),
        vec![
            strs(&["my_crate"]),
            strs(&["my_crate", "my_module"]),
            strs(&["my_crate", "my_module", "my_submodule"]),
        ]
    );
    let docs: Vec<&str> = result.modules.iter().map(|m| m.docstring.as_str()).collect();
    assert_eq!(docs, vec!["The crate docstring", "The module docstring", "The sub-module docstring"]);
    assert_eq!(result.modules[0].declarations, strs(&["my_module"]));
    assert_eq!(result.modules[1].declarations, strs(&["my_submodule"]));
    assert!(result.modules[2].declarations.is_empty());
    let structs: Vec<(Vec<String>, String)> =
        result.structs.iter().map(|s| (s.path.clone(), s.docstring.clone())).collect();
    assert_eq!(
        structs,
        vec![
            (strs(&["my_crate", "my_module", "DummyStruct1"]), "The struct1 docstring".to_string()),
            (
                strs(&["my_crate", "my_module", "my_submodule", "DummyStruct2"]),
                "The struct2 docstring".to_string()
            ),
        ]
    );
    let enums: Vec<(Vec<String>, String)> =
        result.enums.iter().map(|e| (e.path.clone(), e.docstring.clone())).collect();
    assert_eq!(
        enums,
        vec![
            (strs(&["my_crate", "my_module", "DummyEnum1"]), "The enum1 docstring".to_string()),
            (
                strs(&["my_crate", "my_module", "my_submodule", "DummyEnum2"]),
                "The enum2 docstring".to_string()
            ),
        ]
    );
    assert!(result.structs.iter().all(|s| s.fields.is_empty()));
    assert!(result.enums.iter().all(|e| e.variants.is_empty()));
    assert!(result.functions.is_empty());
}

#[test]
fn nested_modules_with_struct_and_enum() {
    let files = vec![
        file(&["pkg", "src", "lib.rs"], vec![], vec![pub_mod("a")]),
        file(
            &["pkg", "src", "a.rs"],
            vec![],
            vec![
                pub_mod("b"),
                Item::Struct(StructDecl {
                    attrs: vec![],
                    public: true,
                    ident: "S".to_string(),
                    fields: vec![FieldDecl {
                        attrs: vec![],
                        public: true,
                        ident: Some("x".to_string()),
                        ty: TypeExpr::Path("u8".to_string()),
                    }],
                }),
            ],
        ),
        file(
            &["pkg", "src", "a", "b.rs"],
            vec![],
            vec![Item::Enum(EnumDecl {
                attrs: vec![],
                public: true,
                ident: "E".to_string(),
                variants: vec![
                    VariantDecl {
                        attrs: vec![],
                        ident: "V1".to_string(),
                        discriminant: None,
                        fields: vec![],
                    },
                    VariantDecl {
                        attrs: vec![],
                        ident: "V2".to_string(),
                        discriminant: None,
                        fields: vec![FieldDecl {
                            attrs: vec![],
                            public: false,
                            ident: None,
                            ty: TypeExpr::Path("u8".to_string()),
                        }],
                    },
                ],
            })],
        ),
    ];
    let result = analyze_sources(krate("my_crate"), strs(&["pkg", "src", "lib.rs"]), &files);
    let mut paths = module_paths(&result.modules);
    paths.sort();
    assert_eq!(
        paths,
        vec![strs(&["my_crate"]), strs(&["my_crate", "a"]), strs(&["my_crate", "a", "b"])]
    );
    assert_eq!(result.structs.len(), 1);
    assert_eq!(result.structs[0].path, strs(&["my_crate", "a", "S"]));
    assert_eq!(
        result.structs[0].fields,
        vec![Field {
            path: strs(&["my_crate", "a", "S", "x"]),
            docstring: String::new(),
            type_: vec![TypeSegment::Referenceable("u8".to_string())],
        }]
    );
    assert_eq!(result.enums.len(), 1);
    let e = &result.enums[0];
    assert_eq!(e.path, strs(&["my_crate", "a", "b", "E"]));
    assert_eq!(e.variants.len(), 2);
    assert_eq!(e.variants[0].path, strs(&["my_crate", "a", "b", "E", "V1"]));
    assert!(e.variants[0].fields.is_empty());
    assert_eq!(e.variants[1].path, strs(&["my_crate", "a", "b", "E", "V2"]));
    assert_eq!(e.variants[1].fields.len(), 1);
    assert_eq!(e.variants[1].fields[0].path, strs(&["my_crate", "a", "b", "E", "V2", "0"]));
}

#[test]
fn missing_module_file_is_skipped() {
    let files = vec![file(&["src", "lib.rs"], vec![], vec![pub_mod("missing")])];
    let result = analyze_sources(krate("c"), strs(&["src", "lib.rs"]), &files);
    assert_eq!(module_paths(&result.modules), vec![strs(&["c"])]);
    assert_eq!(result.modules[0].declarations, strs(&["missing"]));
}

#[test]
fn missing_entry_gives_crate_alone() {
    let files = vec![file(&["src", "other.rs"], vec![], vec![])];
    let result = analyze_sources(krate("c"), strs(&["src", "lib.rs"]), &files);
    assert_eq!(result.crate_, krate("c"));
    assert!(result.modules.is_empty());
    assert!(result.structs.is_empty());
    assert!(result.enums.is_empty());
    assert!(result.functions.is_empty());
}

#[test]
fn crate_docstring_comes_from_entry_file() {
    let files = vec![file(&["src", "main.rs"], vec![doc(" Tool docs")], vec![])];
    let result = analyze_sources(krate("tool"), strs(&["src", "main.rs"]), &files);
    assert_eq!(result.crate_.docstring, "Tool docs");
}

#[test]
fn mod_rs_children_live_in_its_directory() {
    let files = vec![
        file(&["src", "lib.rs"], vec![], vec![pub_mod("a")]),
        file(&["src", "a", "mod.rs"], vec![], vec![pub_mod("b")]),
        file(&["src", "a", "b.rs"], vec![doc(" inner")], vec![]),
    ];
    let result = analyze_sources(krate("c"), strs(&["src", "lib.rs"]), &files);
    assert_eq!(
        module_paths(&result.modules),
        vec![strs(&["c"]), strs(&["c", "a"]), strs(&["c", "a", "b"])]
    );
    assert_eq!(result.modules[1].file, Some("src/a/mod.rs".to_string()));
    assert_eq!(result.modules[2].docstring, "inner");
}

#[test]
fn file_takes_precedence_over_directory() {
    let files = vec![
        file(&["src", "lib.rs"], vec![], vec![pub_mod("a")]),
        file(&["src", "a.rs"], vec![doc(" file")], vec![]),
        file(&["src", "a", "mod.rs"], vec![doc(" dir")], vec![]),
    ];
    let result = analyze_sources(krate("c"), strs(&["src", "lib.rs"]), &files);
    assert_eq!(result.modules.len(), 2);
    assert_eq!(result.modules[1].docstring, "file");
    assert_eq!(result.modules[1].file, Some("src/a.rs".to_string()));
}

#[test]
fn a_file_is_read_once() {
    let files = vec![
        file(&["src", "lib.rs"], vec![], vec![pub_mod("a"), pub_mod("a")]),
        file(&["src", "a.rs"], vec![], vec![unit_struct("S", "")]),
    ];
    let result = analyze_sources(krate("c"), strs(&["src", "lib.rs"]), &files);
    assert_eq!(module_paths(&result.modules), vec![strs(&["c"]), strs(&["c", "a"])]);
    assert_eq!(result.structs.len(), 1);
}

#[test]
fn walk_driven_step_by_step() {
    let root = SourceFile { attrs: vec![], items: vec![pub_mod("x"), pub_mod("y")] };
    let mut walk = ModuleWalk::with_root(krate("c"), strs(&["src", "lib.rs"]), &root);
    assert_eq!(walk.pending.len(), 2);
    let item = walk.next_pending().unwrap();
    assert_eq!(item.ident, "y");
    assert_eq!(item.file_candidate(), strs(&["src", "y.rs"]));
    assert_eq!(item.dir_candidate(), strs(&["src", "y", "mod.rs"]));
    assert_eq!(walk.choose_file(&item, false, false), None);
    let chosen = walk.choose_file(&item, false, true).unwrap();
    assert_eq!(chosen, strs(&["src", "y", "mod.rs"]));
    let source = SourceFile { attrs: vec![], items: vec![pub_mod("z")] };
    walk.add_module(item, chosen, &source);
    assert_eq!(walk.result.modules.len(), 2);
    assert_eq!(walk.result.modules[1].path, strs(&["c", "y"]));
    let next = walk.next_pending().unwrap();
    assert_eq!(next.ident, "z");
    assert_eq!(next.dir, strs(&["src", "y"]));
    assert_eq!(next.parent, strs(&["c", "y"]));
    let again = walk.choose_file(&next, false, false);
    assert_eq!(again, None);
    let last = walk.next_pending().unwrap();
    assert_eq!(last.ident, "x");
    assert!(walk.next_pending().is_none());
    let visited_again =
        analyzer::walk::PendingModule { dir: strs(&["src"]), ident: "lib".to_string(), parent: strs(&["c"]) };
    assert_eq!(walk.choose_file(&visited_again, true, false), None);
}
