use analyzer::model::TypeSegment;
use analyzer::signature::{convert_type, convert_type_inner, merge_literals, normalize_tokens};
use analyzer::syntax::{PointerKind, TypeExpr};

fn path(s: &str) -> TypeExpr {
    TypeExpr::Path(s.to_string())
}

fn boxed(t: TypeExpr) -> Box<TypeExpr> {
    Box::new(t)
}

fn lit(s: &str) -> TypeSegment {
    TypeSegment::Literal(s.to_string())
}

fn reference(s: &str) -> TypeSegment {
    TypeSegment::Referenceable(s.to_string())
}

fn text(segs: &[TypeSegment]) -> String {
    segs.iter().map(|s| s.content().clone()).collect::<Vec<_>>().join("")
}

#[test]
fn ty_to_type_array() {
    let ty = TypeExpr::Array { elem: boxed(path("u8")), len: "10".to_string() };
    assert_eq!(convert_type(&ty), vec![lit("["), reference("u8"), lit("; 10]")]);
}

#[test]
fn ty_to_type_infer() {
    assert_eq!(convert_type(&TypeExpr::Infer), vec![lit("_")]);
}

#[test]
fn ty_to_type_impl_trait() {
    let ty = TypeExpr::ImplTrait(vec![
        "Bound1".to_string(),
        "Bound2".to_string(),
        "Bound3".to_string(),
    ]);
    assert_eq!(convert_type(&ty), vec![lit("impl Bound1 + Bound2 + Bound3")]);
}

#[test]
fn ty_to_type_never() {
    assert_eq!(convert_type(&TypeExpr::Never), vec![lit("!")]);
}

#[test]
fn ty_to_type_paren() {
    let ty = TypeExpr::Paren(boxed(path("u8")));
    assert_eq!(convert_type(&ty), vec![lit("("), reference("u8"), lit(")")]);
}

#[test]
fn ty_to_type_path() {
    let ty = path("std :: collections :: HashMap < u8 , u16 >");
    assert_eq!(convert_type(&ty), vec![reference("std::collections::HashMap<u8 , u16>")]);
}

#[test]
fn ty_to_type_ptr() {
    let ty = TypeExpr::Ptr { kind: PointerKind::Const, elem: boxed(path("u8")) };
    assert_eq!(convert_type(&ty), vec![lit("*const "), reference("u8")]);
}

#[test]
fn ty_to_type_ref() {
    let ty = TypeExpr::Reference {
        lifetime: Some("a".to_string()),
        mutable: true,
        elem: boxed(path("u8")),
    };
    assert_eq!(convert_type(&ty), vec![lit("&a mut "), reference("u8")]);
}

#[test]
fn ty_to_type_slice() {
    let ty = TypeExpr::Slice(boxed(path("u8")));
    assert_eq!(convert_type(&ty), vec![lit("["), reference("u8"), lit("]")]);
}

#[test]
fn ty_to_type_trait() {
    let ty = TypeExpr::TraitObject(vec!["std :: fmt :: Debug".to_string(), "'a".to_string()]);
    assert_eq!(convert_type(&ty), vec![lit("dyn std::fmt::Debug + 'a")]);
}

#[test]
fn ty_to_type_tuple() {
    let ty = TypeExpr::Tuple(vec![path("u8"), path("u16")]);
    assert_eq!(
        convert_type(&ty),
        vec![lit("("), reference("u8"), lit(", "), reference("u16"), lit(")")]
    );
}

#[test]
fn mutable_reference_to_generic_path() {
    let ty = TypeExpr::Reference {
        lifetime: Some("a".to_string()),
        mutable: true,
        elem: boxed(path("Vec < u8 >")),
    };
    assert_eq!(convert_type(&ty), vec![lit("&a mut "), reference("Vec<u8>")]);
}

#[test]
fn shared_reference_without_lifetime() {
    let ty = TypeExpr::Reference { lifetime: None, mutable: false, elem: boxed(path("str")) };
    assert_eq!(convert_type(&ty), vec![lit("& "), reference("str")]);
}

#[test]
fn plain_and_mut_pointers() {
    let plain = TypeExpr::Ptr { kind: PointerKind::Plain, elem: boxed(path("T")) };
    assert_eq!(convert_type(&plain), vec![lit("*"), reference("T")]);
    let mutable = TypeExpr::Ptr { kind: PointerKind::Mut, elem: boxed(path("T")) };
    assert_eq!(convert_type(&mutable), vec![lit("*mut "), reference("T")]);
}

#[test]
fn unit_tuple_is_one_literal() {
    assert_eq!(convert_type(&TypeExpr::Tuple(vec![])), vec![lit("()")]);
}

#[test]
fn group_is_transparent() {
    let ty = TypeExpr::Group(boxed(path("u8")));
    assert_eq!(convert_type(&ty), vec![reference("u8")]);
}

#[test]
fn unknown_type_falls_back_to_raw_literal() {
    let ty = TypeExpr::Verbatim("fn (u8) -> Option < u8 >".to_string());
    assert_eq!(convert_type(&ty), vec![lit("fn (u8) -> Option<u8>")]);
}

#[test]
fn literals_merge_across_nesting() {
    // [&'b [u8]; N]
    let ty = TypeExpr::Array {
        elem: boxed(TypeExpr::Reference {
            lifetime: Some("b".to_string()),
            mutable: false,
            elem: boxed(TypeExpr::Slice(boxed(path("u8")))),
        }),
        len: "N".to_string(),
    };
    let segs = convert_type(&ty);
    assert_eq!(segs, vec![lit("[&b ["), reference("u8"), lit("]; N]")]);
    assert_eq!(convert_type_inner(&ty).len(), 10);
}

#[test]
fn signature_text_is_normalized_type_text() {
    // (&'a mut Vec<u8>, impl Fn(u8) + Send, [_; 4], !)
    let ty = TypeExpr::Tuple(vec![
        TypeExpr::Reference {
            lifetime: Some("a".to_string()),
            mutable: true,
            elem: boxed(path("Vec < u8 >")),
        },
        TypeExpr::ImplTrait(vec!["Fn (u8)".to_string(), "Send".to_string()]),
        TypeExpr::Array { elem: boxed(TypeExpr::Infer), len: "4".to_string() },
        TypeExpr::Never,
    ]);
    let segs = convert_type(&ty);
    assert!(!segs.is_empty());
    assert_eq!(text(&segs), "(&a mut Vec<u8>, impl Fn (u8) + Send, [_; 4], !)");
    for pair in segs.windows(2) {
        assert!(pair[0].is_referenceable() || pair[1].is_referenceable());
    }
}

#[test]
fn merge_keeps_referenceable_segments_apart() {
    let segs = vec![reference("A"), reference("B"), lit("x"), lit("y"), reference("C"), lit("z")];
    assert_eq!(
        merge_literals(segs),
        vec![reference("A"), reference("B"), lit("xy"), reference("C"), lit("z")]
    );
}

#[test]
fn normalize_removes_token_spacing() {
    assert_eq!(normalize_tokens("a :: b < c :: D >"), "a::b<c::D>");
    assert_eq!(normalize_tokens("plain"), "plain");
    assert_eq!(normalize_tokens(""), "");
}
