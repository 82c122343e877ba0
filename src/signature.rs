//! Lowering of type expressions into signature segments.
use vstd::prelude::*;

use crate::model::{segment_views, SegmentView, TypeSegment};
use crate::syntax::{PointerKind, TypeExpr};
use crate::text::{joined, replace_all, replaced};

verus! {

pub open spec fn spaced_colons() -> Seq<char> {
    seq![' ', ':', ':', ' ']
}

pub open spec fn colons() -> Seq<char> {
    seq![':', ':']
}

pub open spec fn spaced_open_angle() -> Seq<char> {
    seq![' ', '<', ' ']
}

pub open spec fn spaced_close_angle() -> Seq<char> {
    seq![' ', '>']
}

/// Token text with the spaces that tokenizing leaves around `::`, `<` and `>` taken out.
pub open spec fn normalized(s: Seq<char>) -> Seq<char> {
    replaced(
        replaced(replaced(s, spaced_colons(), colons()), spaced_open_angle(), seq!['<']),
        spaced_close_angle(),
        seq!['>'],
    )
}

pub open spec fn lit(s: Seq<char>) -> SegmentView {
    SegmentView::Literal(s)
}

/// The segments of `t` before adjacent literals are merged.
pub open spec fn lowered(t: TypeExpr) -> Seq<SegmentView>
    decreases t,
{
    match t {
        TypeExpr::Array { elem, len } => seq![lit(seq!['['])] + lowered(*elem) + seq![
            lit(seq![';', ' ']),
            lit(normalized(len@)),
            lit(seq![']']),
        ],
        TypeExpr::Slice(elem) => seq![lit(seq!['['])] + lowered(*elem) + seq![lit(seq![']'])],
        TypeExpr::Tuple(elems) => seq![lit(seq!['('])] + lowered_list(elems@) + seq![
            lit(seq![')']),
        ],
        TypeExpr::Reference { lifetime, mutable, elem } => seq![lit(seq!['&'])] + match lifetime {
            Some(l) => seq![lit(normalized(l@))],
            None => Seq::empty(),
        } + seq![
            lit(
                if mutable {
                    seq![' ', 'm', 'u', 't', ' ']
                } else {
                    seq![' ']
                },
            ),
        ] + lowered(*elem),
        TypeExpr::Ptr { kind, elem } => seq![
            lit(
                match kind {
                    PointerKind::Const => seq!['*', 'c', 'o', 'n', 's', 't', ' '],
                    PointerKind::Mut => seq!['*', 'm', 'u', 't', ' '],
                    PointerKind::Plain => seq!['*'],
                },
            ),
        ] + lowered(*elem),
        TypeExpr::Paren(elem) => seq![lit(seq!['('])] + lowered(*elem) + seq![lit(seq![')'])],
        TypeExpr::Group(elem) => lowered(*elem),
        TypeExpr::Infer => seq![lit(seq!['_'])],
        TypeExpr::Never => seq![lit(seq!['!'])],
        TypeExpr::ImplTrait(bounds) => seq![lit(seq!['i', 'm', 'p', 'l', ' '])] + lowered_bounds(
            bounds@,
        ),
        TypeExpr::TraitObject(bounds) => seq![lit(seq!['d', 'y', 'n', ' '])] + lowered_bounds(
            bounds@,
        ),
        TypeExpr::Path(p) => seq![SegmentView::Referenceable(normalized(p@))],
        TypeExpr::Verbatim(x) => seq![lit(normalized(x@))],
    }
}

/// The segments of the elements of a tuple, with `", "` between each two.
pub open spec fn lowered_list(elems: Seq<TypeExpr>) -> Seq<SegmentView>
    decreases elems,
{
    if elems.len() == 0 {
        Seq::empty()
    } else if elems.len() == 1 {
        lowered(elems[0])
    } else {
        lowered_list(elems.drop_last()) + seq![lit(seq![',', ' '])] + lowered(elems.last())
    }
}

/// The segments of a list of bounds, with `" + "` between each two.
pub open spec fn lowered_bounds(bounds: Seq<String>) -> Seq<SegmentView>
    decreases bounds.len(),
{
    if bounds.len() == 0 {
        Seq::empty()
    } else if bounds.len() == 1 {
        seq![lit(normalized(bounds[0]@))]
    } else {
        lowered_bounds(bounds.drop_last()) + seq![lit(seq![' ', '+', ' '])] + seq![
            lit(normalized(bounds.last()@)),
        ]
    }
}

/// `acc` with `s` added at its end, joined to its last segment when both are literal.
pub open spec fn push_merged(acc: Seq<SegmentView>, s: SegmentView) -> Seq<SegmentView> {
    if acc.len() > 0 && acc.last() is Literal && s is Literal {
        acc.drop_last().push(lit(acc.last().text() + s.text()))
    } else {
        acc.push(s)
    }
}

/// `segs` with each run of adjacent literal segments merged into one.
pub open spec fn merged(segs: Seq<SegmentView>) -> Seq<SegmentView>
    decreases segs.len(),
{
    if segs.len() == 0 {
        Seq::empty()
    } else {
        push_merged(merged(segs.drop_last()), segs.last())
    }
}

/// The text of a list of segments, one after another.
pub open spec fn text_of(segs: Seq<SegmentView>) -> Seq<char>
    decreases segs.len(),
{
    if segs.len() == 0 {
        Seq::empty()
    } else {
        text_of(segs.drop_last()) + segs.last().text()
    }
}

/// Whether no two adjacent segments of `segs` are both literal.
pub open spec fn literals_separated(segs: Seq<SegmentView>) -> bool {
    forall|i: int| 0 <= i < segs.len() - 1 ==> !(#[trigger] segs[i] is Literal && segs[i + 1] is Literal)
}

/// The signature of `t`: its segments, merged.
pub open spec fn signature_of(t: TypeExpr) -> Seq<SegmentView> {
    merged(lowered(t))
}

/// The normalized text of a type expression: the source text with the spacing that
/// tokenizing leaves taken out, and a lifetime written without its apostrophe.
pub open spec fn type_text(t: TypeExpr) -> Seq<char>
    decreases t,
{
    match t {
        TypeExpr::Array { elem, len } => seq!['['] + type_text(*elem) + seq![';', ' '] + normalized(
            len@,
        ) + seq![']'],
        TypeExpr::Slice(elem) => seq!['['] + type_text(*elem) + seq![']'],
        TypeExpr::Tuple(elems) => seq!['('] + list_text(elems@) + seq![')'],
        TypeExpr::Reference { lifetime, mutable, elem } => seq!['&'] + match lifetime {
            Some(l) => normalized(l@),
            None => Seq::empty(),
        } + (if mutable {
            seq![' ', 'm', 'u', 't', ' ']
        } else {
            seq![' ']
        }) + type_text(*elem),
        TypeExpr::Ptr { kind, elem } => (match kind {
            PointerKind::Const => seq!['*', 'c', 'o', 'n', 's', 't', ' '],
            PointerKind::Mut => seq!['*', 'm', 'u', 't', ' '],
            PointerKind::Plain => seq!['*'],
        }) + type_text(*elem),
        TypeExpr::Paren(elem) => seq!['('] + type_text(*elem) + seq![')'],
        TypeExpr::Group(elem) => type_text(*elem),
        TypeExpr::Infer => seq!['_'],
        TypeExpr::Never => seq!['!'],
        TypeExpr::ImplTrait(bounds) => seq!['i', 'm', 'p', 'l', ' '] + bounds_text(bounds@),
        TypeExpr::TraitObject(bounds) => seq!['d', 'y', 'n', ' '] + bounds_text(bounds@),
        TypeExpr::Path(p) => normalized(p@),
        TypeExpr::Verbatim(x) => normalized(x@),
    }
}

/// The normalized text of the elements of a tuple, with `", "` between each two.
pub open spec fn list_text(elems: Seq<TypeExpr>) -> Seq<char>
    decreases elems,
{
    if elems.len() == 0 {
        Seq::empty()
    } else if elems.len() == 1 {
        type_text(elems[0])
    } else {
        list_text(elems.drop_last()) + seq![',', ' '] + type_text(elems.last())
    }
}

/// The normalized text of a list of bounds, joined with `" + "`.
pub open spec fn bounds_text(bounds: Seq<String>) -> Seq<char> {
    joined(bounds.map_values(|b: String| normalized(b@)), seq![' ', '+', ' '])
}

proof fn lemma_text_of_single(x: SegmentView)
    ensures
        text_of(seq![x]) == x.text(),
{
    assert(seq![x].drop_last() =~= Seq::<SegmentView>::empty());
    assert(text_of(Seq::<SegmentView>::empty()) == Seq::<char>::empty());
    assert(seq![x].last() == x);
    assert(Seq::<char>::empty() + x.text() =~= x.text());
}

proof fn lemma_text_of_concat(a: Seq<SegmentView>, b: Seq<SegmentView>)
    ensures
        text_of(a + b) == text_of(a) + text_of(b),
    decreases b.len(),
{
    if b.len() == 0 {
        assert(a + b =~= a);
        assert(text_of(a) + Seq::<char>::empty() =~= text_of(a));
    } else {
        assert((a + b).drop_last() =~= a + b.drop_last());
        assert((a + b).last() == b.last());
        lemma_text_of_concat(a, b.drop_last());
        assert(text_of(a) + text_of(b.drop_last()) + b.last().text() =~= text_of(a) + (text_of(
            b.drop_last(),
        ) + b.last().text()));
    }
}

proof fn lemma_lowered_text(t: TypeExpr)
    ensures
        text_of(lowered(t)) == type_text(t),
    decreases t,
{
    match t {
        TypeExpr::Array { elem, len } => {
            lemma_lowered_text(*elem);
            let a = seq![lit(seq!['['])];
            let b = lowered(*elem);
            let c1 = seq![lit(seq![';', ' '])];
            let c2 = seq![lit(normalized(len@))];
            let c3 = seq![lit(seq![']'])];
            assert(lowered(t) =~= a + b + c1 + c2 + c3);
            lemma_text_of_concat(a, b);
            lemma_text_of_concat(a + b, c1);
            lemma_text_of_concat(a + b + c1, c2);
            lemma_text_of_concat(a + b + c1 + c2, c3);
            lemma_text_of_single(a[0]);
            lemma_text_of_single(c1[0]);
            lemma_text_of_single(c2[0]);
            lemma_text_of_single(c3[0]);
            assert(text_of(lowered(t)) =~= type_text(t));
        },
        TypeExpr::Slice(elem) => {
            lemma_lowered_text(*elem);
            let a = seq![lit(seq!['['])];
            let b = lowered(*elem);
            let c = seq![lit(seq![']'])];
            lemma_text_of_concat(a, b);
            lemma_text_of_concat(a + b, c);
            lemma_text_of_single(a[0]);
            lemma_text_of_single(c[0]);
            assert(text_of(lowered(t)) =~= type_text(t));
        },
        TypeExpr::Tuple(elems) => {
            lemma_list_text(elems@);
            let a = seq![lit(seq!['('])];
            let b = lowered_list(elems@);
            let c = seq![lit(seq![')'])];
            lemma_text_of_concat(a, b);
            lemma_text_of_concat(a + b, c);
            lemma_text_of_single(a[0]);
            lemma_text_of_single(c[0]);
            assert(text_of(lowered(t)) =~= type_text(t));
        },
        TypeExpr::Reference { lifetime, mutable, elem } => {
            lemma_lowered_text(*elem);
            let a = seq![lit(seq!['&'])];
            let l: Seq<SegmentView> = match lifetime {
                Some(l) => seq![lit(normalized(l@))],
                None => Seq::empty(),
            };
            let m = seq![
                lit(
                    if mutable {
                        seq![' ', 'm', 'u', 't', ' ']
                    } else {
                        seq![' ']
                    },
                ),
            ];
            let b = lowered(*elem);
            lemma_text_of_concat(a, l);
            lemma_text_of_concat(a + l, m);
            lemma_text_of_concat(a + l + m, b);
            lemma_text_of_single(a[0]);
            lemma_text_of_single(m[0]);
            if l.len() == 1 {
                lemma_text_of_single(l[0]);
            }
            assert(text_of(lowered(t)) =~= type_text(t));
        },
        TypeExpr::Ptr { kind, elem } => {
            lemma_lowered_text(*elem);
            let a = seq![
                lit(
                    match kind {
                        PointerKind::Const => seq!['*', 'c', 'o', 'n', 's', 't', ' '],
                        PointerKind::Mut => seq!['*', 'm', 'u', 't', ' '],
                        PointerKind::Plain => seq!['*'],
                    },
                ),
            ];
            lemma_text_of_concat(a, lowered(*elem));
            lemma_text_of_single(a[0]);
        },
        TypeExpr::Paren(elem) => {
            lemma_lowered_text(*elem);
            let a = seq![lit(seq!['('])];
            let b = lowered(*elem);
            let c = seq![lit(seq![')'])];
            lemma_text_of_concat(a, b);
            lemma_text_of_concat(a + b, c);
            lemma_text_of_single(a[0]);
            lemma_text_of_single(c[0]);
            assert(text_of(lowered(t)) =~= type_text(t));
        },
        TypeExpr::Group(elem) => {
            lemma_lowered_text(*elem);
        },
        TypeExpr::ImplTrait(bounds) => {
            lemma_bounds_text(bounds@);
            let a = seq![lit(seq!['i', 'm', 'p', 'l', ' '])];
            lemma_text_of_concat(a, lowered_bounds(bounds@));
            lemma_text_of_single(a[0]);
        },
        TypeExpr::TraitObject(bounds) => {
            lemma_bounds_text(bounds@);
            let a = seq![lit(seq!['d', 'y', 'n', ' '])];
            lemma_text_of_concat(a, lowered_bounds(bounds@));
            lemma_text_of_single(a[0]);
        },
        _ => {
            lemma_text_of_single(lowered(t)[0]);
            assert(lowered(t) =~= seq![lowered(t)[0]]);
        },
    }
}

proof fn lemma_list_text(elems: Seq<TypeExpr>)
    ensures
        text_of(lowered_list(elems)) == list_text(elems),
    decreases elems,
{
    if elems.len() == 1 {
        lemma_lowered_text(elems[0]);
    } else if elems.len() > 1 {
        lemma_list_text(elems.drop_last());
        lemma_lowered_text(elems.last());
        let a = lowered_list(elems.drop_last());
        let b = seq![lit(seq![',', ' '])];
        lemma_text_of_concat(a, b);
        lemma_text_of_concat(a + b, lowered(elems.last()));
        lemma_text_of_single(b[0]);
    }
}

proof fn lemma_bounds_text(bounds: Seq<String>)
    ensures
        text_of(lowered_bounds(bounds)) == bounds_text(bounds),
    decreases bounds.len(),
{
    let f = |b: String| normalized(b@);
    if bounds.len() == 1 {
        lemma_text_of_single(lit(normalized(bounds[0]@)));
    } else if bounds.len() > 1 {
        lemma_bounds_text(bounds.drop_last());
        assert(bounds.map_values(f).drop_last() =~= bounds.drop_last().map_values(f));
        let a = lowered_bounds(bounds.drop_last());
        let b = seq![lit(seq![' ', '+', ' '])];
        let c = seq![lit(normalized(bounds.last()@))];
        lemma_text_of_concat(a, b);
        lemma_text_of_concat(a + b, c);
        lemma_text_of_single(b[0]);
        lemma_text_of_single(c[0]);
    }
}

proof fn lemma_lowered_nonempty(t: TypeExpr)
    ensures
        lowered(t).len() > 0,
    decreases t,
{
    if let TypeExpr::Group(elem) = t {
        lemma_lowered_nonempty(*elem);
    }
}

proof fn lemma_merged(segs: Seq<SegmentView>)
    ensures
        text_of(merged(segs)) == text_of(segs),
        literals_separated(merged(segs)),
        segs.len() > 0 ==> merged(segs).len() > 0,
    decreases segs.len(),
{
    if segs.len() > 0 {
        let m = merged(segs.drop_last());
        let x = segs.last();
        lemma_merged(segs.drop_last());
        if m.len() > 0 && m.last() is Literal && x is Literal {
            let y = lit(m.last().text() + x.text());
            assert(m.drop_last().push(y).drop_last() =~= m.drop_last());
            assert(text_of(m.drop_last()) + (m.last().text() + x.text()) =~= text_of(m) + x.text());
            let r = m.drop_last().push(y);
            assert forall|i: int| 0 <= i < r.len() - 1 implies !(#[trigger] r[i] is Literal
                && r[i + 1] is Literal) by {
                if i < r.len() - 2 {
                    assert(r[i] == m[i] && r[i + 1] == m[i + 1]);
                } else {
                    assert(r[i] == m[i] && m[i + 1] == m.last());
                }
            }
        } else {
            assert(m.push(x).drop_last() =~= m);
            let r = m.push(x);
            assert forall|i: int| 0 <= i < r.len() - 1 implies !(#[trigger] r[i] is Literal
                && r[i + 1] is Literal) by {
                if i < r.len() - 2 {
                    assert(r[i] == m[i] && r[i + 1] == m[i + 1]);
                } else {
                    assert(r[i] == m.last());
                }
            }
        }
    }
}

/// A signature is never empty, no two of its adjacent segments are both literal, and
/// its segments' text, one after another, is the normalized text of the type.
pub proof fn lemma_signature_text(t: TypeExpr)
    ensures
        signature_of(t).len() > 0,
        literals_separated(signature_of(t)),
        text_of(signature_of(t)) == type_text(t),
{
    lemma_lowered_nonempty(t);
    lemma_lowered_text(t);
    lemma_merged(lowered(t));
}

/// Converts a type expression to the segments of its signature.
pub fn convert_type(ty: &TypeExpr) -> (r: Vec<TypeSegment>)
    ensures
        segment_views(r@) == signature_of(*ty),
        r@.len() > 0,
        text_of(segment_views(r@)) == type_text(*ty),
        literals_separated(segment_views(r@)),
{
    proof {
        lemma_signature_text(*ty);
    }
    let v = convert_type_inner(ty);
    merge_literals(v)
}

/// Token text with the spaces that tokenizing leaves around `::`, `<` and `>` taken out.
pub fn normalize_tokens(s: &str) -> (r: String)
    ensures
        r@ == normalized(s@),
{
    proof {
        reveal_strlit(" :: ");
        reveal_strlit("::");
        reveal_strlit(" < ");
        reveal_strlit("<");
        reveal_strlit(" >");
        reveal_strlit(">");
    }
    assert(" :: "@ =~= spaced_colons());
    assert("::"@ =~= colons());
    assert(" < "@ =~= spaced_open_angle());
    assert("<"@ =~= seq!['<']);
    assert(" >"@ =~= spaced_close_angle());
    assert(">"@ =~= seq!['>']);
    let a = replace_all(s, " :: ", "::");
    let b = replace_all(a.as_str(), " < ", "<");
    replace_all(b.as_str(), " >", ">")
}

/// A literal segment holding the given constant text.
fn literal(s: &str) -> (r: TypeSegment)
    ensures
        r@ == lit(s@),
{
    TypeSegment::Literal(String::from_str(s))
}

/// A literal segment holding the normalized form of raw token text.
fn raw_literal(s: &String) -> (r: TypeSegment)
    ensures
        r@ == lit(normalized(s@)),
{
    TypeSegment::Literal(normalize_tokens(s.as_str()))
}

fn push_segment(v: &mut Vec<TypeSegment>, s: TypeSegment)
    ensures
        segment_views(final(v)@) == segment_views(old(v)@).push(s@),
{
    let ghost before = v@;
    v.push(s);
    assert(segment_views(v@) =~= segment_views(before).push(s@));
}

fn extend_segments(v: &mut Vec<TypeSegment>, mut w: Vec<TypeSegment>)
    ensures
        segment_views(final(v)@) == segment_views(old(v)@) + segment_views(w@),
{
    let ghost before = v@;
    let ghost added = w@;
    v.append(&mut w);
    assert(segment_views(v@) =~= segment_views(before) + segment_views(added));
}

/// The segments of a type expression, before adjacent literals are merged.
pub fn convert_type_inner(ty: &TypeExpr) -> (r: Vec<TypeSegment>)
    ensures
        segment_views(r@) == lowered(*ty),
    decreases ty,
{
    proof {
        reveal_strlit("[");
        reveal_strlit("]");
        reveal_strlit("; ");
        reveal_strlit("(");
        reveal_strlit(")");
        reveal_strlit(", ");
        reveal_strlit("&");
        reveal_strlit(" mut ");
        reveal_strlit(" ");
        reveal_strlit("*const ");
        reveal_strlit("*mut ");
        reveal_strlit("*");
        reveal_strlit("_");
        reveal_strlit("!");
        reveal_strlit("impl ");
        reveal_strlit("dyn ");
        assert("["@ =~= seq!['[']);
        assert("]"@ =~= seq![']']);
        assert("; "@ =~= seq![';', ' ']);
        assert("("@ =~= seq!['(']);
        assert(")"@ =~= seq![')']);
        assert(", "@ =~= seq![',', ' ']);
        assert("&"@ =~= seq!['&']);
        assert(" mut "@ =~= seq![' ', 'm', 'u', 't', ' ']);
        assert(" "@ =~= seq![' ']);
        assert("*const "@ =~= seq!['*', 'c', 'o', 'n', 's', 't', ' ']);
        assert("*mut "@ =~= seq!['*', 'm', 'u', 't', ' ']);
        assert("*"@ =~= seq!['*']);
        assert("_"@ =~= seq!['_']);
        assert("!"@ =~= seq!['!']);
        assert("impl "@ =~= seq!['i', 'm', 'p', 'l', ' ']);
        assert("dyn "@ =~= seq!['d', 'y', 'n', ' ']);
    }
    let mut v: Vec<TypeSegment> = Vec::new();
    match ty {
        TypeExpr::Array { elem, len } => {
            push_segment(&mut v, literal("["));
            extend_segments(&mut v, convert_type_inner(elem));
            push_segment(&mut v, literal("; "));
            push_segment(&mut v, raw_literal(len));
            push_segment(&mut v, literal("]"));
        },
        TypeExpr::Slice(elem) => {
            push_segment(&mut v, literal("["));
            extend_segments(&mut v, convert_type_inner(elem));
            push_segment(&mut v, literal("]"));
        },
        TypeExpr::Tuple(elems) => {
            push_segment(&mut v, literal("("));
            let mut i: usize = 0;
            while i < elems.len()
                invariant
                    i <= elems.len(),
                    *ty is Tuple,
                    ty->Tuple_0 == *elems,
                    segment_views(v@) == seq![lit(seq!['('])] + lowered_list(
                        elems@.take(i as int),
                    ),
                decreases elems.len() - i,
            {
                proof {
                    reveal_strlit(", ");
                    assert(", "@ =~= seq![',', ' ']);
                }
                assert(elems@.take(i + 1).drop_last() =~= elems@.take(i as int));
                assert(elems@.take(i + 1).last() == elems@[i as int]);
                if i > 0 {
                    push_segment(&mut v, literal(", "));
                }
                proof {
                    assert(decreases_to!(*ty => ty->Tuple_0));
                    assert(decreases_to!(ty->Tuple_0 => ty->Tuple_0[i as int]));
                }
                extend_segments(&mut v, convert_type_inner(&elems[i]));
                assert(segment_views(v@) =~= seq![lit(seq!['('])] + lowered_list(
                    elems@.take(i + 1),
                ));
                i += 1;
            }
            assert(elems@.take(elems.len() as int) =~= elems@);
            push_segment(&mut v, literal(")"));
        },
        TypeExpr::Reference { lifetime, mutable, elem } => {
            push_segment(&mut v, literal("&"));
            match lifetime {
                Some(l) => push_segment(&mut v, raw_literal(l)),
                None => {},
            }
            if *mutable {
                push_segment(&mut v, literal(" mut "));
            } else {
                push_segment(&mut v, literal(" "));
            }
            extend_segments(&mut v, convert_type_inner(elem));
        },
        TypeExpr::Ptr { kind, elem } => {
            match kind {
                PointerKind::Const => push_segment(&mut v, literal("*const ")),
                PointerKind::Mut => push_segment(&mut v, literal("*mut ")),
                PointerKind::Plain => push_segment(&mut v, literal("*")),
            }
            extend_segments(&mut v, convert_type_inner(elem));
        },
        TypeExpr::Paren(elem) => {
            push_segment(&mut v, literal("("));
            extend_segments(&mut v, convert_type_inner(elem));
            push_segment(&mut v, literal(")"));
        },
        TypeExpr::Group(elem) => {
            extend_segments(&mut v, convert_type_inner(elem));
        },
        TypeExpr::Infer => {
            push_segment(&mut v, literal("_"));
        },
        TypeExpr::Never => {
            push_segment(&mut v, literal("!"));
        },
        TypeExpr::ImplTrait(bounds) => {
            push_segment(&mut v, literal("impl "));
            extend_segments(&mut v, convert_bounds(bounds));
        },
        TypeExpr::TraitObject(bounds) => {
            push_segment(&mut v, literal("dyn "));
            extend_segments(&mut v, convert_bounds(bounds));
        },
        TypeExpr::Path(p) => {
            push_segment(&mut v, TypeSegment::Referenceable(normalize_tokens(p.as_str())));
        },
        TypeExpr::Verbatim(x) => {
            push_segment(&mut v, raw_literal(x));
        },
    }
    proof {
        assert(segment_views(v@) =~= lowered(*ty));
    }
    v
}

/// The segments of a list of bounds, with `" + "` between each two.
fn convert_bounds(bounds: &Vec<String>) -> (r: Vec<TypeSegment>)
    ensures
        segment_views(r@) == lowered_bounds(bounds@),
{
    let mut v: Vec<TypeSegment> = Vec::new();
    let mut i: usize = 0;
    while i < bounds.len()
        invariant
            i <= bounds.len(),
            segment_views(v@) == lowered_bounds(bounds@.take(i as int)),
        decreases bounds.len() - i,
    {
        proof {
            reveal_strlit(" + ");
            assert(" + "@ =~= seq![' ', '+', ' ']);
        }
        assert(bounds@.take(i + 1).drop_last() =~= bounds@.take(i as int));
        assert(bounds@.take(i + 1).last() == bounds@[i as int]);
        if i > 0 {
            push_segment(&mut v, literal(" + "));
        }
        push_segment(&mut v, raw_literal(&bounds[i]));
        assert(segment_views(v@) =~= lowered_bounds(bounds@.take(i + 1)));
        i += 1;
    }
    assert(bounds@.take(bounds.len() as int) =~= bounds@);
    v
}

/// Merges each run of adjacent literal segments into one.
pub fn merge_literals(segs: Vec<TypeSegment>) -> (r: Vec<TypeSegment>)
    ensures
        segment_views(r@) == merged(segment_views(segs@)),
{
    let mut acc: Vec<TypeSegment> = Vec::new();
    let mut i: usize = 0;
    while i < segs.len()
        invariant
            i <= segs.len(),
            segment_views(acc@) == merged(segment_views(segs@.take(i as int))),
        decreases segs.len() - i,
    {
        let ghost before = segment_views(acc@);
        assert(segment_views(segs@.take(i + 1)).drop_last() =~= segment_views(segs@.take(i as int)));
        assert(segment_views(segs@.take(i + 1)).last() == segs@[i as int]@);
        let n = acc.len();
        let mut joined = false;
        if n > 0 {
            if let TypeSegment::Literal(next) = &segs[i] {
                if let TypeSegment::Literal(last) = &acc[n - 1] {
                    let mut text = last.clone();
                    text.append(next.as_str());
                    acc.set(n - 1, TypeSegment::Literal(text));
                    joined = true;
                    assert(segment_views(acc@) =~= before.drop_last().push(
                        lit(before.last().text() + segs@[i as int]@.text()),
                    ));
                }
            }
        }
        if !joined {
            let s = match &segs[i] {
                TypeSegment::Literal(t) => TypeSegment::Literal(t.clone()),
                TypeSegment::Referenceable(t) => TypeSegment::Referenceable(t.clone()),
            };
            push_segment(&mut acc, s);
        }
        assert(segment_views(acc@) == push_merged(before, segs@[i as int]@));
        i += 1;
    }
    assert(segs@.take(segs.len() as int) =~= segs@);
    acc
}

} // verus!
