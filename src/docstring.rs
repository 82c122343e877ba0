//! Doc comments gathered into text.
use vstd::prelude::*;

use crate::syntax::Attribute;
use crate::text::{join, joined, starts_with, views};

verus! {

/// Whether an attribute is a doc comment: `#[doc = "..."]`.
pub open spec fn is_doc(a: Attribute) -> bool {
    a.path@ == seq!['d', 'o', 'c'] && a.string_value is Some
}

/// `s` without its first character when that is a space.
pub open spec fn strip_space(s: Seq<char>) -> Seq<char> {
    if s.len() > 0 && s[0] == ' ' {
        s.drop_first()
    } else {
        s
    }
}

/// The lines of the doc comments among `attrs`, in order, each without one leading
/// space.
pub open spec fn doc_lines(attrs: Seq<Attribute>) -> Seq<Seq<char>>
    decreases attrs.len(),
{
    if attrs.len() == 0 {
        Seq::empty()
    } else {
        let rest = doc_lines(attrs.drop_last());
        let a = attrs.last();
        if is_doc(a) {
            rest.push(strip_space(a.string_value->Some_0@))
        } else {
            rest
        }
    }
}

/// The docstring of an item with the attributes `attrs`: its doc lines joined by
/// newlines; empty when there are none.
pub open spec fn docstring_of(attrs: Seq<Attribute>) -> Seq<char> {
    joined(doc_lines(attrs), seq!['\n'])
}

/// Extracts the docstring from an item's attributes.
pub fn docstring_from_attrs(attrs: &Vec<Attribute>) -> (r: String)
    ensures
        r@ == docstring_of(attrs@),
{
    let mut lines: Vec<String> = Vec::new();
    let mut i: usize = 0;
    while i < attrs.len()
        invariant
            i <= attrs.len(),
            views(lines@) == doc_lines(attrs@.take(i as int)),
        decreases attrs.len() - i,
    {
        proof {
            reveal_strlit("doc");
            reveal_strlit(" ");
            assert("doc"@ =~= seq!['d', 'o', 'c']);
            assert(" "@ =~= seq![' ']);
            assert(attrs@.take(i + 1).drop_last() =~= attrs@.take(i as int));
            assert(attrs@.take(i + 1).last() == attrs@[i as int]);
        }
        let a = &attrs[i];
        if a.path == String::from_str("doc") {
            if let Some(value) = &a.string_value {
                let ghost before = lines@;
                let n = value.unicode_len();
                let spaced = starts_with(value.as_str(), " ");
                let line = if spaced {
                    String::from_str(value.as_str().substring_char(1, n))
                } else {
                    value.clone()
                };
                proof {
                    if value@.len() > 0 {
                        assert(value@.subrange(0, 1) =~= seq![value@[0]]);
                    }
                    if spaced {
                        assert(value@.subrange(0, 1) == seq![' ']);
                        assert(value@.subrange(0, 1)[0] == ' ');
                        assert(value@.len() > 0 && value@[0] == ' ');
                        assert(line@ =~= value@.subrange(1, value@.len() as int));
                        assert(line@ =~= value@.drop_first());
                    } else {
                        assert(!(value@.len() > 0 && value@[0] == ' '));
                        assert(line@ == value@);
                    }
                }
                lines.push(line);
                assert(views(lines@) =~= views(before).push(line@));
            }
        }
        i += 1;
    }
    assert(attrs@.take(attrs.len() as int) =~= attrs@);
    proof {
        reveal_strlit("\n");
        assert("\n"@ =~= seq!['\n']);
    }
    join(&lines, "\n")
}

} // verus!
