//! The on-disk cache of records: file naming, write skipping, and the selection of
//! stored records by path.
//!
//! A record is stored as `<category>/<path>.json`, where `<path>` is its path in
//! display form (identifiers joined with `::`). Reading and writing the files, and
//! encoding records as JSON, are left to the caller.
use vstd::prelude::*;

use crate::model::{is_child_path, path_display, path_separator, path_text};
use crate::text::{split, split_on, starts_with, views};

verus! {

/// The five kinds of record, each stored in a directory of its own.
#[derive(PartialEq, Eq, Structural, Clone, Copy, Debug)]
pub enum Category {
    Crates,
    Modules,
    Structs,
    Enums,
    Functions,
}

/// The name of a category's directory.
pub open spec fn category_dir(c: Category) -> Seq<char> {
    match c {
        Category::Crates => seq!['c', 'r', 'a', 't', 'e', 's'],
        Category::Modules => seq!['m', 'o', 'd', 'u', 'l', 'e', 's'],
        Category::Structs => seq!['s', 't', 'r', 'u', 'c', 't', 's'],
        Category::Enums => seq!['e', 'n', 'u', 'm', 's'],
        Category::Functions => seq!['f', 'u', 'n', 'c', 't', 'i', 'o', 'n', 's'],
    }
}

/// The extension of a record file.
pub open spec fn json_extension() -> Seq<char> {
    seq!['.', 'j', 's', 'o', 'n']
}

/// The name of the file that holds the record at `path`.
pub open spec fn record_file(path: Seq<Seq<char>>) -> Seq<char> {
    path_text(path) + json_extension()
}

/// The key of a record file: its name without the extension, when it has it.
pub open spec fn file_key(name: Seq<char>) -> Option<Seq<char>> {
    let n = name.len() - json_extension().len();
    if n >= 0 && name.subrange(n, name.len() as int) == json_extension() {
        Some(name.subrange(0, n))
    } else {
        None
    }
}

/// The path that a record key stands for.
pub open spec fn key_path(key: Seq<char>) -> Seq<Seq<char>> {
    split(key, path_separator())
}

/// Whether `p` lies under `ancestor`: it extends it strictly, or, when `include_self`
/// holds, equals it.
pub open spec fn descends(p: Seq<Seq<char>>, ancestor: Seq<Seq<char>>, include_self: bool) -> bool {
    (include_self && p == ancestor) || (p.len() > ancestor.len() && p.take(
        ancestor.len() as int,
    ) == ancestor)
}

/// Whether a record file must be written: it does not exist, or holds other content.
pub open spec fn write_needed(existing: Option<Seq<char>>, content: Seq<char>) -> bool {
    existing != Some(content)
}

impl Category {
    /// The name of the category's directory.
    pub fn dir_name(&self) -> (r: String)
        ensures
            r@ == category_dir(*self),
    {
        proof {
            reveal_strlit("crates");
            reveal_strlit("modules");
            reveal_strlit("structs");
            reveal_strlit("enums");
            reveal_strlit("functions");
        }
        let r = match self {
            Category::Crates => String::from_str("crates"),
            Category::Modules => String::from_str("modules"),
            Category::Structs => String::from_str("structs"),
            Category::Enums => String::from_str("enums"),
            Category::Functions => String::from_str("functions"),
        };
        assert(r@ =~= category_dir(*self));
        r
    }
}

/// The name of the file that holds the record at `path`.
pub fn record_file_name(path: &Vec<String>) -> (r: String)
    ensures
        r@ == record_file(views(path@)),
{
    proof {
        reveal_strlit(".json");
        assert(".json"@ =~= json_extension());
    }
    let mut r = path_display(path);
    r.append(".json");
    r
}

/// The key of a record file, from the file's name: the name without `.json`; none
/// when the name does not end so.
pub fn record_key(file_name: &String) -> (r: Option<String>)
    ensures
        match r {
            Some(k) => file_key(file_name@) == Some(k@),
            None => file_key(file_name@) is None,
        },
{
    proof {
        reveal_strlit(".json");
        assert(".json"@ =~= json_extension());
    }
    let s = file_name.as_str();
    let n = s.unicode_len();
    if n < 5 {
        return None;
    }
    if crate::text::matches_at(s, ".json", n - 5) {
        Some(String::from_str(s.substring_char(0, n - 5)))
    } else {
        None
    }
}

/// Whether a record must be written given what its file holds now, if it exists:
/// a file that already holds `content` is left alone.
pub fn needs_write(existing: &Option<String>, content: &String) -> (r: bool)
    ensures
        r == write_needed(crate::text::opt_view(*existing), content@),
{
    match existing {
        Some(current) => *current != *content,
        None => true,
    }
}

/// The path that a record key stands for.
pub fn path_of_key(key: &String) -> (r: Vec<String>)
    ensures
        views(r@) == key_path(key@),
{
    proof {
        reveal_strlit("::");
        assert("::"@ =~= path_separator());
    }
    split_on(key.as_str(), "::")
}

/// Whether `a` is the start of `p`.
fn starts_path(p: &Vec<String>, a: &Vec<String>) -> (r: bool)
    requires
        a@.len() <= p@.len(),
    ensures
        r == (views(p@).take(a@.len() as int) == views(a@)),
{
    let mut i: usize = 0;
    while i < a.len()
        invariant
            a@.len() <= p@.len(),
            i <= a.len(),
            forall|k: int| 0 <= k < i ==> p@[k]@ == a@[k]@,
        decreases a.len() - i,
    {
        if p[i] != a[i] {
            assert(views(p@).take(a@.len() as int)[i as int] != views(a@)[i as int]);
            return false;
        }
        i += 1;
    }
    assert(views(p@).take(a@.len() as int) =~= views(a@));
    true
}

/// Whether the record with key `key` is a child of `parent`: its path is `parent`
/// with one identifier appended.
pub fn is_child(key: &String, parent: &Vec<String>) -> (r: bool)
    ensures
        r == is_child_path(key_path(key@), views(parent@)),
{
    let p = path_of_key(key);
    if p.len() == 0 || p.len() - 1 != parent.len() {
        return false;
    }
    let r = starts_path(&p, parent);
    assert(views(p@).drop_last() =~= views(p@).take(parent@.len() as int));
    r
}

/// Whether the record with key `key` lies under `ancestor`.
pub fn is_descendant(key: &String, ancestor: &Vec<String>, include_self: bool) -> (r: bool)
    ensures
        r == descends(key_path(key@), views(ancestor@), include_self),
{
    let p = path_of_key(key);
    if p.len() < ancestor.len() {
        return false;
    }
    let prefix = starts_path(&p, ancestor);
    if p.len() == ancestor.len() {
        assert(views(p@).take(ancestor@.len() as int) =~= views(p@));
        include_self && prefix
    } else {
        prefix
    }
}

/// Whether a record's key starts with the text `prefix`. This compares text, not
/// identifiers: `Foo` is a prefix of `FooBar`.
pub fn has_key_prefix(key: &String, prefix: &str) -> (r: bool)
    ensures
        r == (prefix@.len() <= key@.len() && key@.subrange(0, prefix@.len() as int) == prefix@),
{
    starts_with(key.as_str(), prefix)
}

/// The keys of the record files among `file_names` that satisfy `keep`, in order.
pub open spec fn selected(file_names: Seq<String>, keep: spec_fn(Seq<char>) -> bool) -> Seq<
    Seq<char>,
>
    decreases file_names.len(),
{
    if file_names.len() == 0 {
        Seq::empty()
    } else {
        let rest = selected(file_names.drop_last(), keep);
        match file_key(file_names.last()@) {
            Some(k) => if keep(k) {
                rest.push(k)
            } else {
                rest
            },
            None => rest,
        }
    }
}

proof fn lemma_selected_step(file_names: Seq<String>, keep: spec_fn(Seq<char>) -> bool, i: int)
    requires
        0 <= i < file_names.len(),
    ensures
        selected(file_names.take(i + 1), keep) == match file_key(file_names[i]@) {
            Some(k) => if keep(k) {
                selected(file_names.take(i), keep).push(k)
            } else {
                selected(file_names.take(i), keep)
            },
            None => selected(file_names.take(i), keep),
        },
{
    let t = file_names.take(i + 1);
    assert(t.drop_last() =~= file_names.take(i));
    assert(t.last() == file_names[i]);
}

/// The keys of the records among the files `file_names` whose paths are children of
/// `parent`, in order.
pub fn select_children(file_names: &Vec<String>, parent: &Vec<String>) -> (r: Vec<String>)
    ensures
        views(r@) == selected(
            file_names@,
            |k: Seq<char>| is_child_path(key_path(k), views(parent@)),
        ),
{
    let ghost keep = |k: Seq<char>| is_child_path(key_path(k), views(parent@));
    let mut r: Vec<String> = Vec::new();
    let mut i: usize = 0;
    while i < file_names.len()
        invariant
            i <= file_names.len(),
            keep == (|k: Seq<char>| is_child_path(key_path(k), views(parent@))),
            views(r@) == selected(file_names@.take(i as int), keep),
        decreases file_names.len() - i,
    {
        proof {
            lemma_selected_step(file_names@, keep, i as int);
        }
        if let Some(key) = record_key(&file_names[i]) {
            if is_child(&key, parent) {
                let ghost before = r@;
                r.push(key);
                assert(views(r@) =~= views(before).push(r@.last()@));
            }
        }
        i += 1;
    }
    assert(file_names@.take(file_names.len() as int) =~= file_names@);
    r
}

/// The keys of the records among the files `file_names` whose paths lie under
/// `ancestor`, in order.
pub fn select_descendants(file_names: &Vec<String>, ancestor: &Vec<String>, include_self: bool) -> (r:
    Vec<String>)
    ensures
        views(r@) == selected(
            file_names@,
            |k: Seq<char>| descends(key_path(k), views(ancestor@), include_self),
        ),
{
    let ghost keep = |k: Seq<char>| descends(key_path(k), views(ancestor@), include_self);
    let mut r: Vec<String> = Vec::new();
    let mut i: usize = 0;
    while i < file_names.len()
        invariant
            i <= file_names.len(),
            keep == (|k: Seq<char>| descends(key_path(k), views(ancestor@), include_self)),
            views(r@) == selected(file_names@.take(i as int), keep),
        decreases file_names.len() - i,
    {
        proof {
            lemma_selected_step(file_names@, keep, i as int);
        }
        if let Some(key) = record_key(&file_names[i]) {
            if is_descendant(&key, ancestor, include_self) {
                let ghost before = r@;
                r.push(key);
                assert(views(r@) =~= views(before).push(r@.last()@));
            }
        }
        i += 1;
    }
    assert(file_names@.take(file_names.len() as int) =~= file_names@);
    r
}

/// The keys of the records among the files `file_names` whose keys start with the
/// text `prefix`, in order.
pub fn select_by_prefix(file_names: &Vec<String>, prefix: &str) -> (r: Vec<String>)
    ensures
        views(r@) == selected(
            file_names@,
            |k: Seq<char>| prefix@.len() <= k.len() && k.subrange(0, prefix@.len() as int) == prefix@,
        ),
{
    let ghost keep = |k: Seq<char>|
        prefix@.len() <= k.len() && k.subrange(0, prefix@.len() as int) == prefix@;
    let mut r: Vec<String> = Vec::new();
    let mut i: usize = 0;
    while i < file_names.len()
        invariant
            i <= file_names.len(),
            keep == (|k: Seq<char>|
                prefix@.len() <= k.len() && k.subrange(0, prefix@.len() as int) == prefix@),
            views(r@) == selected(file_names@.take(i as int), keep),
        decreases file_names.len() - i,
    {
        proof {
            lemma_selected_step(file_names@, keep, i as int);
        }
        if let Some(key) = record_key(&file_names[i]) {
            if has_key_prefix(&key, prefix) {
                let ghost before = r@;
                r.push(key);
                assert(views(r@) =~= views(before).push(r@.last()@));
            }
        }
        i += 1;
    }
    assert(file_names@.take(file_names.len() as int) =~= file_names@);
    r
}

/// The content of the file `name` among `files`, if it exists.
pub open spec fn existing(files: Map<Seq<char>, Seq<char>>, name: Seq<char>) -> Option<Seq<char>> {
    if files.contains_key(name) {
        Some(files[name])
    } else {
        None
    }
}

/// The files after storing `content` under `name`: written only when needed.
pub open spec fn after_store(files: Map<Seq<char>, Seq<char>>, name: Seq<char>, content: Seq<char>) -> Map<
    Seq<char>,
    Seq<char>,
> {
    if write_needed(existing(files, name), content) {
        files.insert(name, content)
    } else {
        files
    }
}

/// Storing is idempotent: after a record is stored, storing it again writes nothing
/// and leaves the files as they are, and the file holds exactly what was stored.
pub proof fn lemma_store_idempotent(
    files: Map<Seq<char>, Seq<char>>,
    name: Seq<char>,
    content: Seq<char>,
)
    ensures
        existing(after_store(files, name, content), name) == Some(content),
        !write_needed(existing(after_store(files, name, content), name), content),
        after_store(after_store(files, name, content), name, content) == after_store(
            files,
            name,
            content,
        ),
{
}

/// A child query matches exactly the paths made of the parent and one identifier
/// more; a longer or shorter path, or one that leaves the parent, never matches.
pub proof fn lemma_children_exact(p: Seq<Seq<char>>, parent: Seq<Seq<char>>)
    ensures
        is_child_path(p, parent) <==> exists|x: Seq<char>| p == parent.push(x),
        p.len() != parent.len() + 1 ==> !is_child_path(p, parent),
        p.len() >= parent.len() && p.take(parent.len() as int) != parent ==> !is_child_path(
            p,
            parent,
        ),
{
    if is_child_path(p, parent) {
        assert(p =~= parent.push(p.last()));
    }
    if exists|x: Seq<char>| p == parent.push(x) {
        let x = choose|x: Seq<char>| p == parent.push(x);
        assert(p.drop_last() =~= parent);
    }
    if p.len() >= parent.len() && is_child_path(p, parent) {
        assert(p.take(parent.len() as int) =~= p.drop_last());
    }
}

/// A descendant query leaves out the ancestor itself unless asked to include it.
pub proof fn lemma_descendants_self(p: Seq<Seq<char>>, ancestor: Seq<Seq<char>>)
    ensures
        p == ancestor ==> !descends(p, ancestor, false) && descends(p, ancestor, true),
        p != ancestor ==> (descends(p, ancestor, false) <==> descends(p, ancestor, true)),
{
}

/// The record stored for an entity at path `p` is found by the queries exactly as `p`
/// itself would be: the file's key is `p`'s display form, and that key splits back
/// into `p` when no identifier holds a colon. So a child query for `parent` selects it
/// exactly when `p` is `parent` with one identifier appended, and a descendant query
/// exactly when `p` lies under the ancestor.
pub proof fn lemma_stored_path_queries(
    p: Seq<Seq<char>>,
    parent: Seq<Seq<char>>,
    include_self: bool,
)
    requires
        p.len() >= 1,
        crate::text::free_of(p, ':'),
    ensures
        file_key(record_file(p)) == Some(path_text(p)),
        key_path(path_text(p)) == p,
        is_child_path(key_path(path_text(p)), parent) <==> is_child_path(p, parent),
        descends(key_path(path_text(p)), parent, include_self) <==> descends(
            p,
            parent,
            include_self,
        ),
{
    let t = path_text(p);
    let f = record_file(p);
    assert(f.subrange(f.len() - json_extension().len(), f.len() as int) =~= json_extension());
    assert(f.subrange(0, f.len() - json_extension().len()) =~= t);
    crate::text::lemma_split_joined(p, path_separator());
}

} // verus!
