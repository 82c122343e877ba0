//! Discovery of a package's module tree, from its entry file outward.
//!
//! The walk keeps a stack of declared sub-modules still to resolve and the set of
//! files already read. Whoever drives it looks files up on disk (or anywhere else),
//! parses them, and hands the results back.
use vstd::prelude::*;

use crate::extract::{
    enum_record, field_record, items_record, module_record, struct_record, variant_record,
};
use crate::model::{is_child_path, AnalysisResult, Crate, Enum, Module, Struct};
use crate::docstring::{docstring_from_attrs, docstring_of};
use crate::syntax::SourceFile;
use crate::text::{child_path, clone_strings, join, joined, opt_view, views};

verus! {

/// Whether one of `modules` has the path `p`.
pub open spec fn is_module_path(modules: Seq<Module>, p: Seq<Seq<char>>) -> bool {
    exists|i: int| 0 <= i < modules.len() && views(#[trigger] modules[i].path@) == p
}

/// Whether every field of `s` is a child of `s`.
pub open spec fn struct_nested(s: Struct) -> bool {
    forall|k: int|
        0 <= k < s.fields@.len() ==> is_child_path(
            views(#[trigger] s.fields@[k].path@),
            views(s.path@),
        )
}

/// Whether every variant of `e` is a child of `e`, and every field of a variant a
/// child of the variant.
pub open spec fn enum_nested(e: Enum) -> bool {
    forall|k: int|
        0 <= k < e.variants@.len() ==> {
            &&& is_child_path(views(#[trigger] e.variants@[k].path@), views(e.path@))
            &&& forall|j: int|
                0 <= j < e.variants@[k].fields@.len() ==> is_child_path(
                    views(#[trigger] e.variants@[k].fields@[j].path@),
                    views(e.variants@[k].path@),
                )
        }
}

/// Whether an item path `p` has a module as its parent.
pub open spec fn item_placed(modules: Seq<Module>, p: Seq<Seq<char>>) -> bool {
    p.len() >= 2 && is_module_path(modules, p.drop_last())
}

/// Whether a module path `p` is the root path, or has a module as its parent.
pub open spec fn module_placed(modules: Seq<Module>, root: Seq<char>, p: Seq<Seq<char>>) -> bool {
    p == seq![root] || item_placed(modules, p)
}

impl AnalysisResult {
    /// Whether every record's path extends the path of the record that contains it by
    /// exactly one identifier: the root module's path is the crate's name; every other
    /// module, and every struct, enum and function, sits in a module; fields and
    /// variants sit in their struct, enum or variant.
    pub open spec fn well_nested(&self) -> bool {
        let modules = self.modules@;
        &&& forall|i: int|
            0 <= i < modules.len() ==> module_placed(
                modules,
                self.crate_.name@,
                views(#[trigger] modules[i].path@),
            )
        &&& forall|i: int|
            0 <= i < self.structs@.len() ==> item_placed(
                modules,
                views(#[trigger] self.structs@[i].path@),
            ) && struct_nested(self.structs@[i])
        &&& forall|i: int|
            0 <= i < self.enums@.len() ==> item_placed(
                modules,
                views(#[trigger] self.enums@[i].path@),
            ) && enum_nested(self.enums@[i])
        &&& forall|i: int|
            0 <= i < self.functions@.len() ==> item_placed(
                modules,
                views(#[trigger] self.functions@[i].path@),
            )
    }
}

/// A declared sub-module still to be resolved.
#[derive(Debug, Clone, PartialEq, Eq)]
pub struct PendingModule {
    /// The directory its file is looked for in, as path components.
    pub dir: Vec<String>,
    /// The module's name as declared.
    pub ident: String,
    /// The path of the module that declares it.
    pub parent: Vec<String>,
}

/// The file locations that a list of locations holds.
pub open spec fn locations(v: Seq<Vec<String>>) -> Seq<Seq<Seq<char>>> {
    v.map_values(|p: Vec<String>| views(p@))
}

/// `name.rs` for a module `name`.
pub open spec fn rs_file_name(name: Seq<char>) -> Seq<char> {
    name + seq!['.', 'r', 's']
}

/// `mod.rs`.
pub open spec fn mod_file_name() -> Seq<char> {
    seq!['m', 'o', 'd', '.', 'r', 's']
}

impl PendingModule {
    /// Where the module's file is looked for first: `dir/name.rs`.
    pub open spec fn file_location(&self) -> Seq<Seq<char>> {
        views(self.dir@).push(rs_file_name(self.ident@))
    }

    /// Where the module's file is looked for second: `dir/name/mod.rs`.
    pub open spec fn dir_location(&self) -> Seq<Seq<char>> {
        views(self.dir@).push(self.ident@).push(mod_file_name())
    }

    /// The path that the module gets: its parent's path and its name.
    pub open spec fn target_path(&self) -> Seq<Seq<char>> {
        views(self.parent@).push(self.ident@)
    }

    /// `dir/name.rs`: where the module's file is looked for first.
    pub fn file_candidate(&self) -> (r: Vec<String>)
        ensures
            views(r@) == self.file_location(),
    {
        proof {
            reveal_strlit(".rs");
            assert(".rs"@ =~= seq!['.', 'r', 's']);
        }
        let mut name = self.ident.clone();
        name.append(".rs");
        child_path(&self.dir, name)
    }

    /// `dir/name/mod.rs`: where the module's file is looked for when `dir/name.rs`
    /// does not exist.
    pub fn dir_candidate(&self) -> (r: Vec<String>)
        ensures
            views(r@) == self.dir_location(),
    {
        proof {
            reveal_strlit("mod.rs");
            assert("mod.rs"@ =~= mod_file_name());
        }
        let d = child_path(&self.dir, self.ident.clone());
        child_path(&d, String::from_str("mod.rs"))
    }
}

/// The file chosen for a module: `dir/name.rs` if it exists, else `dir/name/mod.rs`
/// if that exists, else none.
pub open spec fn chosen_location(
    item: PendingModule,
    file_exists: bool,
    dir_exists: bool,
) -> Option<Seq<Seq<char>>> {
    if file_exists {
        Some(item.file_location())
    } else if dir_exists {
        Some(item.dir_location())
    } else {
        None
    }
}

/// The display form of a file location: its components joined with `/`.
pub open spec fn location_text(loc: Seq<Seq<char>>) -> Seq<char> {
    joined(loc, seq!['/'])
}

/// The display form of a file location: its components joined with `/`.
pub fn location_display(loc: &Vec<String>) -> (r: String)
    ensures
        r@ == location_text(views(loc@)),
{
    proof {
        reveal_strlit("/");
        assert("/"@ =~= seq!['/']);
    }
    join(loc, "/")
}

/// Whether two lists of strings hold the same strings.
pub fn same_strings(a: &Vec<String>, b: &Vec<String>) -> (r: bool)
    ensures
        r == (views(a@) == views(b@)),
{
    if a.len() != b.len() {
        assert(views(a@).len() != views(b@).len());
        return false;
    }
    let mut i: usize = 0;
    while i < a.len()
        invariant
            a.len() == b.len(),
            i <= a.len(),
            forall|k: int| 0 <= k < i ==> a@[k]@ == b@[k]@,
        decreases a.len() - i,
    {
        if a[i] != b[i] {
            assert(views(a@)[i as int] != views(b@)[i as int]);
            return false;
        }
        i += 1;
    }
    assert(views(a@) =~= views(b@));
    true
}

/// Whether `loc` is among `list`.
pub fn contains_location(list: &Vec<Vec<String>>, loc: &Vec<String>) -> (r: bool)
    ensures
        r == locations(list@).contains(views(loc@)),
{
    let mut i: usize = 0;
    while i < list.len()
        invariant
            i <= list.len(),
            forall|k: int| 0 <= k < i ==> locations(list@)[k] != views(loc@),
        decreases list.len() - i,
    {
        if same_strings(&list[i], loc) {
            assert(locations(list@)[i as int] == views(loc@));
            return true;
        }
        i += 1;
    }
    false
}

/// The state of a walk over a package's module tree.
pub struct ModuleWalk {
    /// The records found so far.
    pub result: AnalysisResult,
    /// Declared sub-modules still to be resolved; the last is resolved next.
    pub pending: Vec<PendingModule>,
    /// The files read so far.
    pub visited: Vec<Vec<String>>,
}

proof fn lemma_module_paths_grow(old_modules: Seq<Module>, new_modules: Seq<Module>)
    requires
        old_modules.len() <= new_modules.len(),
        forall|i: int| 0 <= i < old_modules.len() ==> new_modules[i] == old_modules[i],
    ensures
        forall|p: Seq<Seq<char>>|
            is_module_path(old_modules, p) ==> #[trigger] is_module_path(new_modules, p),
{
    assert forall|p: Seq<Seq<char>>| is_module_path(old_modules, p) implies #[trigger] is_module_path(
        new_modules,
        p,
    ) by {
        let i = choose|i: int| 0 <= i < old_modules.len() && views(old_modules[i].path@) == p;
        assert(views(new_modules[i].path@) == p);
    }
}

proof fn lemma_struct_nested(s: Struct, parent: Seq<Seq<char>>, d: crate::syntax::StructDecl)
    requires
        struct_record(s, parent, d),
    ensures
        struct_nested(s),
        views(s.path@).drop_last() == parent,
        views(s.path@).len() == parent.len() + 1,
{
    assert(parent.push(d.ident@).drop_last() =~= parent);
    assert forall|k: int| 0 <= k < s.fields@.len() implies is_child_path(
        views(#[trigger] s.fields@[k].path@),
        views(s.path@),
    ) by {
        let positions = crate::extract::public_positions(d.fields@);
        assert(field_record(s.fields@[k], parent.push(d.ident@), positions[k], d.fields@[positions[k] as int]));
        let p = views(s.path@);
        let name = crate::extract::field_name(d.fields@[positions[k] as int], positions[k]);
        assert(p.push(name).drop_last() =~= p);
    }
}

proof fn lemma_enum_nested(e: Enum, parent: Seq<Seq<char>>, d: crate::syntax::EnumDecl)
    requires
        enum_record(e, parent, d),
    ensures
        enum_nested(e),
        views(e.path@).drop_last() == parent,
        views(e.path@).len() == parent.len() + 1,
{
    assert(parent.push(d.ident@).drop_last() =~= parent);
    let ep = views(e.path@);
    assert forall|k: int| 0 <= k < e.variants@.len() implies {
        &&& is_child_path(views(#[trigger] e.variants@[k].path@), views(e.path@))
        &&& forall|j: int|
            0 <= j < e.variants@[k].fields@.len() ==> is_child_path(
                views(#[trigger] e.variants@[k].fields@[j].path@),
                views(e.variants@[k].path@),
            )
    } by {
        let v = e.variants@[k];
        let vd = d.variants@[k];
        assert(variant_record(v, ep, vd));
        assert(ep.push(vd.ident@).drop_last() =~= ep);
        let vp = views(v.path@);
        assert forall|j: int| 0 <= j < v.fields@.len() implies is_child_path(
            views(#[trigger] v.fields@[j].path@),
            vp,
        ) by {
            let positions = crate::extract::all_positions(vd.fields@.len());
            assert(field_record(v.fields@[j], vp, positions[j], vd.fields@[positions[j] as int]));
            let name = crate::extract::field_name(vd.fields@[positions[j] as int], positions[j]);
            assert(vp.push(name).drop_last() =~= vp);
        }
    }
}

impl ModuleWalk {
    /// Whether the records found so far are well nested, every pending module is
    /// declared by a module found so far, and no file was read twice.
    pub open spec fn wf(&self) -> bool {
        &&& self.result.well_nested()
        &&& forall|i: int|
            0 <= i < self.pending@.len() ==> is_module_path(
                self.result.modules@,
                views(#[trigger] self.pending@[i].parent@),
            )
        &&& locations(self.visited@).no_duplicates()
    }

    /// A walk of a package whose entry file is missing: it finds the crate alone.
    pub fn new(crate_: Crate) -> (r: ModuleWalk)
        ensures
            r.wf(),
            r.result.crate_ == crate_,
            r.result.modules@.len() == 0,
            r.result.structs@.len() == 0,
            r.result.enums@.len() == 0,
            r.result.functions@.len() == 0,
            r.pending@.len() == 0,
            r.visited@.len() == 0,
    {
        let r = ModuleWalk {
            result: AnalysisResult::new(crate_),
            pending: Vec::new(),
            visited: Vec::new(),
        };
        assert(locations(r.visited@) =~= Seq::<Seq<Seq<char>>>::empty());
        r
    }

    /// Adds the records of the module read from `file` at `path`, and queues the
    /// sub-modules it declares, to be looked for in `dir`.
    fn add_file(
        &mut self,
        dir: Vec<String>,
        path: Vec<String>,
        file: Vec<String>,
        source: &SourceFile,
    )
        requires
            old(self).wf(),
            module_placed(
                old(self).result.modules@,
                old(self).result.crate_.name@,
                views(path@),
            ),
            !locations(old(self).visited@).contains(views(file@)),
        ensures
            final(self).wf(),
            final(self).result.crate_ == old(self).result.crate_,
            final(self).visited@ == old(self).visited@.push(file),
            final(self).result.modules@.len() == old(self).result.modules@.len() + 1,
            final(self).result.modules@.drop_last() == old(self).result.modules@,
            module_record(
                final(self).result.modules@.last(),
                Some(location_text(views(file@))),
                views(path@),
                *source,
            ),
            old(self).result.structs@.len() <= final(self).result.structs@.len(),
            old(self).result.enums@.len() <= final(self).result.enums@.len(),
            old(self).result.functions@.len() <= final(self).result.functions@.len(),
            final(self).result.structs@.take(old(self).result.structs@.len() as int)
                == old(self).result.structs@,
            final(self).result.enums@.take(old(self).result.enums@.len() as int)
                == old(self).result.enums@,
            final(self).result.functions@.take(old(self).result.functions@.len() as int)
                == old(self).result.functions@,
            items_record(
                final(self).result.structs@.skip(old(self).result.structs@.len() as int),
                final(self).result.enums@.skip(old(self).result.enums@.len() as int),
                final(self).result.functions@.skip(old(self).result.functions@.len() as int),
                views(path@),
                source.items@,
            ),
            final(self).pending@.len() >= old(self).pending@.len(),
            final(self).pending@.take(old(self).pending@.len() as int) == old(self).pending@,
            pending_declared(
                final(self).pending@.skip(old(self).pending@.len() as int),
                views(dir@),
                views(path@),
                crate::extract::declared_modules(source.items@),
            ),
    {
        let ghost old_modules = self.result.modules@;
        let ghost old_structs = self.result.structs@;
        let ghost old_enums = self.result.enums@;
        let ghost old_functions = self.result.functions@;
        let ghost old_pending = self.pending@;
        let ghost old_visited = self.visited@;
        let display = location_display(&file);
        let (module, mut structs, mut enums, mut functions) = Module::parse(
            Some(display),
            &path,
            source,
        );
        let ghost new_structs = structs@;
        let ghost new_enums = enums@;
        let ghost new_functions = functions@;
        let ghost declared = views(module.declarations@);
        let mut i: usize = 0;
        while i < module.declarations.len()
            invariant
                i <= module.declarations.len(),
                self.result == old(self).result,
                self.visited == old(self).visited,
                old_pending == old(self).pending@,
                declared == views(module.declarations@),
                self.pending@.len() == old_pending.len() + i,
                self.pending@.take(old_pending.len() as int) == old_pending,
                pending_declared(
                    self.pending@.skip(old_pending.len() as int),
                    views(dir@),
                    views(path@),
                    declared.take(i as int),
                ),
            decreases module.declarations.len() - i,
        {
            let ghost before = self.pending@;
            let item = PendingModule {
                dir: clone_strings(&dir),
                ident: module.declarations[i].clone(),
                parent: clone_strings(&path),
            };
            self.pending.push(item);
            assert(self.pending@.take(old_pending.len() as int) =~= before.take(
                old_pending.len() as int,
            ));
            assert(self.pending@.skip(old_pending.len() as int) =~= before.skip(
                old_pending.len() as int,
            ).push(item));
            assert(declared.take(i + 1).drop_last() =~= declared.take(i as int));
            i += 1;
        }
        assert(declared.take(module.declarations.len() as int) =~= declared);
        self.result.modules.push(module);
        self.result.structs.append(&mut structs);
        self.result.enums.append(&mut enums);
        self.result.functions.append(&mut functions);
        self.visited.push(file);
        proof {
            let modules = self.result.modules@;
            let root = self.result.crate_.name@;
            let q = views(path@);
            lemma_module_paths_grow(old_modules, modules);
            assert(modules.drop_last() =~= old_modules);
            assert(views(modules[old_modules.len() as int].path@) == q);
            assert(is_module_path(modules, q));
            assert(self.result.structs@.take(old_structs.len() as int) =~= old_structs);
            assert(self.result.structs@.skip(old_structs.len() as int) =~= new_structs);
            assert(self.result.enums@.take(old_enums.len() as int) =~= old_enums);
            assert(self.result.enums@.skip(old_enums.len() as int) =~= new_enums);
            assert(self.result.functions@.take(old_functions.len() as int) =~= old_functions);
            assert(self.result.functions@.skip(old_functions.len() as int) =~= new_functions);
            assert forall|i: int| 0 <= i < modules.len() implies module_placed(
                modules,
                root,
                views(#[trigger] modules[i].path@),
            ) by {
                if i < old_modules.len() {
                    assert(modules[i] == old_modules[i]);
                    assert(module_placed(old_modules, root, views(old_modules[i].path@)));
                }
            }
            assert forall|i: int| 0 <= i < self.result.structs@.len() implies item_placed(
                modules,
                views(#[trigger] self.result.structs@[i].path@),
            ) && struct_nested(self.result.structs@[i]) by {
                if i < old_structs.len() {
                    assert(self.result.structs@[i] == old_structs[i]);
                } else {
                    let k = i - old_structs.len();
                    assert(self.result.structs@[i] == new_structs[k]);
                    lemma_struct_nested(
                        new_structs[k],
                        q,
                        crate::extract::public_structs(source.items@)[k],
                    );
                }
            }
            assert forall|i: int| 0 <= i < self.result.enums@.len() implies item_placed(
                modules,
                views(#[trigger] self.result.enums@[i].path@),
            ) && enum_nested(self.result.enums@[i]) by {
                if i < old_enums.len() {
                    assert(self.result.enums@[i] == old_enums[i]);
                } else {
                    let k = i - old_enums.len();
                    assert(self.result.enums@[i] == new_enums[k]);
                    lemma_enum_nested(
                        new_enums[k],
                        q,
                        crate::extract::public_enums(source.items@)[k],
                    );
                }
            }
            assert forall|i: int| 0 <= i < self.result.functions@.len() implies item_placed(
                modules,
                views(#[trigger] self.result.functions@[i].path@),
            ) by {
                if i < old_functions.len() {
                    assert(self.result.functions@[i] == old_functions[i]);
                } else {
                    let k = i - old_functions.len();
                    assert(self.result.functions@[i] == new_functions[k]);
                    let d = crate::extract::public_functions(source.items@)[k];
                    assert(crate::extract::function_record(new_functions[k], q, d));
                    assert(q.push(d.ident@).drop_last() =~= q);
                }
            }
            assert forall|i: int| 0 <= i < self.pending@.len() implies is_module_path(
                modules,
                views(#[trigger] self.pending@[i].parent@),
            ) by {
                if i < old_pending.len() {
                    assert(self.pending@[i] == old_pending[i]);
                } else {
                    assert(self.pending@[i] == self.pending@.skip(old_pending.len() as int)[i
                        - old_pending.len()]);
                }
            }
            assert(locations(self.visited@) =~= locations(old_visited).push(views(file@)));
        }
    }

    /// A walk that starts from the entry file `file`, parsed as `source`: it finds the
    /// root module, at the path that is the crate's name, with its items.
    pub fn with_root(crate_: Crate, file: Vec<String>, source: &SourceFile) -> (r: ModuleWalk)
        requires
            file@.len() > 0,
        ensures
            r.wf(),
            r.result.crate_.name == crate_.name,
            r.result.crate_.version == crate_.version,
            r.result.crate_.docstring@ == docstring_of(source.attrs@),
            r.result.modules@.len() == 1,
            module_record(
                r.result.modules@[0],
                Some(location_text(views(file@))),
                seq![crate_.name@],
                *source,
            ),
            items_record(
                r.result.structs@,
                r.result.enums@,
                r.result.functions@,
                seq![crate_.name@],
                source.items@,
            ),
            locations(r.visited@) == seq![views(file@)],
            pending_declared(
                r.pending@,
                views(file@).drop_last(),
                seq![crate_.name@],
                crate::extract::declared_modules(source.items@),
            ),
    {
        let mut crate_ = crate_;
        crate_.docstring = docstring_from_attrs(&source.attrs);
        let mut walk = ModuleWalk::new(crate_);
        let path = walk.result.crate_.path();
        let mut dir = clone_strings(&file);
        dir.pop();
        assert(views(dir@) =~= views(file@).drop_last());
        walk.add_file(dir, path, file, source);
        proof {
            assert(walk.result.modules@ =~= seq![walk.result.modules@.last()]);
            assert(walk.result.structs@.skip(0) =~= walk.result.structs@);
            assert(walk.result.enums@.skip(0) =~= walk.result.enums@);
            assert(walk.result.functions@.skip(0) =~= walk.result.functions@);
            assert(walk.pending@.skip(0) =~= walk.pending@);
            assert(locations(walk.visited@) =~= seq![views(file@)]);
        }
        walk
    }

    /// Takes the next declared sub-module to resolve, if any is left.
    pub fn next_pending(&mut self) -> (r: Option<PendingModule>)
        requires
            old(self).wf(),
        ensures
            final(self).wf(),
            final(self).result == old(self).result,
            final(self).visited == old(self).visited,
            old(self).pending@.len() == 0 ==> r is None && final(self).pending@.len() == 0,
            old(self).pending@.len() > 0 ==> r == Some(old(self).pending@.last())
                && final(self).pending@ == old(self).pending@.drop_last(),
            r matches Some(item) ==> is_module_path(
                final(self).result.modules@,
                views(item.parent@),
            ),
    {
        let r = self.pending.pop();
        proof {
            if old(self).pending@.len() > 0 {
                assert(old(self).pending@[old(self).pending@.len() - 1] == old(self).pending@.last());
            }
        }
        r
    }

    /// The file to read for `item`, given whether `dir/name.rs` and
    /// `dir/name/mod.rs` exist: none when neither exists, or when the file was
    /// already read.
    pub fn choose_file(&self, item: &PendingModule, file_exists: bool, dir_exists: bool) -> (r:
        Option<Vec<String>>)
        ensures
            match chosen_location(*item, file_exists, dir_exists) {
                Some(loc) => if locations(self.visited@).contains(loc) {
                    r is None
                } else {
                    r matches Some(f) && views(f@) == loc
                },
                None => r is None,
            },
    {
        let f = if file_exists {
            item.file_candidate()
        } else if dir_exists {
            item.dir_candidate()
        } else {
            return None;
        };
        if contains_location(&self.visited, &f) {
            None
        } else {
            Some(f)
        }
    }

    /// Reads in the module `item`, from `file`, parsed as `source`: adds its records
    /// and queues its declared sub-modules, to be looked for in `dir/name/`.
    pub fn add_module(&mut self, item: PendingModule, file: Vec<String>, source: &SourceFile)
        requires
            old(self).wf(),
            is_module_path(old(self).result.modules@, views(item.parent@)),
            !locations(old(self).visited@).contains(views(file@)),
        ensures
            final(self).wf(),
            final(self).result.crate_ == old(self).result.crate_,
            final(self).visited@ == old(self).visited@.push(file),
            final(self).result.modules@.drop_last() == old(self).result.modules@,
            final(self).result.modules@.len() == old(self).result.modules@.len() + 1,
            module_record(
                final(self).result.modules@.last(),
                Some(location_text(views(file@))),
                item.target_path(),
                *source,
            ),
            items_record(
                final(self).result.structs@.skip(old(self).result.structs@.len() as int),
                final(self).result.enums@.skip(old(self).result.enums@.len() as int),
                final(self).result.functions@.skip(old(self).result.functions@.len() as int),
                item.target_path(),
                source.items@,
            ),
            final(self).result.structs@.take(old(self).result.structs@.len() as int)
                == old(self).result.structs@,
            final(self).result.enums@.take(old(self).result.enums@.len() as int)
                == old(self).result.enums@,
            final(self).result.functions@.take(old(self).result.functions@.len() as int)
                == old(self).result.functions@,
            final(self).pending@.len() >= old(self).pending@.len(),
            final(self).pending@.take(old(self).pending@.len() as int) == old(self).pending@,
            pending_declared(
                final(self).pending@.skip(old(self).pending@.len() as int),
                views(item.dir@).push(item.ident@),
                item.target_path(),
                crate::extract::declared_modules(source.items@),
            ),
    {
        let dir = child_path(&item.dir, item.ident.clone());
        let path = child_path(&item.parent, item.ident);
        proof {
            let p = views(path@);
            assert(p.drop_last() =~= views(item.parent@));
        }
        self.add_file(dir, path, file, source);
    }
}

/// Whether `pending` queues, in order, each of the modules named in `declared`,
/// declared by the module at `parent` and to be looked for in `dir`.
pub open spec fn pending_declared(
    pending: Seq<PendingModule>,
    dir: Seq<Seq<char>>,
    parent: Seq<Seq<char>>,
    declared: Seq<Seq<char>>,
) -> bool {
    &&& pending.len() == declared.len()
    &&& forall|k: int|
        0 <= k < pending.len() ==> {
            &&& (#[trigger] pending[k]).ident@ == declared[k]
            &&& views(pending[k].dir@) == dir
            &&& views(pending[k].parent@) == parent
        }
}

/// A parsed source file and where it was found.
#[derive(Debug, PartialEq, Eq)]
pub struct SourceEntry {
    pub location: Vec<String>,
    pub source: SourceFile,
}

/// The locations of a list of source entries.
pub open spec fn entry_locations(files: Seq<SourceEntry>) -> Seq<Seq<Seq<char>>> {
    files.map_values(|e: SourceEntry| views(e.location@))
}

/// Whether `m` is the record of one of `files`, read at that file's location.
pub open spec fn read_from(m: Module, files: Seq<SourceEntry>) -> bool {
    exists|j: int|
        0 <= j < files.len() && module_record(
            m,
            Some(location_text(views(#[trigger] files[j].location@))),
            views(m.path@),
            files[j].source,
        )
}

/// The file that a module declared as `name` by the module at `parent` is read
/// from, among the existing file locations `all`, in a package whose entry file lies
/// in the directory `root_dir`: the parent's directory is `root_dir` followed by the
/// parent's path below the crate, and the file is `name.rs` there, or else
/// `name/mod.rs`.
pub open spec fn declared_location(
    root_dir: Seq<Seq<char>>,
    parent: Seq<Seq<char>>,
    name: Seq<char>,
    all: Seq<Seq<Seq<char>>>,
) -> Option<Seq<Seq<char>>> {
    let dir = root_dir + parent.drop_first();
    let file = dir.push(rs_file_name(name));
    let nested = dir.push(name).push(mod_file_name());
    if all.contains(file) {
        Some(file)
    } else if all.contains(nested) {
        Some(nested)
    } else {
        None
    }
}

/// Whether one of `modules` was read from the file at `loc`.
pub open spec fn has_module_from(modules: Seq<Module>, loc: Seq<Seq<char>>) -> bool {
    exists|m: int|
        0 <= m < modules.len() && opt_view(#[trigger] modules[m].file) == Some(location_text(loc))
}

/// Whether the sub-module `name` declared by the module at `parent` is still pending,
/// or its file was read, or no file exists for it.
pub open spec fn declaration_settled(
    pending: Seq<PendingModule>,
    visited: Seq<Vec<String>>,
    root_dir: Seq<Seq<char>>,
    all: Seq<Seq<Seq<char>>>,
    parent: Seq<Seq<char>>,
    name: Seq<char>,
) -> bool {
    (exists|q: int|
        0 <= q < pending.len() && (#[trigger] pending[q]).ident@ == name && views(pending[q].parent@)
            == parent) || match declared_location(root_dir, parent, name, all) {
        Some(loc) => locations(visited).contains(loc),
        None => true,
    }
}

/// Whether `j` is the first position in `files` of a file at `loc`.
pub open spec fn first_at(files: Seq<SourceEntry>, loc: Seq<Seq<char>>, j: int) -> bool {
    &&& 0 <= j < files.len()
    &&& views(files[j].location@) == loc
    &&& forall|k: int| 0 <= k < j ==> views(#[trigger] files[k].location@) != loc
}

/// The first position in `files` of a file at `loc`, if there is one.
pub fn find_source(files: &Vec<SourceEntry>, loc: &Vec<String>) -> (r: Option<usize>)
    ensures
        match r {
            Some(j) => first_at(files@, views(loc@), j as int),
            None => !entry_locations(files@).contains(views(loc@)),
        },
{
    let mut i: usize = 0;
    while i < files.len()
        invariant
            i <= files.len(),
            forall|k: int| 0 <= k < i ==> views(#[trigger] files@[k].location@) != views(loc@),
        decreases files.len() - i,
    {
        if same_strings(&files[i].location, loc) {
            return Some(i);
        }
        i += 1;
    }
    proof {
        if entry_locations(files@).contains(views(loc@)) {
            let k = choose|k: int|
                0 <= k < files@.len() && entry_locations(files@)[k] == views(loc@);
            assert(views(files@[k].location@) == views(loc@));
        }
    }
    None
}

proof fn lemma_distinct_bound(seen: Seq<Seq<Seq<char>>>, all: Seq<Seq<Seq<char>>>)
    requires
        seen.no_duplicates(),
        forall|i: int| 0 <= i < seen.len() ==> all.contains(#[trigger] seen[i]),
    ensures
        seen.len() <= all.len(),
{
    seen.unique_seq_to_set();
    all.lemma_cardinality_of_set();
    assert(seen.to_set().subset_of(all.to_set())) by {
        assert forall|x| seen.to_set().contains(x) implies all.to_set().contains(x) by {
            let i = choose|i: int| 0 <= i < seen.len() && seen[i] == x;
        }
    }
    vstd::set_lib::lemma_len_subset(seen.to_set(), all.to_set());
}

proof fn lemma_settled_after_step(
    pre_pending: Seq<PendingModule>,
    post_pending: Seq<PendingModule>,
    pre_visited: Seq<Vec<String>>,
    post_visited: Seq<Vec<String>>,
    root_dir: Seq<Seq<char>>,
    all: Seq<Seq<Seq<char>>>,
    item: PendingModule,
    parent: Seq<Seq<char>>,
    name: Seq<char>,
)
    requires
        pre_pending.len() > 0,
        item == pre_pending.last(),
        post_pending.len() >= pre_pending.len() - 1,
        post_pending.take(pre_pending.len() - 1) == pre_pending.drop_last(),
        post_visited.len() >= pre_visited.len(),
        post_visited.take(pre_visited.len() as int) == pre_visited,
        match declared_location(root_dir, views(item.parent@), item.ident@, all) {
            Some(loc) => locations(post_visited).contains(loc),
            None => true,
        },
        declaration_settled(pre_pending, pre_visited, root_dir, all, parent, name),
    ensures
        declaration_settled(post_pending, post_visited, root_dir, all, parent, name),
{
    if exists|q: int|
        0 <= q < pre_pending.len() && (#[trigger] pre_pending[q]).ident@ == name && views(
            pre_pending[q].parent@,
        ) == parent {
        let q = choose|q: int|
            0 <= q < pre_pending.len() && (#[trigger] pre_pending[q]).ident@ == name && views(
                pre_pending[q].parent@,
            ) == parent;
        if q < pre_pending.len() - 1 {
            assert(post_pending[q] == post_pending.take(pre_pending.len() - 1)[q]);
            assert(post_pending[q] == pre_pending[q]);
        }
    } else {
        match declared_location(root_dir, parent, name, all) {
            Some(loc) => {
                let i = choose|i: int| 0 <= i < pre_visited.len() && locations(pre_visited)[i] == loc;
                assert(post_visited[i] == post_visited.take(pre_visited.len() as int)[i]);
                assert(locations(post_visited)[i] == loc);
            },
            None => {},
        }
    }
}

/// Analyzes a package whose source files are already parsed: `entry` is where its
/// entry file is, and `files` are the files that exist, each with its parsed form.
/// When `entry` is not among them, the result holds the crate alone.
#[verifier::rlimit(100)]
pub fn analyze_sources(crate_: Crate, entry: Vec<String>, files: &Vec<SourceEntry>) -> (r:
    AnalysisResult)
    requires
        entry@.len() > 0,
    ensures
        r.crate_.name == crate_.name,
        r.crate_.version == crate_.version,
        r.well_nested(),
        forall|i: int| 0 <= i < r.modules@.len() ==> read_from(#[trigger] r.modules@[i], files@),
        forall|i: int, k: int|
            0 <= i < r.modules@.len() && 0 <= k < r.modules@[i].declarations@.len() ==> (
            match declared_location(
                views(entry@).drop_last(),
                views(r.modules@[i].path@),
                #[trigger] r.modules@[i].declarations@[k]@,
                entry_locations(files@),
            ) {
                Some(loc) => has_module_from(r.modules@, loc),
                None => true,
            }),
        !entry_locations(files@).contains(views(entry@)) ==> r.crate_ == crate_
            && r.modules@.len() == 0
            && r.structs@.len() == 0 && r.enums@.len() == 0 && r.functions@.len() == 0,
        entry_locations(files@).contains(views(entry@)) ==> r.modules@.len() > 0
            && exists|j: int|
            first_at(files@, views(entry@), j) && r.crate_.docstring@ == docstring_of(
                files@[j].source.attrs@,
            ) && module_record(
                r.modules@[0],
                Some(location_text(views(entry@))),
                seq![crate_.name@],
                files@[j].source,
            ),
{
    let root = match find_source(files, &entry) {
        None => {
            let walk = ModuleWalk::new(crate_);
            return walk.result;
        },
        Some(j) => j,
    };
    let ghost entry_loc = views(entry@);
    let ghost name = crate_.name;
    let ghost version = crate_.version;
    let mut walk = ModuleWalk::with_root(crate_, entry, &files[root].source);
    let ghost docstring = walk.result.crate_.docstring;
    let ghost first = walk.result.modules@[0];
    let ghost crate_name = walk.result.crate_.name@;
    assert(entry_locations(files@)[root as int] == entry_loc);
    let ghost all = entry_locations(files@);
    assert(locations(walk.visited@).len() == walk.visited@.len());
    assert(locations(walk.visited@)[0] == entry_loc);
    assert(all[root as int] == entry_loc);
    assert(all.contains(entry_loc));
    assert(read_from(walk.result.modules@[0], files@)) by {
        assert(views(files@[root as int].location@) == entry_loc);
    }
    let ghost root_dir = entry_loc.drop_last();
    proof {
        let m = walk.result.modules@[0];
        let path = seq![crate_name];
        assert(views(m.path@) == path);
        assert(path.drop_first() =~= Seq::<Seq<char>>::empty());
        assert(root_dir + path.drop_first() =~= root_dir);
        assert forall|k: int| 0 <= k < m.declarations@.len() implies declaration_settled(
            walk.pending@,
            walk.visited@,
            root_dir,
            all,
            views(m.path@),
            #[trigger] m.declarations@[k]@,
        ) by {
            assert(views(m.declarations@)[k] == m.declarations@[k]@);
            assert(walk.pending@[k].ident@ == m.declarations@[k]@);
        }
        assert(has_module_from(walk.result.modules@, locations(walk.visited@)[0]));
    }
    loop
        invariant
            walk.wf(),
            walk.result.crate_.name == name,
            walk.result.crate_.version == version,
            walk.result.crate_.docstring == docstring,
            docstring@ == docstring_of(files@[root as int].source.attrs@),
            crate_name == name@,
            walk.result.modules@.len() > 0,
            walk.result.modules@[0] == first,
            module_record(first, Some(location_text(entry_loc)), seq![crate_name], files@[root as int].source),
            first_at(files@, entry_loc, root as int),
            all == entry_locations(files@),
            forall|i: int|
                0 <= i < walk.result.modules@.len() ==> read_from(
                    #[trigger] walk.result.modules@[i],
                    files@,
                ),
            forall|i: int|
                0 <= i < walk.visited@.len() ==> all.contains(
                    #[trigger] locations(walk.visited@)[i],
                ),
            root_dir == entry_loc.drop_last(),
            forall|q: int|
                0 <= q < walk.pending@.len() ==> views((#[trigger] walk.pending@[q]).dir@)
                    == root_dir + views(walk.pending@[q].parent@).drop_first() && views(
                    walk.pending@[q].parent@,
                ).len() >= 1,
            forall|i: int|
                0 <= i < walk.result.modules@.len() ==> views(
                    (#[trigger] walk.result.modules@[i]).path@,
                ).len() >= 1,
            forall|i: int, k: int|
                0 <= i < walk.result.modules@.len() && 0 <= k
                    < walk.result.modules@[i].declarations@.len() ==> declaration_settled(
                    walk.pending@,
                    walk.visited@,
                    root_dir,
                    all,
                    views(walk.result.modules@[i].path@),
                    #[trigger] walk.result.modules@[i].declarations@[k]@,
                ),
            forall|i: int|
                0 <= i < walk.visited@.len() ==> has_module_from(
                    walk.result.modules@,
                    #[trigger] locations(walk.visited@)[i],
                ),
        ensures
            walk.pending@.len() == 0,
        decreases files@.len() - walk.visited@.len(), walk.pending@.len(),
    {
        proof {
            lemma_distinct_bound(locations(walk.visited@), all);
        }
        let ghost pending_before = walk.pending@;
        let ghost visited_before = walk.visited@;
        let ghost modules_before = walk.result.modules@;
        let item = match walk.next_pending() {
            None => break,
            Some(item) => item,
        };
        let ghost popped = walk.pending@;
        let ghost it = item;
        let file_candidate = item.file_candidate();
        let dir_candidate = item.dir_candidate();
        let found_file = find_source(files, &file_candidate);
        let found_dir = find_source(files, &dir_candidate);
        let file_exists = found_file.is_some();
        let dir_exists = found_dir.is_some();
        proof {
            if let Some(j) = found_file {
                assert(all[j as int] == views(file_candidate@));
            }
            if let Some(j) = found_dir {
                assert(all[j as int] == views(dir_candidate@));
            }
            assert(pending_before[pending_before.len() - 1] == it);
            assert(chosen_location(it, file_exists, dir_exists) == declared_location(
                root_dir,
                views(it.parent@),
                it.ident@,
                all,
            ));
        }
        let chosen = walk.choose_file(&item, file_exists, dir_exists);
        if let Some(file) = chosen {
            let j = match find_source(files, &file) {
                Some(j) => j,
                None => {
                    proof {
                        assert(all.contains(views(file@)));
                    }
                    break;
                },
            };
            let ghost f = file;
            walk.add_module(item, file, &files[j].source);
            proof {
                let modules = walk.result.modules@;
                assert(walk.result.modules@[0] == modules_before[0]);
                assert(modules.drop_last() == modules_before);
                assert forall|i: int| 0 <= i < modules.len() implies read_from(
                    #[trigger] modules[i],
                    files@,
                ) by {
                    if i < modules_before.len() {
                        assert(modules[i] == modules_before[i]);
                    } else {
                        assert(modules[i] == modules.last());
                        assert(views(files@[j as int].location@) == views(f@));
                    }
                }
                assert(locations(walk.visited@) =~= locations(visited_before).push(views(f@)));
                assert(all[j as int] == views(f@));
                lemma_distinct_bound(locations(walk.visited@), all);
                assert forall|i: int| 0 <= i < modules.len() implies views(
                    (#[trigger] modules[i]).path@,
                ).len() >= 1 by {
                    if i < modules_before.len() {
                        assert(modules[i] == modules_before[i]);
                    } else {
                        assert(modules[i] == modules.last());
                    }
                }
                assert forall|i: int| 0 <= i < walk.visited@.len() implies has_module_from(
                    modules,
                    #[trigger] locations(walk.visited@)[i],
                ) by {
                    if i < visited_before.len() {
                        let loc = locations(visited_before)[i];
                        assert(locations(walk.visited@)[i] == loc);
                        assert(has_module_from(modules_before, loc));
                        let m = choose|m: int|
                            0 <= m < modules_before.len() && opt_view(modules_before[m].file)
                                == Some(location_text(loc));
                        assert(modules[m] == modules_before[m]);
                    } else {
                        assert(opt_view(modules[modules.len() - 1].file) == Some(
                            location_text(views(f@)),
                        ));
                    }
                }
                let n = popped.len() as int;
                assert forall|q: int| 0 <= q < walk.pending@.len() implies views(
                    (#[trigger] walk.pending@[q]).dir@,
                ) == root_dir + views(walk.pending@[q].parent@).drop_first() && views(
                    walk.pending@[q].parent@,
                ).len() >= 1 by {
                    if q < n {
                        assert(walk.pending@[q] == walk.pending@.take(n)[q]);
                        assert(popped[q] == pending_before[q]);
                    } else {
                        let e = walk.pending@.skip(n)[q - n];
                        assert(walk.pending@[q] == e);
                        let parent = views(it.parent@);
                        assert(parent.push(it.ident@).drop_first() =~= parent.drop_first().push(
                            it.ident@,
                        ));
                        assert(root_dir + parent.drop_first().push(it.ident@) =~= (root_dir
                            + parent.drop_first()).push(it.ident@));
                    }
                }
                assert(locations(walk.visited@)[walk.visited@.len() - 1] == views(f@));
                assert(locations(walk.visited@).contains(views(f@)));
            }
        } else {
            proof {
                match declared_location(root_dir, views(it.parent@), it.ident@, all) {
                    Some(loc) => {
                        assert(locations(walk.visited@).contains(loc));
                    },
                    None => {},
                }
            }
        }
        proof {
            let modules = walk.result.modules@;
            let n = popped.len() as int;
            assert(walk.pending@.take(n) == popped);
            assert(walk.visited@.take(visited_before.len() as int) =~= visited_before);
            assert forall|i: int, k: int|
                0 <= i < modules.len() && 0 <= k < modules[i].declarations@.len() implies declaration_settled(
                walk.pending@,
                walk.visited@,
                root_dir,
                all,
                views(modules[i].path@),
                #[trigger] modules[i].declarations@[k]@,
            ) by {
                if i < modules_before.len() {
                    assert(modules[i] == modules_before[i]);
                    lemma_settled_after_step(
                        pending_before,
                        walk.pending@,
                        visited_before,
                        walk.visited@,
                        root_dir,
                        all,
                        it,
                        views(modules[i].path@),
                        modules[i].declarations@[k]@,
                    );
                } else {
                    let e = walk.pending@[n + k];
                    assert(e == walk.pending@.skip(n)[k]);
                    assert(views(modules[i].declarations@)[k] == modules[i].declarations@[k]@);
                }
            }
        }
    }
    walk.result
}

} // verus!
