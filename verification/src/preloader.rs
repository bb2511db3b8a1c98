//! The symbol tables: for each declaration of a package, the path of what owns it.

use crate::utils::same_text;
use crate::visitor::Decl;
use std::collections::HashMap;
use vstd::prelude::*;

verus! {

broadcast use vstd::std_specs::hash::group_hash_axioms;

/// The kinds of types that own fields, variants or methods.
#[derive(Clone, Copy, Debug, PartialEq, Eq, Structural)]
pub enum AdtKind {
    Struct,
    Union,
    Enum,
}

/// A struct, union or enum as a module declares it, with its fields or variants.
#[derive(Clone, Debug)]
pub struct Adt {
    pub kind: AdtKind,
    pub id: u64,
    pub name: String,
    pub members: Vec<u64>,
}

/// An impl block: the handle of the struct, union or enum that it is for (none where it
/// is for another type), whether it implements a trait, and its functions.
#[derive(Clone, Debug)]
pub struct Impl {
    pub target: Option<u64>,
    pub of_trait: bool,
    pub methods: Vec<u64>,
}

/// A module of a package with what it declares and the modules below it.
#[derive(Debug)]
pub struct Module {
    /// The module's name; the root of a package and a block have none.
    pub name: Option<String>,
    pub declarations: Vec<Adt>,
    pub impls: Vec<Impl>,
    pub children: Vec<Module>,
}

/// The tables in contracts: from a declaration's handle to its owner's path, for
/// methods, structs, fields and variants; and from the handle of each struct, union and
/// enum to the type's own path, by which the owner of its methods is found.
pub struct Tables {
    pub methods: Map<u64, Seq<char>>,
    pub structs: Map<u64, Seq<char>>,
    pub members: Map<u64, Seq<char>>,
    pub variants: Map<u64, Seq<char>>,
    pub types: Map<u64, Seq<char>>,
}

/// The tables with no entry.
pub open spec fn no_tables() -> Tables {
    Tables {
        methods: Map::empty(),
        structs: Map::empty(),
        members: Map::empty(),
        variants: Map::empty(),
        types: Map::empty(),
    }
}

/// The owner's path that the tables hold for a declaration.
pub open spec fn owner_of(tables: Tables, decl: Decl) -> Option<Seq<char>> {
    let (table, id) = match decl {
        Decl::Struct(id) => (tables.structs, id),
        Decl::Method(id) => (tables.methods, id),
        Decl::Field(id) => (tables.members, id),
        Decl::Variant(id) => (tables.variants, id),
    };
    if table.contains_key(id) {
        Some(table[id])
    } else {
        None
    }
}

/// `name` as a part of `path`, behind the separator of paths.
pub open spec fn joined(path: Seq<char>, name: Seq<char>) -> Seq<char> {
    path + seq![':', ':'] + name
}

/// The table with `owner` recorded for each of `ids`.
pub open spec fn record_all(table: Map<u64, Seq<char>>, ids: Seq<u64>, owner: Seq<char>) -> Map<
    u64,
    Seq<char>,
>
    decreases ids.len(),
{
    if ids.len() == 0 {
        table
    } else {
        record_all(table, ids.drop_last(), owner).insert(ids.last(), owner)
    }
}

/// The tables with one declaration of the module at `path` recorded: a struct is owned
/// by the module, fields and variants by their type, whose own path is kept too.
pub open spec fn with_adt(t: Tables, adt: Adt, path: Seq<char>) -> Tables {
    let owner = joined(path, adt.name@);
    let t = Tables { types: t.types.insert(adt.id, owner), ..t };
    match adt.kind {
        AdtKind::Struct => Tables {
            structs: t.structs.insert(adt.id, path),
            members: record_all(t.members, adt.members@, owner),
            ..t
        },
        AdtKind::Union => Tables { members: record_all(t.members, adt.members@, owner), ..t },
        AdtKind::Enum => Tables { variants: record_all(t.variants, adt.members@, owner), ..t },
    }
}

/// The tables with the declared types of a module recorded, one after the other.
pub open spec fn with_adts(t: Tables, adts: Seq<Adt>, path: Seq<char>) -> Tables
    decreases adts.len(),
{
    if adts.len() == 0 {
        t
    } else {
        with_adt(with_adts(t, adts.drop_last(), path), adts.last(), path)
    }
}

/// The tables with the types recorded that the module at `path` and the named modules
/// below it declare: first its own, then those of its children in their order.
pub open spec fn with_types(t: Tables, module: Module, path: Seq<char>) -> Tables
    decreases module, module.children@.len() + 1,
{
    with_child_types(
        with_adts(t, module.declarations@, path),
        module,
        module.children@.len(),
        path,
    )
}

/// The tables with the types of the first `n` children of `module` recorded.
pub open spec fn with_child_types(t: Tables, module: Module, n: nat, path: Seq<char>) -> Tables
    decreases module, n,
{
    if n == 0 || n > module.children@.len() {
        t
    } else {
        let before = with_child_types(t, module, (n - 1) as nat, path);
        let child = module.children@[n - 1];
        match child.name {
            Some(name) => with_types(before, child, joined(path, name@)),
            None => before,
        }
    }
}

/// The tables with the functions of one impl block recorded, where it is an inherent
/// impl of a struct, union or enum that the tables know: each function is owned by the
/// type, under the path of the module that declares the type, wherever the block stands.
pub open spec fn with_impl(t: Tables, block: Impl) -> Tables {
    match block.target {
        Some(id) => if block.of_trait || !t.types.contains_key(id) {
            t
        } else {
            Tables { methods: record_all(t.methods, block.methods@, t.types[id]), ..t }
        },
        None => t,
    }
}

/// The tables with the impl blocks of a module recorded, one after the other.
pub open spec fn with_impls(t: Tables, blocks: Seq<Impl>) -> Tables
    decreases blocks.len(),
{
    if blocks.len() == 0 {
        t
    } else {
        with_impl(with_impls(t, blocks.drop_last()), blocks.last())
    }
}

/// The tables with the methods recorded of the impl blocks that stand in a module and in
/// the named modules below it: first its own, then those of its children in their order.
pub open spec fn with_methods(t: Tables, module: Module) -> Tables
    decreases module, module.children@.len() + 1,
{
    with_child_methods(with_impls(t, module.impls@), module, module.children@.len())
}

/// The tables with the methods of the first `n` children of `module` recorded.
pub open spec fn with_child_methods(t: Tables, module: Module, n: nat) -> Tables
    decreases module, n,
{
    if n == 0 || n > module.children@.len() {
        t
    } else {
        let before = with_child_methods(t, module, (n - 1) as nat);
        let child = module.children@[n - 1];
        match child.name {
            Some(_) => with_methods(before, child),
            None => before,
        }
    }
}

/// The tables with all recorded that the module at `path` and the named modules below it
/// declare: first the types of them all, then the methods of their impl blocks.
pub open spec fn with_module(t: Tables, module: Module, path: Seq<char>) -> Tables {
    with_methods(with_types(t, module, path), module)
}

/// Every handle recorded has the owner.
pub proof fn recorded_have_the_owner(table: Map<u64, Seq<char>>, ids: Seq<u64>, owner: Seq<char>)
    ensures
        forall|i: int|
            0 <= i < ids.len() ==> record_all(table, ids, owner).contains_key(#[trigger] ids[i])
                && record_all(table, ids, owner)[ids[i]] == owner,
    decreases ids.len(),
{
    if ids.len() > 0 {
        let front = ids.drop_last();
        recorded_have_the_owner(table, front, owner);
        assert forall|i: int| 0 <= i < ids.len() implies record_all(table, ids, owner).contains_key(
            #[trigger] ids[i],
        ) && record_all(table, ids, owner)[ids[i]] == owner by {
            if i < front.len() {
                assert(front[i] == ids[i]);
            }
        }
    }
}

/// The entry of a handle that is not recorded stays as it is.
pub proof fn unrecorded_stays(table: Map<u64, Seq<char>>, ids: Seq<u64>, owner: Seq<char>, id: u64)
    requires
        !ids.contains(id),
    ensures
        record_all(table, ids, owner).contains_key(id) <==> table.contains_key(id),
        table.contains_key(id) ==> record_all(table, ids, owner)[id] == table[id],
    decreases ids.len(),
{
    if ids.len() > 0 {
        let front = ids.drop_last();
        assert(ids[ids.len() - 1] != id);
        if front.contains(id) {
            let k = choose|k: int| 0 <= k < front.len() && front[k] == id;
            assert(ids[k] == id);
        }
        unrecorded_stays(table, front, owner, id);
    }
}

/// The functions of an inherent impl block are owned by the type that the block is for,
/// under the path that was recorded where the type is declared.
pub proof fn methods_are_owned_by_their_type(t: Tables, block: Impl, id: u64)
    requires
        block.target == Some(id),
        !block.of_trait,
        t.types.contains_key(id),
    ensures
        forall|i: int|
            0 <= i < block.methods@.len() ==> with_impl(t, block).methods.contains_key(
                #[trigger] block.methods@[i],
            ) && with_impl(t, block).methods[block.methods@[i]] == t.types[id],
{
    recorded_have_the_owner(t.methods, block.methods@, t.types[id]);
}

/// The functions of an impl of a trait, and of a block that is for no struct, union or
/// enum, are not recorded.
pub proof fn other_impls_record_nothing(t: Tables, block: Impl)
    requires
        block.of_trait || block.target is None,
    ensures
        with_impl(t, block) == t,
{
}

/// A declared type is kept under the path of its module and its name, whatever its kind.
pub proof fn types_are_kept_under_their_module(t: Tables, adt: Adt, path: Seq<char>)
    ensures
        with_adt(t, adt, path).types.contains_key(adt.id),
        with_adt(t, adt, path).types[adt.id] == joined(path, adt.name@),
        with_adt(t, adt, path).methods == t.methods,
{
}

/// The texts of a table's values.
pub open spec fn paths_of(table: Map<u64, String>) -> Map<u64, Seq<char>> {
    table.map_values(|s: String| s@)
}

/// The tables of a package's declarations, filled once for each package.
#[derive(Debug)]
pub struct Preloader {
    methods: HashMap<u64, String>,
    structs: HashMap<u64, String>,
    members: HashMap<u64, String>,
    variants: HashMap<u64, String>,
    types: HashMap<u64, String>,
    visited: Vec<String>,
}

/// Records `owner` for each of `ids`.
fn record(table: &mut HashMap<u64, String>, ids: &Vec<u64>, owner: &str)
    ensures
        paths_of(final(table)@) == record_all(paths_of(old(table)@), ids@, owner@),
{
    let mut i: usize = 0;
    assert(ids@.take(0).len() == 0);
    while i < ids.len()
        invariant
            i <= ids.len(),
            paths_of(table@) == record_all(paths_of(old(table)@), ids@.take(i as int), owner@),
        decreases ids.len() - i,
    {
        let ghost before = table@;
        let value = String::from_str(owner);
        table.insert(ids[i], value);
        proof {
            assert(ids@.take(i + 1).drop_last() == ids@.take(i as int));
            assert(paths_of(table@) =~= paths_of(before).insert(ids@[i as int], owner@));
        }
        i += 1;
    }
    assert(ids@.take(i as int) == ids@);
}

/// `name` behind `path` and the separator of paths.
fn join(path: &str, name: &str) -> (r: String)
    ensures
        r@ == joined(path@, name@),
{
    proof {
        reveal_strlit("::");
    }
    let r = String::from_str(path).concat("::").concat(name);
    assert("::"@ =~= seq![':', ':']);
    r
}

/// The full path of a module: the package's name, where it has one, then the names of
/// the modules down to the module itself, which comes first in `outward`.
pub open spec fn full_path(krate: Option<Seq<char>>, outward: Seq<Seq<char>>) -> Seq<char>
    decreases outward.len(),
{
    if outward.len() == 0 {
        match krate {
            Some(name) => name,
            None => Seq::empty(),
        }
    } else if krate is None && outward.len() == 1 {
        outward[0]
    } else {
        joined(full_path(krate, outward.drop_first()), outward[0])
    }
}

/// The full path of a module, from the names met on the way from the module up to the
/// root of its package and the package's name.
pub fn full_name(outward: &Vec<String>, krate: Option<&str>) -> (r: String)
    ensures
        r@ == full_path(
            match krate {
                Some(name) => Some(name@),
                None => None,
            },
            outward@.map_values(|s: String| s@),
        ),
{
    let ghost package = match krate {
        Some(name) => Some(name@),
        None => None,
    };
    let ghost names = outward@.map_values(|s: String| s@);
    let mut path = match krate {
        Some(name) => String::from_str(name),
        None => String::new(),
    };
    let mut started: bool = krate.is_some();
    let mut i: usize = outward.len();
    assert(names.subrange(i as int, names.len() as int).len() == 0);
    while i > 0
        invariant
            i <= outward.len(),
            names == outward@.map_values(|s: String| s@),
            started == (package is Some || i < outward.len()),
            path@ == full_path(package, names.subrange(i as int, names.len() as int)),
        decreases i,
    {
        i -= 1;
        proof {
            let now = names.subrange(i as int, names.len() as int);
            assert(now.drop_first() =~= names.subrange(i + 1, names.len() as int));
            assert(now[0] == outward@[i as int]@);
        }
        if started {
            path = join(path.as_str(), outward[i].as_str());
        } else {
            path = outward[i].clone();
        }
        started = true;
    }
    assert(names.subrange(0, names.len() as int) =~= names);
    path
}

impl Preloader {
    /// What the tables hold.
    pub closed spec fn tables(self) -> Tables {
        Tables {
            methods: paths_of(self.methods@),
            structs: paths_of(self.structs@),
            members: paths_of(self.members@),
            variants: paths_of(self.variants@),
            types: paths_of(self.types@),
        }
    }

    /// The names of the packages that were loaded.
    pub closed spec fn visited(self) -> Seq<Seq<char>> {
        self.visited@.map_values(|s: String| s@)
    }

    /// Empty tables; no package was loaded.
    pub fn new() -> (r: Preloader)
        ensures
            r.tables() == no_tables(),
            r.visited().len() == 0,
    {
        let r = Preloader {
            methods: HashMap::new(),
            structs: HashMap::new(),
            members: HashMap::new(),
            variants: HashMap::new(),
            types: HashMap::new(),
            visited: Vec::new(),
        };
        assert(paths_of(Map::<u64, String>::empty()) =~= Map::<u64, Seq<char>>::empty());
        r
    }

    /// The path of what owns a declaration, where the tables hold it.
    pub fn owner(&self, decl: Decl) -> (r: Option<&String>)
        ensures
            match r {
                Some(path) => owner_of(self.tables(), decl) == Some(path@),
                None => owner_of(self.tables(), decl) is None,
            },
    {
        match decl {
            Decl::Struct(id) => self.structs.get(&id),
            Decl::Method(id) => self.methods.get(&id),
            Decl::Field(id) => self.members.get(&id),
            Decl::Variant(id) => self.variants.get(&id),
        }
    }

    /// Whether the package of this name was loaded.
    pub fn is_loaded(&self, name: &str) -> (r: bool)
        ensures
            r == self.visited().contains(name@),
    {
        let mut i: usize = 0;
        while i < self.visited.len()
            invariant
                i <= self.visited.len(),
                forall|k: int| 0 <= k < i ==> self.visited()[k] != name@,
            decreases self.visited.len() - i,
        {
            if same_text(self.visited[i].as_str(), name) {
                assert(self.visited()[i as int] == name@);
                return true;
            }
            i += 1;
        }
        false
    }

    /// Loads a package: records what its modules declare, under the package's name as
    /// the root of the paths. A package that was loaded is not loaded again.
    pub fn load(&mut self, name: &str, module: &Module)
        ensures
            old(self).visited().contains(name@) ==> final(self).tables() == old(self).tables()
                && final(self).visited() == old(self).visited(),
            !old(self).visited().contains(name@) ==> final(self).tables() == with_module(
                old(self).tables(),
                *module,
                name@,
            ) && final(self).visited() == old(self).visited().push(name@),
            final(self).visited().contains(name@),
    {
        if self.is_loaded(name) {
            return ;
        }
        self.load_module(module, name);
        self.visited.push(String::from_str(name));
        assert(final(self).visited() =~= old(self).visited().push(name@));
        assert(final(self).visited()[old(self).visited().len() as int] == name@);
    }

    /// Records what one declared type brings.
    fn load_adt(&mut self, adt: &Adt, path: &str)
        ensures
            final(self).tables() == with_adt(old(self).tables(), *adt, path@),
            final(self).visited() == old(self).visited(),
    {
        let owner = join(path, adt.name.as_str());
        let ghost kept = self.types@;
        self.types.insert(adt.id, owner.clone());
        assert(paths_of(self.types@) =~= paths_of(kept).insert(adt.id, owner@));
        match adt.kind {
            AdtKind::Struct => {
                let ghost before = self.structs@;
                self.structs.insert(adt.id, String::from_str(path));
                assert(paths_of(self.structs@) =~= paths_of(before).insert(adt.id, path@));
                record(&mut self.members, &adt.members, owner.as_str());
            },
            AdtKind::Union => {
                record(&mut self.members, &adt.members, owner.as_str());
            },
            AdtKind::Enum => {
                record(&mut self.variants, &adt.members, owner.as_str());
            },
        }
    }

    /// Records the functions of one impl block.
    fn load_impl(&mut self, block: &Impl)
        ensures
            final(self).tables() == with_impl(old(self).tables(), *block),
            final(self).visited() == old(self).visited(),
    {
        match block.target {
            Some(id) => {
                if !block.of_trait {
                    let owner: Option<String> = match self.types.get(&id) {
                        Some(path) => Some(path.clone()),
                        None => None,
                    };
                    match owner {
                        Some(path) => {
                            record(&mut self.methods, &block.methods, path.as_str());
                        },
                        None => {},
                    }
                }
            },
            None => {},
        }
    }

    /// Records the types that a module and the named modules below it declare.
    fn load_types(&mut self, module: &Module, path: &str)
        ensures
            final(self).tables() == with_types(old(self).tables(), *module, path@),
            final(self).visited() == old(self).visited(),
        decreases module,
    {
        let mut i: usize = 0;
        assert(module.declarations@.take(0).len() == 0);
        while i < module.declarations.len()
            invariant
                i <= module.declarations.len(),
                self.visited() == old(self).visited(),
                self.tables() == with_adts(
                    old(self).tables(),
                    module.declarations@.take(i as int),
                    path@,
                ),
            decreases module.declarations.len() - i,
        {
            assert(module.declarations@.take(i + 1).drop_last() == module.declarations@.take(
                i as int,
            ));
            self.load_adt(&module.declarations[i], path);
            i += 1;
        }
        assert(module.declarations@.take(i as int) == module.declarations@);
        let ghost flat = self.tables();
        let mut k: usize = 0;
        while k < module.children.len()
            invariant
                k <= module.children.len(),
                self.visited() == old(self).visited(),
                self.tables() == with_child_types(flat, *module, k as nat, path@),
            decreases module.children.len() - k,
        {
            let child = &module.children[k];
            match &child.name {
                Some(name) => {
                    let below = join(path, name.as_str());
                    self.load_types(child, below.as_str());
                },
                None => {},
            }
            k += 1;
        }
    }

    /// Records the methods of the impl blocks in a module and in the named modules below it.
    fn load_methods(&mut self, module: &Module)
        ensures
            final(self).tables() == with_methods(old(self).tables(), *module),
            final(self).visited() == old(self).visited(),
        decreases module,
    {
        let mut j: usize = 0;
        assert(module.impls@.take(0).len() == 0);
        while j < module.impls.len()
            invariant
                j <= module.impls.len(),
                self.visited() == old(self).visited(),
                self.tables() == with_impls(old(self).tables(), module.impls@.take(j as int)),
            decreases module.impls.len() - j,
        {
            assert(module.impls@.take(j + 1).drop_last() == module.impls@.take(j as int));
            self.load_impl(&module.impls[j]);
            j += 1;
        }
        assert(module.impls@.take(j as int) == module.impls@);
        let ghost flat = self.tables();
        let mut k: usize = 0;
        while k < module.children.len()
            invariant
                k <= module.children.len(),
                self.visited() == old(self).visited(),
                self.tables() == with_child_methods(flat, *module, k as nat),
            decreases module.children.len() - k,
        {
            let child = &module.children[k];
            if child.name.is_some() {
                self.load_methods(child);
            }
            k += 1;
        }
    }

    /// Records what a module and the named modules below it declare: the types of them
    /// all first, so that a method finds its type wherever the impl block stands.
    fn load_module(&mut self, module: &Module, path: &str)
        ensures
            final(self).tables() == with_module(old(self).tables(), *module, path@),
            final(self).visited() == old(self).visited(),
    {
        self.load_types(module, path);
        self.load_methods(module);
    }
}

} // verus!
