//! The rules of one upgrade milestone: which identifiers, declared where, get which new name.

use crate::semantic::{semver_parse, SemverVersion, SemverView};
use crate::utils::{normalize, normalized};
use crate::visitor::NodeKind;
use vstd::prelude::*;

verus! {

/// What a rule does at a node that it matches.
#[derive(Clone, Debug)]
pub enum Action {
    /// The node's identifier gets this text.
    Rename(String),
    /// The field named by the first text gets the second as its name; a field written in
    /// shorthand is written out, so that what it binds keeps its name.
    RenameField(String, String),
    /// The whole node gets this text.
    Replace(String),
    /// The caller runs its own hook of this number.
    Call(usize),
}

/// An action in contracts.
pub enum ActionView {
    Rename(Seq<char>),
    RenameField(Seq<char>, Seq<char>),
    Replace(Seq<char>),
    Call(usize),
}

impl View for Action {
    type V = ActionView;

    open spec fn view(&self) -> ActionView {
        match *self {
            Action::Rename(to) => ActionView::Rename(to@),
            Action::RenameField(from, to) => ActionView::RenameField(from@, to@),
            Action::Replace(text) => ActionView::Replace(text@),
            Action::Call(id) => ActionView::Call(id),
        }
    }
}

/// A hook that runs at every node of one category.
#[derive(Clone, Copy, Debug, PartialEq, Eq, Structural)]
pub struct Hook {
    pub kind: NodeKind,
    pub id: usize,
}

/// A rule that holds only for nodes of one category whose identifier is `name` and names
/// a declaration owned by `path`.
#[derive(Clone, Debug)]
pub struct GatedHook {
    pub kind: NodeKind,
    pub path: String,
    pub name: String,
    pub action: Action,
}

/// A gated rule in contracts.
pub struct Rule {
    pub kind: NodeKind,
    pub path: Seq<char>,
    pub name: Seq<char>,
    pub action: ActionView,
}

impl View for GatedHook {
    type V = Rule;

    open spec fn view(&self) -> Rule {
        Rule { kind: self.kind, path: self.path@, name: self.name@, action: self.action@ }
    }
}

/// The rules of a vector, each by its view.
pub open spec fn rules_of(hooks: Seq<GatedHook>) -> Seq<Rule> {
    hooks.map_values(|h: GatedHook| h@)
}

/// The texts of a vector of strings.
pub open spec fn texts_of(names: Seq<String>) -> Seq<Seq<char>> {
    names.map_values(|s: String| s@)
}

/// What can be renamed.
#[derive(Clone, Copy, Debug, PartialEq, Eq, Structural)]
pub enum Category {
    Struct,
    Method,
    Member,
    Variant,
}

/// The rule of one category of node that gives `old`, owned by `path`, the name `new`.
pub open spec fn rename_rule(kind: NodeKind, path: Seq<char>, old: Seq<char>, new: Seq<char>) -> Rule {
    Rule { kind, path, name: old, action: ActionView::Rename(new) }
}

/// The rules that rename one identifier: one for every syntactic form in which an
/// identifier of that category occurs.
pub open spec fn rename_rules(category: Category, path: Seq<char>, old: Seq<char>, new: Seq<char>) -> Seq<
    Rule,
> {
    match category {
        Category::Struct => seq![rename_rule(NodeKind::Path, path, old, new)],
        Category::Method => seq![
            rename_rule(NodeKind::MethodCallExpr, path, old, new),
            rename_rule(NodeKind::PathExpr, path, old, new),
        ],
        Category::Member => seq![
            rename_rule(NodeKind::FieldExpr, path, old, new),
            Rule {
                kind: NodeKind::RecordPatField,
                path,
                name: old,
                action: ActionView::RenameField(old, new),
            },
            Rule {
                kind: NodeKind::RecordExprField,
                path,
                name: old,
                action: ActionView::RenameField(old, new),
            },
        ],
        Category::Variant => seq![
            rename_rule(NodeKind::PathExpr, path, old, new),
            rename_rule(NodeKind::PathPat, path, old, new),
            rename_rule(NodeKind::RecordPat, path, old, new),
            rename_rule(NodeKind::RecordExpr, path, old, new),
            rename_rule(NodeKind::TupleStructPat, path, old, new),
            rename_rule(NodeKind::IdentPat, path, old, new),
        ],
    }
}

/// The pairs of old and new name of a table.
pub open spec fn pairs_of(map: Seq<[&str; 2]>) -> Seq<(Seq<char>, Seq<char>)> {
    map.map_values(|p: [&str; 2]| (p@[0]@, p@[1]@))
}

/// The rules that a table of renames stands for, pair by pair.
pub open spec fn table_rules(category: Category, path: Seq<char>, pairs: Seq<(Seq<char>, Seq<char>)>) -> Seq<
    Rule,
>
    decreases pairs.len(),
{
    if pairs.len() == 0 {
        Seq::empty()
    } else {
        table_rules(category, path, pairs.drop_last()) + rename_rules(
            category,
            path,
            pairs.last().0,
            pairs.last().1,
        )
    }
}

/// One upgrade milestone: the version upgraded to, and what changes on the way there.
#[derive(Debug)]
pub struct Version {
    version: SemverVersion,
    peers: Vec<String>,
    init: Option<usize>,
    hooks: Vec<Hook>,
    hooks_on: Vec<GatedHook>,
}

impl Version {
    /// The version upgraded to.
    pub closed spec fn target(self) -> SemverView {
        self.version@
    }

    /// The other packages whose declarations the rules speak of, by normalized name.
    pub closed spec fn peer_names(self) -> Seq<Seq<char>> {
        texts_of(self.peers@)
    }

    /// The hook that runs before the walk, where there is one.
    pub closed spec fn init_hook(self) -> Option<usize> {
        self.init
    }

    /// The hooks that run at every node of their category, in the order of registration.
    pub closed spec fn hooks(self) -> Seq<Hook> {
        self.hooks@
    }

    /// The gated rules, in the order of registration.
    pub closed spec fn rules(self) -> Seq<Rule> {
        rules_of(self.hooks_on@)
    }

    /// All but the gated rules is the same in both.
    pub open spec fn same_but_rules(self, other: Version) -> bool {
        &&& self.target() == other.target()
        &&& self.peer_names() == other.peer_names()
        &&& self.init_hook() == other.init_hook()
        &&& self.hooks() == other.hooks()
    }

    /// A milestone for the version that `version` spells, with no rules yet.
    pub fn new(version: &str) -> (r: Result<Version, semver::Error>)
        ensures
            match r {
                Ok(v) => {
                    &&& semver_parse(version@) == Some(v.target())
                    &&& v.peer_names().len() == 0
                    &&& v.init_hook() is None
                    &&& v.hooks().len() == 0
                    &&& v.rules().len() == 0
                },
                Err(_) => semver_parse(version@) is None,
            },
    {
        match SemverVersion::parse(version) {
            Ok(v) => Ok(
                Version {
                    version: v,
                    peers: Vec::new(),
                    init: None,
                    hooks: Vec::new(),
                    hooks_on: Vec::new(),
                },
            ),
            Err(e) => Err(e),
        }
    }

    /// Names the other packages whose declarations the rules speak of. The names are
    /// normalized; an earlier list is replaced.
    pub fn peers(self, peers: &[&str]) -> (r: Version)
        ensures
            r.peer_names() == peers@.map_values(|p: &str| normalized(p@)),
            r.target() == self.target(),
            r.init_hook() == self.init_hook(),
            r.hooks() == self.hooks(),
            r.rules() == self.rules(),
    {
        let mut names: Vec<String> = Vec::new();
        let mut i: usize = 0;
        while i < peers.len()
            invariant
                i <= peers.len(),
                names@.len() == i,
                texts_of(names@) == peers@.take(i as int).map_values(|p: &str| normalized(p@)),
            decreases peers.len() - i,
        {
            let ghost before = names@;
            names.push(normalize(peers[i]));
            proof {
                let want = peers@.take(i + 1).map_values(|p: &str| normalized(p@));
                assert forall|k: int| 0 <= k < want.len() implies texts_of(names@)[k] == want[k] by {
                    if k < i {
                        assert(texts_of(before)[k] == before[k]@);
                        assert(peers@.take(i as int)[k] == peers@[k]);
                    }
                }
                assert(texts_of(names@) =~= want);
            }
            i += 1;
        }
        assert(peers@.take(i as int) == peers@);
        let mut v = self;
        v.peers = names;
        v
    }

    /// Sets the hook that runs before the walk; the caller runs it, by its number.
    pub fn init(self, id: usize) -> (r: Version)
        ensures
            r.init_hook() == Some(id),
            r.target() == self.target(),
            r.peer_names() == self.peer_names(),
            r.hooks() == self.hooks(),
            r.rules() == self.rules(),
    {
        let mut v = self;
        v.init = Some(id);
        v
    }

    /// Registers a hook of the caller's for every node of one category.
    pub fn hook(self, kind: NodeKind, id: usize) -> (r: Version)
        ensures
            r.hooks() == self.hooks().push(Hook { kind, id }),
            r.target() == self.target(),
            r.peer_names() == self.peer_names(),
            r.init_hook() == self.init_hook(),
            r.rules() == self.rules(),
    {
        let mut v = self;
        v.hooks.push(Hook { kind, id });
        v
    }

    /// Registers one gated rule behind those already there.
    pub fn rule(self, kind: NodeKind, path: &str, name: &str, action: Action) -> (r: Version)
        ensures
            r.rules() == self.rules().push(Rule { kind, path: path@, name: name@, action: action@ }),
            r.same_but_rules(self),
    {
        let mut v = self;
        v.hooks_on.push(
            GatedHook { kind, path: String::from_str(path), name: String::from_str(name), action },
        );
        assert(v.rules() =~= self.rules().push(
            Rule { kind, path: path@, name: name@, action: action@ },
        ));
        v
    }

    /// Registers a hook of the caller's for the nodes of one category whose identifier is
    /// `name` and names a declaration owned by `path`.
    pub fn hook_on(self, kind: NodeKind, path: &str, name: &str, id: usize) -> (r: Version)
        ensures
            r.rules() == self.rules().push(
                Rule { kind, path: path@, name: name@, action: ActionView::Call(id) },
            ),
            r.same_but_rules(self),
    {
        self.rule(kind, path, name, Action::Call(id))
    }

    /// Registers a hook of the caller's for calls of the method `name` of the type `path`.
    pub fn hook_method_call_expr_on(self, path: &str, name: &str, id: usize) -> (r: Version)
        ensures
            r.rules() == self.rules().push(
                Rule {
                    kind: NodeKind::MethodCallExpr,
                    path: path@,
                    name: name@,
                    action: ActionView::Call(id),
                },
            ),
            r.same_but_rules(self),
    {
        self.hook_on(NodeKind::MethodCallExpr, path, name, id)
    }

    /// Registers the rules that rename one identifier of a category.
    fn rename_one(self, category: Category, path: &str, old: &str, new: &str) -> (r: Version)
        ensures
            r.rules() == self.rules() + rename_rules(category, path@, old@, new@),
            r.same_but_rules(self),
    {
        let v = match category {
            Category::Struct => self.rule(NodeKind::Path, path, old, Action::Rename(String::from_str(new))),
            Category::Method => self.rule(
                NodeKind::MethodCallExpr,
                path,
                old,
                Action::Rename(String::from_str(new)),
            ).rule(NodeKind::PathExpr, path, old, Action::Rename(String::from_str(new))),
            Category::Member => self.rule(
                NodeKind::FieldExpr,
                path,
                old,
                Action::Rename(String::from_str(new)),
            ).rule(
                NodeKind::RecordPatField,
                path,
                old,
                Action::RenameField(String::from_str(old), String::from_str(new)),
            ).rule(
                NodeKind::RecordExprField,
                path,
                old,
                Action::RenameField(String::from_str(old), String::from_str(new)),
            ),
            Category::Variant => self.rule(
                NodeKind::PathExpr,
                path,
                old,
                Action::Rename(String::from_str(new)),
            ).rule(NodeKind::PathPat, path, old, Action::Rename(String::from_str(new))).rule(
                NodeKind::RecordPat,
                path,
                old,
                Action::Rename(String::from_str(new)),
            ).rule(NodeKind::RecordExpr, path, old, Action::Rename(String::from_str(new))).rule(
                NodeKind::TupleStructPat,
                path,
                old,
                Action::Rename(String::from_str(new)),
            ).rule(NodeKind::IdentPat, path, old, Action::Rename(String::from_str(new))),
        };
        assert(v.rules() =~= self.rules() + rename_rules(category, path@, old@, new@));
        v
    }

    /// Registers the rules of a table of renames of one category.
    pub fn rename(self, category: Category, name: &str, map: &[[&str; 2]]) -> (r: Version)
        ensures
            r.rules() == self.rules() + table_rules(category, name@, pairs_of(map@)),
            r.same_but_rules(self),
    {
        let ghost before = self;
        let mut v = self;
        let mut i: usize = 0;
        assert(v.rules() =~= before.rules() + table_rules(
            category,
            name@,
            pairs_of(map@).take(0),
        ));
        while i < map.len()
            invariant
                i <= map.len(),
                v.rules() == before.rules() + table_rules(
                    category,
                    name@,
                    pairs_of(map@).take(i as int),
                ),
                v.same_but_rules(before),
            decreases map.len() - i,
        {
            let pair: [&str; 2] = map[i];
            let ghost pairs = pairs_of(map@);
            assert(pairs.take(i + 1).drop_last() == pairs.take(i as int));
            assert(pairs.take(i + 1).last() == (pair@[0]@, pair@[1]@));
            v = v.rename_one(category, name, pair[0], pair[1]);
            assert(v.rules() =~= before.rules() + table_rules(category, name@, pairs.take(i + 1)));
            i += 1;
        }
        assert(pairs_of(map@).take(i as int) == pairs_of(map@));
        v
    }

    /// Renames structs declared in the module `name`: each pair is an old and a new name.
    pub fn rename_structs(self, name: &str, map: &[[&str; 2]]) -> (r: Version)
        ensures
            r.rules() == self.rules() + table_rules(Category::Struct, name@, pairs_of(map@)),
            r.same_but_rules(self),
    {
        self.rename(Category::Struct, name, map)
    }

    /// Renames methods of the type `name`, in calls on a value and in calls by path.
    pub fn rename_methods(self, name: &str, map: &[[&str; 2]]) -> (r: Version)
        ensures
            r.rules() == self.rules() + table_rules(Category::Method, name@, pairs_of(map@)),
            r.same_but_rules(self),
    {
        self.rename(Category::Method, name, map)
    }

    /// Renames fields of the type `name`, where they are read, built and matched.
    pub fn rename_members(self, name: &str, map: &[[&str; 2]]) -> (r: Version)
        ensures
            r.rules() == self.rules() + table_rules(Category::Member, name@, pairs_of(map@)),
            r.same_but_rules(self),
    {
        self.rename(Category::Member, name, map)
    }

    /// Renames variants of the enum `name`, in each of the six forms in which one occurs.
    pub fn rename_variants(self, name: &str, map: &[[&str; 2]]) -> (r: Version)
        ensures
            r.rules() == self.rules() + table_rules(Category::Variant, name@, pairs_of(map@)),
            r.same_but_rules(self),
    {
        self.rename(Category::Variant, name, map)
    }

    /// The version upgraded to.
    pub fn version(&self) -> (v: &SemverVersion)
        ensures
            v@ == self.target(),
    {
        &self.version
    }

    /// The peers named, normalized.
    pub fn peer_list(&self) -> (p: &Vec<String>)
        ensures
            texts_of(p@) == self.peer_names(),
    {
        &self.peers
    }

    /// The hook that runs before the walk, where one was set.
    pub fn init_id(&self) -> (id: Option<usize>)
        ensures
            id == self.init_hook(),
    {
        self.init
    }

    /// The hooks that run at every node of their category.
    pub fn hook_list(&self) -> (h: &Vec<Hook>)
        ensures
            h@ == self.hooks(),
    {
        &self.hooks
    }

    /// The gated rules.
    pub fn rule_list(&self) -> (h: &Vec<GatedHook>)
        ensures
            rules_of(h@) == self.rules(),
    {
        &self.hooks_on
    }
}

} // verus!
