//! The dispatcher: what the rules of a milestone do at a node, and over a whole tree.

use crate::preloader::{owner_of, Preloader, Tables};
use crate::upgrader::{Edit, Indel, TextRange, Upgrader};
use crate::utils::same_text;
use crate::version::{Action, ActionView, GatedHook, Hook, Rule, Version, rules_of};
use crate::visitor::{Decl, NameOrNameRef, Node, NodeKind, SyntaxTree};
use vstd::prelude::*;
use vstd::utf8::encode_utf8;

verus! {

/// One thing to do for a node: make an edit, or run a hook of the caller's.
#[derive(Clone, Debug)]
pub enum Step {
    Edit(Edit),
    Call(usize),
}

/// A step in contracts.
pub enum StepView {
    Edit(Indel),
    Call(usize),
}

impl View for Step {
    type V = StepView;

    open spec fn view(&self) -> StepView {
        match *self {
            Step::Edit(e) => StepView::Edit(e@),
            Step::Call(id) => StepView::Call(id),
        }
    }
}

/// The steps of a vector, each by its view.
pub open spec fn steps_of(steps: Seq<Step>) -> Seq<StepView> {
    steps.map_values(|s: Step| s@)
}

/// The step that puts `text` in the place of `range`.
pub open spec fn edit_step(range: TextRange, text: Seq<char>) -> StepView {
    StepView::Edit(
        Indel { start: range.start as int, end: range.end as int, insert: encode_utf8(text) },
    )
}

/// A field written out: its name, a colon and what stood there.
pub open spec fn written_out(name: Seq<char>, value: Seq<char>) -> Seq<char> {
    name + seq![':', ' '] + value
}

/// What an action does at a node. A rename replaces the span of the node's identifier
/// and nothing else; a replacement replaces the span of the whole node. A field in shorthand is written out instead: where a record is
/// built, the old name stays as the value; where one is matched, the whole field stays
/// as the binding.
pub open spec fn action_steps(action: ActionView, node: Node) -> Seq<StepView> {
    match action {
        ActionView::Call(id) => seq![StepView::Call(id)],
        ActionView::Replace(text) => seq![edit_step(node.range, text)],
        ActionView::Rename(to) => match node.name {
            Some(n) => seq![edit_step(n.range(), to)],
            None => Seq::empty(),
        },
        ActionView::RenameField(from, to) => match node.name {
            Some(n) => if node.kind == NodeKind::RecordExprField && node.shorthand {
                seq![edit_step(n.range(), written_out(to, from))]
            } else if node.kind == NodeKind::RecordPatField && n is Name {
                seq![edit_step(node.range, written_out(to, node.text@))]
            } else {
                seq![edit_step(n.range(), to)]
            },
            None => Seq::empty(),
        },
    }
}

/// The rule is for nodes of this category with this identifier and this owner.
pub open spec fn rule_applies(rule: Rule, kind: NodeKind, owner: Seq<char>, name: Seq<char>) -> bool {
    rule.kind == kind && rule.path == owner && rule.name == name
}

/// What the gated rules do at a node whose identifier is `name` and whose declaration is
/// owned by `owner`: the actions of the rules that apply, in the order of registration.
pub open spec fn gated_steps(rules: Seq<Rule>, owner: Seq<char>, name: Seq<char>, node: Node) -> Seq<
    StepView,
>
    decreases rules.len(),
{
    if rules.len() == 0 {
        Seq::empty()
    } else {
        gated_steps(rules.drop_last(), owner, name, node) + if rule_applies(
            rules.last(),
            node.kind,
            owner,
            name,
        ) {
            action_steps(rules.last().action, node)
        } else {
            Seq::empty()
        }
    }
}

/// Some rule for this category of node speaks of this identifier, whatever its owner.
pub open spec fn mentioned(rules: Seq<Rule>, kind: NodeKind, name: Seq<char>) -> bool {
    exists|i: int| 0 <= i < rules.len() && (#[trigger] rules[i]).kind == kind && rules[i].name == name
}

/// The kind of declaration that a node of a category can stand for: a call names a
/// method, a path in an expression a method or a variant, a pattern a variant, a field
/// a field, a bare path a struct.
pub open spec fn serves(kind: NodeKind, decl: Decl) -> bool {
    match kind {
        NodeKind::MethodCallExpr => decl is Method,
        NodeKind::Path => decl is Struct,
        NodeKind::PathExpr => decl is Method || decl is Variant,
        NodeKind::IdentPat | NodeKind::PathPat | NodeKind::RecordPat | NodeKind::RecordExpr
        | NodeKind::TupleStructPat => decl is Variant,
        NodeKind::FieldExpr | NodeKind::RecordExprField | NodeKind::RecordPatField => decl is Field,
        NodeKind::CallExpr | NodeKind::Other => false,
    }
}

/// The owner of what the node names: known where the frontend resolved the node to a
/// declaration of a kind that its category can stand for, and the tables hold it.
pub open spec fn resolved_owner(tables: Tables, node: Node) -> Option<Seq<char>> {
    match node.target {
        Some(decl) => if serves(node.kind, decl) {
            owner_of(tables, decl)
        } else {
            None
        },
        None => None,
    }
}

/// What the gated rules do at a node: nothing unless the node has an identifier and an
/// owner is known for what it names.
pub open spec fn fired(rules: Seq<Rule>, tables: Tables, node: Node) -> Seq<StepView> {
    match (node.local_name(), resolved_owner(tables, node)) {
        (Some(name), Some(owner)) => gated_steps(rules, owner, name, node),
        _ => Seq::empty(),
    }
}

/// The hooks of the caller's that run at every node of a category, in the order of
/// registration.
pub open spec fn unconditional_steps(hooks: Seq<Hook>, kind: NodeKind) -> Seq<StepView>
    decreases hooks.len(),
{
    if hooks.len() == 0 {
        Seq::empty()
    } else {
        unconditional_steps(hooks.drop_last(), kind) + if hooks.last().kind == kind {
            seq![StepView::Call(hooks.last().id)]
        } else {
            Seq::empty()
        }
    }
}

/// All that a milestone's rules do at one node: first the hooks for every node of its
/// category, then the gated rules.
pub open spec fn node_steps(version: Version, tables: Tables, node: Node) -> Seq<StepView> {
    unconditional_steps(version.hooks(), node.kind) + fired(version.rules(), tables, node)
}

/// All that a milestone's rules do over a tree: at the node, then below it, child by child.
pub open spec fn tree_steps(version: Version, tables: Tables, tree: SyntaxTree) -> Seq<StepView>
    decreases tree, tree.children@.len() + 1,
{
    node_steps(version, tables, tree.node) + forest_steps(
        version,
        tables,
        tree,
        tree.children@.len(),
    )
}

/// All that a milestone's rules do over the first `n` children of a tree.
pub open spec fn forest_steps(version: Version, tables: Tables, tree: SyntaxTree, n: nat) -> Seq<
    StepView,
>
    decreases tree, n,
{
    if n == 0 || n > tree.children@.len() {
        Seq::empty()
    } else {
        forest_steps(version, tables, tree, (n - 1) as nat) + tree_steps(
            version,
            tables,
            tree.children@[n - 1],
        )
    }
}

/// Rules that do not speak of an identifier do nothing at a node that bears it.
pub proof fn unmentioned_fires_nothing(rules: Seq<Rule>, owner: Seq<char>, name: Seq<char>, node: Node)
    requires
        !mentioned(rules, node.kind, name),
    ensures
        gated_steps(rules, owner, name, node) == Seq::<StepView>::empty(),
    decreases rules.len(),
{
    if rules.len() > 0 {
        let front = rules.drop_last();
        assert forall|i: int| 0 <= i < front.len() implies !((#[trigger] front[i]).kind == node.kind
            && front[i].name == name) by {
            assert(front[i] == rules[i]);
        }
        unmentioned_fires_nothing(front, owner, name, node);
        assert(!(rules[rules.len() - 1].kind == node.kind && rules[rules.len() - 1].name == name));
    }
}

/// Whether some rule for this category of node speaks of this identifier: the cheap test
/// that saves resolving a node.
pub fn mentions(rules: &Vec<GatedHook>, kind: NodeKind, name: &str) -> (r: bool)
    ensures
        r == mentioned(rules_of(rules@), kind, name@),
{
    let mut i: usize = 0;
    while i < rules.len()
        invariant
            i <= rules.len(),
            forall|k: int|
                0 <= k < i ==> !((#[trigger] rules_of(rules@)[k]).kind == kind && rules_of(
                    rules@,
                )[k].name == name@),
        decreases rules.len() - i,
    {
        if rules[i].kind == kind && same_text(rules[i].name.as_str(), name) {
            assert(rules_of(rules@)[i as int] == rules@[i as int]@);
            return true;
        }
        assert(rules_of(rules@)[i as int] == rules@[i as int]@);
        i += 1;
    }
    false
}

/// The text of a field written out.
fn write_out(name: &str, value: &str) -> (r: String)
    ensures
        r@ == written_out(name@, value@),
{
    proof {
        reveal_strlit(": ");
    }
    let r = String::from_str(name).concat(": ").concat(value);
    assert(": "@ =~= seq![':', ' ']);
    r
}

/// Adds to `out` what an action does at a node.
fn perform(action: &Action, node: &Node, out: &mut Vec<Step>)
    ensures
        steps_of(final(out)@) == steps_of(old(out)@) + action_steps(action@, *node),
{
    let ghost before = steps_of(out@);
    match action {
        Action::Call(id) => {
            out.push(Step::Call(*id));
        },
        Action::Replace(text) => {
            out.push(Step::Edit(Edit { range: node.range, insert: text.clone() }));
        },
        Action::Rename(to) => {
            match &node.name {
                Some(NameOrNameRef::Name(n)) => {
                    out.push(Step::Edit(Edit { range: n.range, insert: to.clone() }));
                },
                Some(NameOrNameRef::NameRef(n)) => {
                    out.push(Step::Edit(Edit { range: n.range, insert: to.clone() }));
                },
                None => {},
            }
        },
        Action::RenameField(from, to) => {
            match &node.name {
                Some(NameOrNameRef::Name(n)) => {
                    if node.kind == NodeKind::RecordExprField && node.shorthand {
                        let text = write_out(to.as_str(), from.as_str());
                        out.push(Step::Edit(Edit { range: n.range, insert: text }));
                    } else if node.kind == NodeKind::RecordPatField {
                        let text = write_out(to.as_str(), node.text.as_str());
                        out.push(Step::Edit(Edit { range: node.range, insert: text }));
                    } else {
                        out.push(Step::Edit(Edit { range: n.range, insert: to.clone() }));
                    }
                },
                Some(NameOrNameRef::NameRef(n)) => {
                    if node.kind == NodeKind::RecordExprField && node.shorthand {
                        let text = write_out(to.as_str(), from.as_str());
                        out.push(Step::Edit(Edit { range: n.range, insert: text }));
                    } else {
                        out.push(Step::Edit(Edit { range: n.range, insert: to.clone() }));
                    }
                },
                None => {},
            }
        },
    }
    assert(steps_of(out@) =~= before + action_steps(action@, *node));
}

/// The steps of the gated rules at a node. A node whose identifier no rule speaks of is
/// passed over before anything is looked up.
pub fn run_hooks(rules: &Vec<GatedHook>, preloader: &Preloader, node: &Node) -> (steps: Vec<Step>)
    ensures
        steps_of(steps@) == fired(rules_of(rules@), preloader.tables(), *node),
{
    let mut steps: Vec<Step> = Vec::new();
    assert(steps_of(steps@) =~= Seq::<StepView>::empty());
    let name: &str = match &node.name {
        Some(NameOrNameRef::Name(n)) => n.text.as_str(),
        Some(NameOrNameRef::NameRef(n)) => n.text.as_str(),
        None => {
            return steps;
        },
    };
    assert(node.local_name() == Some(name@));
    if !mentions(rules, node.kind, name) {
        proof {
            if let Some(owner) = resolved_owner(preloader.tables(), *node) {
                unmentioned_fires_nothing(rules_of(rules@), owner, name@, *node);
            }
        }
        return steps;
    }
    let decl: Decl = match node.target {
        Some(d) => d,
        None => {
            return steps;
        },
    };
    let served: bool = match node.kind {
        NodeKind::MethodCallExpr => matches!(decl, Decl::Method(_)),
        NodeKind::Path => matches!(decl, Decl::Struct(_)),
        NodeKind::PathExpr => matches!(decl, Decl::Method(_)) || matches!(decl, Decl::Variant(_)),
        NodeKind::IdentPat | NodeKind::PathPat | NodeKind::RecordPat | NodeKind::RecordExpr
        | NodeKind::TupleStructPat => matches!(decl, Decl::Variant(_)),
        NodeKind::FieldExpr | NodeKind::RecordExprField | NodeKind::RecordPatField => matches!(
            decl,
            Decl::Field(_)
        ),
        NodeKind::CallExpr | NodeKind::Other => false,
    };
    assert(served == serves(node.kind, decl));
    if !served {
        return steps;
    }
    let owner: &str = match preloader.owner(decl) {
        Some(path) => path.as_str(),
        None => {
            return steps;
        },
    };
    assert(resolved_owner(preloader.tables(), *node) == Some(owner@));
    let mut i: usize = 0;
    assert(rules_of(rules@).take(0).len() == 0);
    while i < rules.len()
        invariant
            i <= rules.len(),
            steps_of(steps@) == gated_steps(rules_of(rules@).take(i as int), owner@, name@, *node),
        decreases rules.len() - i,
    {
        let rule = &rules[i];
        proof {
            let r = rules_of(rules@);
            assert(r.take(i + 1).drop_last() == r.take(i as int));
            assert(r.take(i + 1).last() == rule@);
        }
        if rule.kind == node.kind && same_text(rule.path.as_str(), owner) && same_text(
            rule.name.as_str(),
            name,
        ) {
            perform(&rule.action, node, &mut steps);
        } else {
            assert(steps_of(steps@) + Seq::<StepView>::empty() =~= steps_of(steps@));
        }
        i += 1;
    }
    assert(rules_of(rules@).take(i as int) == rules_of(rules@));
    steps
}

/// The steps of a milestone's rules at one node.
pub fn dispatch(version: &Version, preloader: &Preloader, node: &Node) -> (steps: Vec<Step>)
    ensures
        steps_of(steps@) == node_steps(*version, preloader.tables(), *node),
{
    let hooks = version.hook_list();
    let mut steps: Vec<Step> = Vec::new();
    let mut i: usize = 0;
    assert(hooks@.take(0).len() == 0);
    assert(steps_of(steps@) =~= Seq::<StepView>::empty());
    while i < hooks.len()
        invariant
            i <= hooks.len(),
            hooks@ == version.hooks(),
            steps_of(steps@) == unconditional_steps(hooks@.take(i as int), node.kind),
        decreases hooks.len() - i,
    {
        let ghost before = steps_of(steps@);
        assert(hooks@.take(i + 1).drop_last() == hooks@.take(i as int));
        if hooks[i].kind == node.kind {
            steps.push(Step::Call(hooks[i].id));
            assert(steps_of(steps@) =~= before + seq![StepView::Call(hooks@[i as int].id)]);
        } else {
            assert(before + Seq::<StepView>::empty() =~= before);
        }
        i += 1;
    }
    assert(hooks@.take(i as int) == hooks@);
    let mut gated = run_hooks(version.rule_list(), preloader, node);
    let ghost first = steps_of(steps@);
    let ghost second = steps_of(gated@);
    steps.append(&mut gated);
    assert(steps_of(steps@) =~= first + second);
    steps
}

/// The steps of a milestone's rules over a tree: the node first, then its children in
/// their order, each with all below it.
pub fn walk(version: &Version, preloader: &Preloader, tree: &SyntaxTree) -> (steps: Vec<Step>)
    ensures
        steps_of(steps@) == tree_steps(*version, preloader.tables(), *tree),
    decreases tree,
{
    let mut steps = dispatch(version, preloader, &tree.node);
    let ghost own = steps_of(steps@);
    let mut i: usize = 0;
    assert(own + Seq::<StepView>::empty() =~= own);
    while i < tree.children.len()
        invariant
            i <= tree.children.len(),
            own == node_steps(*version, preloader.tables(), tree.node),
            steps_of(steps@) == own + forest_steps(*version, preloader.tables(), *tree, i as nat),
        decreases tree.children.len() - i,
    {
        let mut below = walk(version, preloader, &tree.children[i]);
        let ghost first = steps_of(steps@);
        let ghost second = steps_of(below@);
        steps.append(&mut below);
        assert(steps_of(steps@) =~= first + second);
        assert(first + second =~= own + forest_steps(
            *version,
            preloader.tables(),
            *tree,
            (i + 1) as nat,
        ));
        i += 1;
    }
    steps
}

/// The edits among the steps, in their order.
pub open spec fn edits_in(steps: Seq<StepView>) -> Seq<Indel>
    decreases steps.len(),
{
    if steps.len() == 0 {
        Seq::empty()
    } else {
        edits_in(steps.drop_last()) + match steps.last() {
            StepView::Edit(e) => seq![e],
            StepView::Call(_) => Seq::empty(),
        }
    }
}

/// The hooks among the steps that the caller is to run, in their order.
pub open spec fn calls_in(steps: Seq<StepView>) -> Seq<usize>
    decreases steps.len(),
{
    if steps.len() == 0 {
        Seq::empty()
    } else {
        calls_in(steps.drop_last()) + match steps.last() {
            StepView::Edit(_) => Seq::empty(),
            StepView::Call(id) => seq![id],
        }
    }
}

/// Hands the edits among the steps to the editor and returns the hooks that are left
/// for the caller to run.
pub fn record(upgrader: &mut Upgrader, steps: &Vec<Step>) -> (calls: Vec<usize>)
    ensures
        final(upgrader)@ == old(upgrader)@ + edits_in(steps_of(steps@)),
        calls@ == calls_in(steps_of(steps@)),
{
    let mut calls: Vec<usize> = Vec::new();
    let mut i: usize = 0;
    let ghost all = steps_of(steps@);
    assert(all.take(0).len() == 0);
    assert(upgrader@ + Seq::<Indel>::empty() =~= upgrader@);
    while i < steps.len()
        invariant
            i <= steps.len(),
            all == steps_of(steps@),
            upgrader@ == old(upgrader)@ + edits_in(all.take(i as int)),
            calls@ == calls_in(all.take(i as int)),
        decreases steps.len() - i,
    {
        assert(all.take(i + 1).drop_last() == all.take(i as int));
        assert(all.take(i + 1).last() == steps@[i as int]@);
        match &steps[i] {
            Step::Edit(e) => {
                upgrader.push(Edit { range: e.range, insert: e.insert.clone() });
                assert(upgrader@ =~= old(upgrader)@ + edits_in(all.take(i + 1)));
                assert(calls@ =~= calls_in(all.take(i + 1)));
            },
            Step::Call(id) => {
                calls.push(*id);
                assert(upgrader@ =~= old(upgrader)@ + edits_in(all.take(i + 1)));
                assert(calls@ =~= calls_in(all.take(i + 1)));
            },
        }
        i += 1;
    }
    assert(all.take(i as int) == all);
    calls
}

} // verus!
