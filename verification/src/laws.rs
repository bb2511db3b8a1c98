//! What holds of the rules and of the patches, whatever the source they are used on.

use crate::dispatch::{
    action_steps, edit_step, fired, forest_steps, gated_steps, mentioned, node_steps, resolved_owner,
    rule_applies, tree_steps, unconditional_steps, unmentioned_fires_nothing, written_out,
    StepView,
};
use crate::preloader::Tables;
use crate::upgrader::{applied, merged, ordered, patched, placed, replaced, Indel};
use crate::version::{rename_rules, table_rules, Category, Rule, Version};
use crate::visitor::{Node, NodeKind, SyntaxTree};
use vstd::prelude::*;

verus! {

/// The six forms in which a variant occurs.
pub open spec fn variant_form(kind: NodeKind) -> bool {
    kind == NodeKind::PathExpr || kind == NodeKind::PathPat || kind == NodeKind::RecordPat || kind
        == NodeKind::RecordExpr || kind == NodeKind::TupleStructPat || kind == NodeKind::IdentPat
}

/// No identifier in the tree is one that a rule for its category speaks of.
pub open spec fn settled(rules: Seq<Rule>, tree: SyntaxTree) -> bool
    decreases tree, tree.children@.len() + 1,
{
    &&& match tree.node.local_name() {
        Some(name) => !mentioned(rules, tree.node.kind, name),
        None => true,
    }
    &&& settled_below(rules, tree, tree.children@.len())
}

/// The first `n` children of the tree are settled.
pub open spec fn settled_below(rules: Seq<Rule>, tree: SyntaxTree, n: nat) -> bool
    decreases tree, n,
{
    if n == 0 || n > tree.children@.len() {
        true
    } else {
        settled_below(rules, tree, (n - 1) as nat) && settled(rules, tree.children@[n - 1])
    }
}

/// A milestone without hooks for every node yields no step at a node whose identifier no
/// rule speaks of: source that bears only new names is left alone.
pub proof fn settled_node_yields_nothing(version: Version, tables: Tables, node: Node)
    requires
        version.hooks().len() == 0,
        node.local_name() matches Some(name) ==> !mentioned(version.rules(), node.kind, name),
    ensures
        node_steps(version, tables, node) == Seq::<StepView>::empty(),
{
    assert(unconditional_steps(version.hooks(), node.kind) == Seq::<StepView>::empty());
    match (node.local_name(), resolved_owner(tables, node)) {
        (Some(name), Some(owner)) => {
            unmentioned_fires_nothing(version.rules(), owner, name, node);
        },
        _ => {},
    }
    assert(node_steps(version, tables, node) =~= Seq::<StepView>::empty());
}

/// Run again on source that was upgraded, the rules yield nothing: a milestone without
/// hooks for every node yields no step over a tree in which no identifier is one that a
/// rule speaks of.
pub proof fn settled_tree_yields_nothing(version: Version, tables: Tables, tree: SyntaxTree)
    requires
        version.hooks().len() == 0,
        settled(version.rules(), tree),
    ensures
        tree_steps(version, tables, tree) == Seq::<StepView>::empty(),
    decreases tree, tree.children@.len() + 1,
{
    settled_node_yields_nothing(version, tables, tree.node);
    settled_forest_yields_nothing(version, tables, tree, tree.children@.len());
    assert(tree_steps(version, tables, tree) =~= Seq::<StepView>::empty());
}

/// The same of the first `n` children of a tree.
pub proof fn settled_forest_yields_nothing(version: Version, tables: Tables, tree: SyntaxTree, n: nat)
    requires
        version.hooks().len() == 0,
        n <= tree.children@.len(),
        settled_below(version.rules(), tree, n),
    ensures
        forest_steps(version, tables, tree, n) == Seq::<StepView>::empty(),
    decreases tree, n,
{
    if n > 0 {
        settled_forest_yields_nothing(version, tables, tree, (n - 1) as nat);
        settled_tree_yields_nothing(version, tables, tree.children@[n - 1]);
        assert(forest_steps(version, tables, tree, n) =~= Seq::<StepView>::empty());
    }
}

/// A rename of a field changes, where the field is read, the span of the field's
/// identifier and nothing else: the one step is the edit that puts the new name there.
pub proof fn member_rename_edits_identifier_only(
    path: Seq<char>,
    old: Seq<char>,
    new: Seq<char>,
    node: Node,
)
    requires
        node.kind == NodeKind::FieldExpr,
        node.name matches Some(n) && n.text() == old,
    ensures
        gated_steps(rename_rules(Category::Member, path, old, new), path, old, node) == seq![
            edit_step(node.name->0.range(), new),
        ],
{
    let rules = rename_rules(Category::Member, path, old, new);
    reveal_with_fuel(gated_steps, 4);
    assert(rules.drop_last().drop_last().drop_last() =~= Seq::<Rule>::empty());
    assert(gated_steps(rules, path, old, node) =~= seq![edit_step(node.name->0.range(), new)]);
}

/// A patch of one edit changes the bytes of the edit's span and no other byte.
pub proof fn single_edit_changes_its_span_only(text: Seq<u8>, e: Indel)
    ensures
        patched(text, seq![e]) == text.subrange(0, e.start) + e.insert + text.subrange(
            e.end,
            text.len() as int,
        ),
{
    let s = seq![e];
    assert(s.drop_last() =~= Seq::<Indel>::empty());
    reveal_with_fuel(ordered, 2);
    reveal_with_fuel(placed, 2);
    assert(ordered(s) =~= s);
    assert(merged(s) == s);
    reveal_with_fuel(applied, 2);
    assert(applied(text, s) == replaced(text, e));
}

/// A rename of a variant gives the variant the same new name in each of the six forms
/// in which it occurs: the one step is the edit of the identifier's span.
pub proof fn variant_rename_is_the_same_in_every_form(
    path: Seq<char>,
    old: Seq<char>,
    new: Seq<char>,
    node: Node,
)
    requires
        variant_form(node.kind),
        node.name matches Some(n) && n.text() == old,
    ensures
        gated_steps(rename_rules(Category::Variant, path, old, new), path, old, node) == seq![
            edit_step(node.name->0.range(), new),
        ],
{
    let rules = rename_rules(Category::Variant, path, old, new);
    reveal_with_fuel(gated_steps, 7);
    let r5 = rules.drop_last();
    let r4 = r5.drop_last();
    let r3 = r4.drop_last();
    let r2 = r3.drop_last();
    let r1 = r2.drop_last();
    assert(r1.drop_last() =~= Seq::<Rule>::empty());
    assert(gated_steps(rules, path, old, node) =~= seq![edit_step(node.name->0.range(), new)]);
}

/// A node that bears a rule's identifier but names a declaration of another owner is
/// left alone: rules whose owner is not the node's yield nothing there.
pub proof fn other_owner_is_left_alone(rules: Seq<Rule>, owner: Seq<char>, name: Seq<char>, node: Node)
    requires
        forall|i: int| 0 <= i < rules.len() ==> (#[trigger] rules[i]).path != owner,
    ensures
        gated_steps(rules, owner, name, node) == Seq::<StepView>::empty(),
    decreases rules.len(),
{
    if rules.len() > 0 {
        let front = rules.drop_last();
        assert forall|i: int| 0 <= i < front.len() implies (#[trigger] front[i]).path != owner by {
            assert(front[i] == rules[i]);
        }
        other_owner_is_left_alone(front, owner, name, node);
        assert(rules[rules.len() - 1].path != owner);
    }
}

/// A node that the frontend could not resolve, or whose declaration the tables do not
/// hold, is left alone by the gated rules.
pub proof fn unresolved_is_left_alone(rules: Seq<Rule>, tables: Tables, node: Node)
    requires
        resolved_owner(tables, node) is None,
    ensures
        fired(rules, tables, node) == Seq::<StepView>::empty(),
{
}

/// A field in shorthand where a record is built is written out: `member` becomes
/// `new: member`, so that the value keeps its name.
pub proof fn shorthand_field_is_written_out(path: Seq<char>, old: Seq<char>, new: Seq<char>, node: Node)
    requires
        node.kind == NodeKind::RecordExprField,
        node.shorthand,
        node.name matches Some(n) && n.text() == old,
    ensures
        gated_steps(rename_rules(Category::Member, path, old, new), path, old, node) == seq![
            edit_step(node.name->0.range(), written_out(new, old)),
        ],
{
    let rules = rename_rules(Category::Member, path, old, new);
    reveal_with_fuel(gated_steps, 4);
    assert(rules.drop_last().drop_last().drop_last() =~= Seq::<Rule>::empty());
    assert(gated_steps(rules, path, old, node) =~= seq![
        edit_step(node.name->0.range(), written_out(new, old)),
    ]);
}

/// A field in shorthand where a record is matched is written out with its binding as it
/// stands: the whole field becomes `new: ` and the field's own text.
pub proof fn shorthand_pattern_keeps_its_binding(
    path: Seq<char>,
    old: Seq<char>,
    new: Seq<char>,
    node: Node,
)
    requires
        node.kind == NodeKind::RecordPatField,
        node.name matches Some(n) && n is Name && n.text() == old,
    ensures
        gated_steps(rename_rules(Category::Member, path, old, new), path, old, node) == seq![
            edit_step(node.range, written_out(new, node.text@)),
        ],
{
    let rules = rename_rules(Category::Member, path, old, new);
    reveal_with_fuel(gated_steps, 4);
    assert(rules.drop_last().drop_last().drop_last() =~= Seq::<Rule>::empty());
    assert(gated_steps(rules, path, old, node) =~= seq![
        edit_step(node.range, written_out(new, node.text@)),
    ]);
}

/// Rules registered one after the other speak of an identifier where either part does.
pub proof fn mentioned_in_either(first: Seq<Rule>, second: Seq<Rule>, kind: NodeKind, name: Seq<char>)
    ensures
        mentioned(first + second, kind, name) <==> mentioned(first, kind, name) || mentioned(
            second,
            kind,
            name,
        ),
{
    let all = first + second;
    if mentioned(first, kind, name) {
        let i = choose|i: int| 0 <= i < first.len() && (#[trigger] first[i]).kind == kind && first[i].name == name;
        assert(all[i] == first[i]);
    }
    if mentioned(second, kind, name) {
        let i = choose|i: int|
            0 <= i < second.len() && (#[trigger] second[i]).kind == kind && second[i].name == name;
        assert(all[first.len() + i] == second[i]);
    }
    if mentioned(all, kind, name) {
        let i = choose|i: int| 0 <= i < all.len() && (#[trigger] all[i]).kind == kind && all[i].name == name;
        if i < first.len() {
            assert(first[i] == all[i]);
        } else {
            assert(second[i - first.len()] == all[i]);
        }
    }
}

/// A table of renames speaks of no identifier but the old names that it lists: a new
/// name that is no old name of the table is left alone when the rules run again.
pub proof fn table_speaks_of_old_names_only(
    category: Category,
    path: Seq<char>,
    pairs: Seq<(Seq<char>, Seq<char>)>,
    kind: NodeKind,
    name: Seq<char>,
)
    requires
        forall|i: int| 0 <= i < pairs.len() ==> (#[trigger] pairs[i]).0 != name,
    ensures
        !mentioned(table_rules(category, path, pairs), kind, name),
    decreases pairs.len(),
{
    if pairs.len() > 0 {
        let front = pairs.drop_last();
        assert forall|i: int| 0 <= i < front.len() implies (#[trigger] front[i]).0 != name by {
            assert(front[i] == pairs[i]);
        }
        table_speaks_of_old_names_only(category, path, front, kind, name);
        let last = rename_rules(category, path, pairs.last().0, pairs.last().1);
        assert(pairs[pairs.len() - 1].0 != name);
        assert forall|i: int| 0 <= i < last.len() implies (#[trigger] last[i]).name != name by {}
        mentioned_in_either(table_rules(category, path, front), last, kind, name);
    }
}

/// No rule is for nodes of this category with this identifier and this owner.
pub open spec fn none_applies(rules: Seq<Rule>, kind: NodeKind, owner: Seq<char>, name: Seq<char>) -> bool {
    forall|i: int| 0 <= i < rules.len() ==> !rule_applies(#[trigger] rules[i], kind, owner, name)
}

/// The rules have nothing to do at the node: it has no identifier, or what it names has
/// no known owner, or no rule is for its category, identifier and owner.
pub open spec fn quiet(rules: Seq<Rule>, tables: Tables, node: Node) -> bool {
    match (node.local_name(), resolved_owner(tables, node)) {
        (Some(name), Some(owner)) => none_applies(rules, node.kind, owner, name),
        _ => true,
    }
}

/// The rules have nothing to do at any node of the tree.
pub open spec fn quiet_tree(rules: Seq<Rule>, tables: Tables, tree: SyntaxTree) -> bool
    decreases tree, tree.children@.len() + 1,
{
    quiet(rules, tables, tree.node) && quiet_below(rules, tables, tree, tree.children@.len())
}

/// The rules have nothing to do at any node below the first `n` children of the tree.
pub open spec fn quiet_below(rules: Seq<Rule>, tables: Tables, tree: SyntaxTree, n: nat) -> bool
    decreases tree, n,
{
    if n == 0 || n > tree.children@.len() {
        true
    } else {
        quiet_below(rules, tables, tree, (n - 1) as nat) && quiet_tree(
            rules,
            tables,
            tree.children@[n - 1],
        )
    }
}

/// Rules of which none is for a node's category, identifier and owner yield nothing there.
pub proof fn no_rule_applies_yields_nothing(
    rules: Seq<Rule>,
    owner: Seq<char>,
    name: Seq<char>,
    node: Node,
)
    requires
        none_applies(rules, node.kind, owner, name),
    ensures
        gated_steps(rules, owner, name, node) == Seq::<StepView>::empty(),
    decreases rules.len(),
{
    if rules.len() > 0 {
        let front = rules.drop_last();
        assert forall|i: int| 0 <= i < front.len() implies !rule_applies(
            #[trigger] front[i],
            node.kind,
            owner,
            name,
        ) by {
            assert(front[i] == rules[i]);
        }
        no_rule_applies_yields_nothing(front, owner, name, node);
        assert(!rule_applies(rules[rules.len() - 1], node.kind, owner, name));
    }
}

/// Run again on source that was upgraded, the rules yield nothing. In such source the
/// nodes owned by a rule's owner bear new names, and an old name is left only where
/// another owner has it: at every node no rule is for its category, identifier and
/// owner. Over such a tree a milestone without hooks for every node yields no step.
pub proof fn quiet_tree_yields_nothing(version: Version, tables: Tables, tree: SyntaxTree)
    requires
        version.hooks().len() == 0,
        quiet_tree(version.rules(), tables, tree),
    ensures
        tree_steps(version, tables, tree) == Seq::<StepView>::empty(),
    decreases tree, tree.children@.len() + 1,
{
    assert(unconditional_steps(version.hooks(), tree.node.kind) == Seq::<StepView>::empty());
    match (tree.node.local_name(), resolved_owner(tables, tree.node)) {
        (Some(name), Some(owner)) => {
            no_rule_applies_yields_nothing(version.rules(), owner, name, tree.node);
        },
        _ => {},
    }
    assert(node_steps(version, tables, tree.node) =~= Seq::<StepView>::empty());
    quiet_forest_yields_nothing(version, tables, tree, tree.children@.len());
    assert(tree_steps(version, tables, tree) =~= Seq::<StepView>::empty());
}

/// The same of the first `n` children of a tree.
pub proof fn quiet_forest_yields_nothing(version: Version, tables: Tables, tree: SyntaxTree, n: nat)
    requires
        version.hooks().len() == 0,
        n <= tree.children@.len(),
        quiet_below(version.rules(), tables, tree, n),
    ensures
        forest_steps(version, tables, tree, n) == Seq::<StepView>::empty(),
    decreases tree, n,
{
    if n > 0 {
        quiet_forest_yields_nothing(version, tables, tree, (n - 1) as nat);
        quiet_tree_yields_nothing(version, tables, tree.children@[n - 1]);
        assert(forest_steps(version, tables, tree, n) =~= Seq::<StepView>::empty());
    }
}

/// Rules registered one after the other apply nowhere where neither part applies.
pub proof fn none_applies_in_both(
    first: Seq<Rule>,
    second: Seq<Rule>,
    kind: NodeKind,
    owner: Seq<char>,
    name: Seq<char>,
)
    requires
        none_applies(first, kind, owner, name),
        none_applies(second, kind, owner, name),
    ensures
        none_applies(first + second, kind, owner, name),
{
    let all = first + second;
    assert forall|i: int| 0 <= i < all.len() implies !rule_applies(
        #[trigger] all[i],
        kind,
        owner,
        name,
    ) by {
        if i < first.len() {
            assert(all[i] == first[i]);
        } else {
            assert(all[i] == second[i - first.len()]);
        }
    }
}

/// A table of renames is for the old names under its own owner and for nothing else: at
/// a node of another owner, or one that bears none of the old names, none of its rules
/// applies. So a new name that is no old name under the same owner is left alone.
pub proof fn table_is_for_its_owner_and_old_names(
    category: Category,
    path: Seq<char>,
    pairs: Seq<(Seq<char>, Seq<char>)>,
    kind: NodeKind,
    owner: Seq<char>,
    name: Seq<char>,
)
    requires
        owner != path || forall|i: int| 0 <= i < pairs.len() ==> (#[trigger] pairs[i]).0 != name,
    ensures
        none_applies(table_rules(category, path, pairs), kind, owner, name),
    decreases pairs.len(),
{
    if pairs.len() > 0 {
        let front = pairs.drop_last();
        if owner == path {
            assert forall|i: int| 0 <= i < front.len() implies (#[trigger] front[i]).0 != name by {
                assert(front[i] == pairs[i]);
            }
            assert(pairs[pairs.len() - 1].0 != name);
        }
        table_is_for_its_owner_and_old_names(category, path, front, kind, owner, name);
        let last = rename_rules(category, path, pairs.last().0, pairs.last().1);
        assert forall|i: int| 0 <= i < last.len() implies !rule_applies(
            #[trigger] last[i],
            kind,
            owner,
            name,
        ) by {}
        none_applies_in_both(table_rules(category, path, front), last, kind, owner, name);
    }
}

/// What rules registered one after the other do at a node is what the first do, then
/// what the second do.
pub proof fn gated_steps_of_both(
    first: Seq<Rule>,
    second: Seq<Rule>,
    owner: Seq<char>,
    name: Seq<char>,
    node: Node,
)
    ensures
        gated_steps(first + second, owner, name, node) == gated_steps(first, owner, name, node)
            + gated_steps(second, owner, name, node),
    decreases second.len(),
{
    if second.len() == 0 {
        assert(first + second =~= first);
        assert(gated_steps(first, owner, name, node) + Seq::<StepView>::empty() =~= gated_steps(
            first,
            owner,
            name,
            node,
        ));
    } else {
        let all = first + second;
        assert(all.drop_last() =~= first + second.drop_last());
        assert(all.last() == second.last());
        gated_steps_of_both(first, second.drop_last(), owner, name, node);
        let tail = if rule_applies(second.last(), node.kind, owner, name) {
            action_steps(second.last().action, node)
        } else {
            Seq::<StepView>::empty()
        };
        assert(gated_steps(all, owner, name, node) =~= gated_steps(first, owner, name, node) + (
        gated_steps(second.drop_last(), owner, name, node) + tail));
    }
}

/// A table of variant renames with no old name listed twice gives every variant it lists
/// its own new name, in each of the six forms: at a node that bears the old name of one
/// pair and names a variant of the table's enum, the one step is the edit that puts that
/// pair's new name in the place of the identifier. No old name is left.
pub proof fn variant_table_renames_each_variant(
    path: Seq<char>,
    pairs: Seq<(Seq<char>, Seq<char>)>,
    k: int,
    node: Node,
)
    requires
        0 <= k < pairs.len(),
        forall|i: int, j: int| 0 <= i < j < pairs.len() ==> (#[trigger] pairs[i]).0 != (
        #[trigger] pairs[j]).0,
        variant_form(node.kind),
        node.name matches Some(n) && n.text() == pairs[k].0,
    ensures
        gated_steps(table_rules(Category::Variant, path, pairs), path, pairs[k].0, node) == seq![
            edit_step(node.name->0.range(), pairs[k].1),
        ],
    decreases pairs.len(),
{
    let name = pairs[k].0;
    let front = pairs.drop_last();
    let last = rename_rules(Category::Variant, path, pairs.last().0, pairs.last().1);
    let before = table_rules(Category::Variant, path, front);
    gated_steps_of_both(before, last, path, name, node);
    if k == pairs.len() - 1 {
        assert forall|i: int| 0 <= i < front.len() implies (#[trigger] front[i]).0 != name by {
            assert(front[i] == pairs[i]);
            assert(pairs[i].0 != pairs[k].0);
        }
        table_is_for_its_owner_and_old_names(Category::Variant, path, front, node.kind, path, name);
        no_rule_applies_yields_nothing(before, path, name, node);
        variant_rename_is_the_same_in_every_form(path, name, pairs[k].1, node);
        assert(Seq::<StepView>::empty() + seq![edit_step(node.name->0.range(), pairs[k].1)] =~= seq![
            edit_step(node.name->0.range(), pairs[k].1),
        ]);
    } else {
        assert forall|i: int, j: int| 0 <= i < j < front.len() implies (#[trigger] front[i]).0 != (
        #[trigger] front[j]).0 by {
            assert(front[i] == pairs[i] && front[j] == pairs[j]);
        }
        assert(front[k] == pairs[k]);
        variant_table_renames_each_variant(path, front, k, node);
        assert(pairs[k].0 != pairs[pairs.len() - 1].0);
        assert forall|i: int| 0 <= i < last.len() implies !rule_applies(
            #[trigger] last[i],
            node.kind,
            path,
            name,
        ) by {}
        no_rule_applies_yields_nothing(last, path, name, node);
        assert(seq![edit_step(node.name->0.range(), pairs[k].1)] + Seq::<StepView>::empty() =~= seq![
            edit_step(node.name->0.range(), pairs[k].1),
        ]);
    }
}

} // verus!
