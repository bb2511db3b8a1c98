//! A sample set of rules: the upgrades of a package named `upgradee`.

use crate::runner::Runner;
use crate::semantic::{semver_parse, SemverVersion, SemverView};
use crate::utils::RunError;
use crate::version::{pairs_of, table_rules, Action, ActionView, Category, Rule, Version};
use crate::visitor::NodeKind;
use vstd::prelude::*;

verus! {

/// The number of the hook that runs before an upgrade to 0.5.0.
pub const INIT_HOOK: usize = 0;

/// What the hook before an upgrade to 0.5.0 says where it refuses.
pub open spec fn refusal() -> Seq<char> {
    "Can't upgrade from 0.4.0"@
}

/// The rule of the milestone 0.6.0: a call of `upgradee::Struct::print` becomes `member`.
pub open spec fn print_becomes_member() -> Rule {
    Rule {
        kind: NodeKind::MethodCallExpr,
        path: "upgradee::Struct"@,
        name: "print"@,
        action: ActionView::Replace("member"@),
    }
}

/// The version 0.4.0, from which there is no way on.
pub open spec fn dead_end() -> SemverView {
    SemverView { major: 0, minor: 4, patch: 0, pre: Seq::empty(), build: Seq::empty() }
}

/// The hook that runs before an upgrade to 0.5.0: it refuses an upgrade from 0.4.0, saying
/// so, and lets every other pass.
pub fn init(from: &SemverVersion) -> (r: Result<(), RunError>)
    ensures
        r is Err <==> from@ == dead_end(),
        r matches Err(e) ==> e matches RunError::Init(id, said) && id == INIT_HOOK && said@
            == refusal(),
{
    if from.same(&SemverVersion::new(0, 4, 0)) {
        Err(RunError::Init(INIT_HOOK, String::from_str("Can't upgrade from 0.4.0")))
    } else {
        Ok(())
    }
}

/// The rules of the milestone 0.3.0.
pub open spec fn renames_0_3_0() -> Seq<Rule> {
    table_rules(Category::Struct, "upgradee"@, seq![("OldStruct"@, "NewStruct"@)]) + table_rules(
        Category::Member,
        "upgradee::Struct"@,
        seq![("struct_member"@, "new_s_member"@)],
    ) + table_rules(Category::Member, "upgradee::Union"@, seq![("union_member"@, "new_u_member"@)])
        + table_rules(
        Category::Variant,
        "upgradee::Enum"@,
        seq![("Orange"@, "Pineapple"@), ("Grape"@, "Berry"@), ("Melon"@, "Papaya"@)],
    ) + table_rules(Category::Method, "upgradee::Struct"@, seq![("print"@, "print_err"@)])
        + table_rules(Category::Method, "upgradee::Enum"@, seq![("talk"@, "talk_err"@)])
        + table_rules(Category::Method, "upgradee::Union"@, seq![("eat"@, "eat_err"@)])
}

/// The runner for `upgradee`: upgrades start at 0.2.0; 0.3.0 renames a struct, fields,
/// variants and methods; 0.4.0 renames a method of a peer; 0.5.0 has a hook that runs
/// before the walk; 0.6.0 replaces the calls of one method. No milestone names a peer or
/// has a hook for every node. It fails only where
/// one of these versions is not read as a version.
pub fn runner() -> (r: Result<Runner, semver::Error>)
    ensures
        r is Ok <==> semver_parse("0.2.0"@) is Some && semver_parse("0.3.0"@) is Some
            && semver_parse("0.4.0"@) is Some && semver_parse("0.5.0"@) is Some && semver_parse(
            "0.6.0"@,
        ) is Some,
        r matches Ok(runner) ==> {
            let m = runner.milestones();
            &&& runner.lowest() == semver_parse("0.2.0"@)
            &&& m.len() == 4
            &&& Some(m[0].target()) == semver_parse("0.3.0"@)
            &&& Some(m[1].target()) == semver_parse("0.4.0"@)
            &&& Some(m[2].target()) == semver_parse("0.5.0"@)
            &&& Some(m[3].target()) == semver_parse("0.6.0"@)
            &&& m[0].rules() == renames_0_3_0()
            &&& m[1].rules() == table_rules(
                Category::Method,
                "structopt::StructOpt"@,
                seq![("from_args"@, "parse"@)],
            )
            &&& m[2].rules().len() == 0
            &&& m[3].rules() == seq![print_becomes_member()]
            &&& m[0].init_hook() is None && m[1].init_hook() is None && m[3].init_hook() is None
            &&& m[2].init_hook() == Some(INIT_HOOK)
            &&& forall|k: int|
                0 <= k < 4 ==> (#[trigger] m[k]).hooks().len() == 0 && m[k].peer_names().len() == 0
        },
{
    let base = match Runner::new().minimum("0.2.0") {
        Ok(r) => r,
        Err(e) => {
            return Err(e);
        },
    };
    let first = match Version::new("0.3.0") {
        Ok(v) => v,
        Err(e) => {
            return Err(e);
        },
    };
    let second = match Version::new("0.4.0") {
        Ok(v) => v,
        Err(e) => {
            return Err(e);
        },
    };
    let third = match Version::new("0.5.0") {
        Ok(v) => v,
        Err(e) => {
            return Err(e);
        },
    };
    let fourth = match Version::new("0.6.0") {
        Ok(v) => v,
        Err(e) => {
            return Err(e);
        },
    };
    let structs: &[[&str; 2]] = &[["OldStruct", "NewStruct"]];
    let fields: &[[&str; 2]] = &[["struct_member", "new_s_member"]];
    let union_fields: &[[&str; 2]] = &[["union_member", "new_u_member"]];
    let variants: &[[&str; 2]] = &[["Orange", "Pineapple"], ["Grape", "Berry"], ["Melon", "Papaya"]];
    let prints: &[[&str; 2]] = &[["print", "print_err"]];
    let talks: &[[&str; 2]] = &[["talk", "talk_err"]];
    let eats: &[[&str; 2]] = &[["eat", "eat_err"]];
    let parses: &[[&str; 2]] = &[["from_args", "parse"]];
    assert(pairs_of(structs@) =~= seq![("OldStruct"@, "NewStruct"@)]);
    assert(pairs_of(fields@) =~= seq![("struct_member"@, "new_s_member"@)]);
    assert(pairs_of(union_fields@) =~= seq![("union_member"@, "new_u_member"@)]);
    assert(pairs_of(variants@) =~= seq![
        ("Orange"@, "Pineapple"@),
        ("Grape"@, "Berry"@),
        ("Melon"@, "Papaya"@),
    ]);
    assert(pairs_of(prints@) =~= seq![("print"@, "print_err"@)]);
    assert(pairs_of(talks@) =~= seq![("talk"@, "talk_err"@)]);
    assert(pairs_of(eats@) =~= seq![("eat"@, "eat_err"@)]);
    assert(pairs_of(parses@) =~= seq![("from_args"@, "parse"@)]);
    let first = first.rename_structs("upgradee", structs).rename_members(
        "upgradee::Struct",
        fields,
    ).rename_members("upgradee::Union", union_fields).rename_variants(
        "upgradee::Enum",
        variants,
    ).rename_methods("upgradee::Struct", prints).rename_methods("upgradee::Enum", talks).rename_methods(
        "upgradee::Union",
        eats,
    );
    assert(first.rules() =~= renames_0_3_0());
    let second = second.rename_methods("structopt::StructOpt", parses);
    assert(second.rules() =~= table_rules(
        Category::Method,
        "structopt::StructOpt"@,
        seq![("from_args"@, "parse"@)],
    ));
    let third = third.init(INIT_HOOK);
    let fourth = fourth.rule(
        NodeKind::MethodCallExpr,
        "upgradee::Struct",
        "print",
        Action::Replace(String::from_str("member")),
    );
    Ok(base.version(first).version(second).version(third).version(fourth))
}

} // verus!
