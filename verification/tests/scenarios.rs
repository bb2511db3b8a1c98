use cargo_up::dispatch::{dispatch, mentions, record, run_hooks, walk, Step};
use cargo_up::preloader::{full_name, Adt, AdtKind, Impl, Module};
use cargo_up::sample::{init, INIT_HOOK};
use cargo_up::visitor::{Decl, Name, NameOrNameRef, NameRef, Node, NodeKind, SyntaxTree};
use cargo_up::{runner, Plan, Preloader, RunError, Runner, SemverVersion, TextRange, Upgrader, Version};


const MEMBER: &str = r#"use upgradee::{Struct, Union};

type S = Struct;
type U = Union;

fn main() {
    let mut a = Struct {
        struct_member: true,
    };

    a.struct_member = false;
    s(&a);

    let b = S {
        struct_member: false,
    };
    s(&b);

    let mut c = Union { union_member: true };

    c.union_member = true;

    let z = |v: &Union| {
        let v = unsafe { v.union_member };
        println!("{}", v);
    };

    z(&c);

    let d = U {
        union_member: false,
    };
    z(&d);
}

fn s(v: &Struct) {
    let v = v.struct_member;
    println!("{}", v);
}
"#;

const MEMBER_UPGRADED: &str = r#"use upgradee::{Struct, Union};

type S = Struct;
type U = Union;

fn main() {
    let mut a = Struct {
        new_s_member: true,
    };

    a.new_s_member = false;
    s(&a);

    let b = S {
        new_s_member: false,
    };
    s(&b);

    let mut c = Union { new_u_member: true };

    c.new_u_member = true;

    let z = |v: &Union| {
        let v = unsafe { v.new_u_member };
        println!("{}", v);
    };

    z(&c);

    let d = U {
        new_u_member: false,
    };
    z(&d);
}

fn s(v: &Struct) {
    let v = v.new_s_member;
    println!("{}", v);
}
"#;

const MEMBERS: &str = r#"use upgradee::{Struct, Union};

type S = Struct;
type U = Union;

fn main() {
    let mut a = Struct {
        struct_member: true,
    };

    a.struct_member = false;
    s(&a);

    let b = S {
        struct_member: false,
    };
    s(&b);

    let mut c = Union { union_member: true };

    c.union_member = true;

    let z = |v: &Union| {
        let v = unsafe { v.union_member };
        println!("{}", v);
    };

    z(&c);

    let d = U {
        union_member: false,
    };
    z(&d);

    let struct_member = false;
    let mut e = Struct { struct_member };

    let union_member = false;
    let mut f = Union { union_member };

    let Struct { struct_member } = e.clone();
    let Struct { struct_member: g } = e.clone();
    let Struct {
        ref mut struct_member,
    } = e;

    unsafe {
        let Union { union_member } = f.clone();
        let Union { union_member: h } = f.clone();
        let Union {
            ref mut union_member,
        } = f;
    }
}

fn s(v: &Struct) {
    let v = v.struct_member;
    println!("{}", v);
}
"#;

const MEMBERS_UPGRADED: &str = r#"use upgradee::{Struct, Union};

type S = Struct;
type U = Union;

fn main() {
    let mut a = Struct {
        new_s_member: true,
    };

    a.new_s_member = false;
    s(&a);

    let b = S {
        new_s_member: false,
    };
    s(&b);

    let mut c = Union { new_u_member: true };

    c.new_u_member = true;

    let z = |v: &Union| {
        let v = unsafe { v.new_u_member };
        println!("{}", v);
    };

    z(&c);

    let d = U {
        new_u_member: false,
    };
    z(&d);

    let struct_member = false;
    let mut e = Struct { new_s_member: struct_member };

    let union_member = false;
    let mut f = Union { new_u_member: union_member };

    let Struct { new_s_member: struct_member } = e.clone();
    let Struct { new_s_member: g } = e.clone();
    let Struct {
        new_s_member: ref mut struct_member,
    } = e;

    unsafe {
        let Union { new_u_member: union_member } = f.clone();
        let Union { new_u_member: h } = f.clone();
        let Union {
            new_u_member: ref mut union_member,
        } = f;
    }
}

fn s(v: &Struct) {
    let v = v.new_s_member;
    println!("{}", v);
}
"#;

const METHOD: &str = r#"use upgradee::{Enum, Struct, Union};

type S = Struct;
type E = Enum;
type U = Union;

fn main() {
    let a = Struct {};

    a.print();

    let z = |v: Struct| v.print();

    z(a);

    let c = S {};

    c.print();

    let b = Enum::None;

    b.talk();

    let z = |v: Enum| v.talk();

    z(b);

    let d = E::None;

    d.talk();

    let e = Union { y: false };

    e.eat();

    let z = |v: Union| v.eat();

    z(e);

    let f = U { y: false };

    f.eat();
}
"#;

const METHOD_UPGRADED: &str = r#"use upgradee::{Enum, Struct, Union};

type S = Struct;
type E = Enum;
type U = Union;

fn main() {
    let a = Struct {};

    a.print_err();

    let z = |v: Struct| v.print_err();

    z(a);

    let c = S {};

    c.print_err();

    let b = Enum::None;

    b.talk_err();

    let z = |v: Enum| v.talk_err();

    z(b);

    let d = E::None;

    d.talk_err();

    let e = Union { y: false };

    e.eat_err();

    let z = |v: Union| v.eat_err();

    z(e);

    let f = U { y: false };

    f.eat_err();
}
"#;

const STATICS: &str = r#"use upgradee::{Enum, Struct, Union};

type S = Struct;
type E = Enum;
type U = Union;

fn main() {
    let a = Struct::print();
    let b = S::print();

    let c = Enum::talk();
    let d = E::talk();

    let e = Union::eat();
    let f = U::eat();
}
"#;

const STATICS_UPGRADED: &str = r#"use upgradee::{Enum, Struct, Union};

type S = Struct;
type E = Enum;
type U = Union;

fn main() {
    let a = Struct::print_err();
    let b = S::print_err();

    let c = Enum::talk_err();
    let d = E::talk_err();

    let e = Union::eat_err();
    let f = U::eat_err();
}
"#;

const VARIANTS: &str = r#"use upgradee::Enum;

type E = Enum;

fn main() {
    let a = Enum::Orange;
    s(&a);

    let b = E::Orange;
    t(&b);

    if let Enum::Orange = b {}

    let mut e = Enum::Grape(8);

    if let Enum::Grape(g) = e.clone() {}
    if let Enum::Grape(ref mut g) = e {}

    let mut f = Enum::Melon { size: 10 };

    if let Enum::Melon { size } = e.clone() {}
}

fn s(v: &Enum) -> Option<bool> {
    use Enum::*;

    match v {
        Orange => Some(true),
        Grape(_) => Some(false),
        Melon { .. } => Some(false),
        _ => None,
    }
}

fn t(v: &Enum) -> Option<bool> {
    use Enum::*;

    if let Orange = v {
        Some(true)
    } else if let Grape(g) = v {
        Some(false)
    } else if let Melon { size } = v {
        Some(false)
    } else {
        None
    }
}
"#;

const VARIANTS_UPGRADED: &str = r#"use upgradee::Enum;

type E = Enum;

fn main() {
    let a = Enum::Pineapple;
    s(&a);

    let b = E::Pineapple;
    t(&b);

    if let Enum::Pineapple = b {}

    let mut e = Enum::Berry(8);

    if let Enum::Berry(g) = e.clone() {}
    if let Enum::Berry(ref mut g) = e {}

    let mut f = Enum::Papaya { size: 10 };

    if let Enum::Papaya { size } = e.clone() {}
}

fn s(v: &Enum) -> Option<bool> {
    use Enum::*;

    match v {
        Pineapple => Some(true),
        Berry(_) => Some(false),
        Papaya { .. } => Some(false),
        _ => None,
    }
}

fn t(v: &Enum) -> Option<bool> {
    use Enum::*;

    if let Pineapple = v {
        Some(true)
    } else if let Berry(g) = v {
        Some(false)
    } else if let Papaya { size } = v {
        Some(false)
    } else {
        None
    }
}
"#;

const STRUCTS: &str = r#"use upgradee::OldStruct;

type S = OldStruct;

struct I {
    inner: OldStruct,
}

fn main() {
    let mut a = OldStruct {
        struct_member: true,
    };

    a.struct_member = false;
    s(&a);

    let mut e = OldStruct {
        struct_member: false,
    };

    let OldStruct { struct_member } = e.clone();
}

fn s(v: &OldStruct) {
    match v {
        OldStruct { struct_member } => println!("{}", struct_member),
    };
}
"#;

const STRUCTS_UPGRADED: &str = r#"use upgradee::NewStruct;

type S = NewStruct;

struct I {
    inner: NewStruct,
}

fn main() {
    let mut a = NewStruct {
        struct_member: true,
    };

    a.struct_member = false;
    s(&a);

    let mut e = NewStruct {
        struct_member: false,
    };

    let NewStruct { struct_member } = e.clone();
}

fn s(v: &NewStruct) {
    match v {
        NewStruct { struct_member } => println!("{}", struct_member),
    };
}
"#;

const STRUCT_FIELD: u64 = 1;
const UNION_FIELD: u64 = 2;
const OLD_STRUCT_FIELD: u64 = 3;
const ORANGE: u64 = 10;
const GRAPE: u64 = 11;
const MELON: u64 = 12;
const PRINT: u64 = 20;
const TALK: u64 = 21;
const EAT: u64 = 22;
const DISPLAY_FMT: u64 = 23;
const OLD_STRUCT: u64 = 103;

fn upgradee() -> Module {
    let adt = |kind, id, name: &str, members: Vec<u64>| Adt { kind, id, name: name.to_string(), members };
    let block = |target: u64, of_trait, methods: Vec<u64>| Impl {
        target: Some(target),
        of_trait,
        methods,
    };
    Module {
        name: None,
        declarations: vec![
            adt(AdtKind::Struct, 100, "Struct", vec![STRUCT_FIELD]),
            adt(AdtKind::Union, 101, "Union", vec![UNION_FIELD]),
            adt(AdtKind::Enum, 102, "Enum", vec![ORANGE, GRAPE, MELON]),
            adt(AdtKind::Struct, OLD_STRUCT, "OldStruct", vec![OLD_STRUCT_FIELD]),
        ],
        impls: vec![
            block(100, false, vec![PRINT]),
            block(102, false, vec![TALK]),
            block(101, false, vec![EAT]),
            block(100, true, vec![DISPLAY_FMT]),
            Impl { target: None, of_trait: false, methods: vec![77] },
        ],
        children: vec![
            Module {
                name: Some("inner".to_string()),
                declarations: vec![adt(AdtKind::Struct, 104, "Deep", vec![4])],
                impls: vec![block(104, false, vec![24])],
                children: vec![Module {
                    name: Some("most".to_string()),
                    declarations: vec![adt(AdtKind::Enum, 105, "Kind", vec![13])],
                    impls: vec![],
                    children: vec![],
                }],
            },
            Module {
                name: None,
                declarations: vec![adt(AdtKind::Struct, 106, "Hidden", vec![5])],
                impls: vec![],
                children: vec![],
            },
        ],
    }
}

fn loaded() -> Preloader {
    let mut preloader = Preloader::new();
    preloader.load("upgradee", &upgradee());
    preloader
}

fn occurrences(text: &str, needle: &str) -> Vec<TextRange> {
    text.match_indices(needle)
        .map(|(at, found)| TextRange::new(at as u32, (at + found.len()) as u32))
        .collect()
}

fn cut(text: &str, range: TextRange) -> String {
    text[range.start as usize..range.end as usize].to_string()
}

fn name_ref(text: &str, range: TextRange) -> Option<NameOrNameRef> {
    Some(NameOrNameRef::NameRef(NameRef { text: cut(text, range), range }))
}

fn name(text: &str, range: TextRange) -> Option<NameOrNameRef> {
    Some(NameOrNameRef::Name(Name { text: cut(text, range), range }))
}

fn referring(kind: NodeKind, text: &str, range: TextRange, target: Option<Decl>) -> SyntaxTree {
    leaf(Node { kind, range, text: cut(text, range), name: name_ref(text, range), shorthand: false, target })
}

fn declaring(kind: NodeKind, text: &str, range: TextRange, target: Option<Decl>) -> SyntaxTree {
    leaf(Node { kind, range, text: cut(text, range), name: name(text, range), shorthand: false, target })
}

fn leaf(node: Node) -> SyntaxTree {
    SyntaxTree { node, children: vec![] }
}

fn file(text: &str, children: Vec<SyntaxTree>) -> SyntaxTree {
    let node = Node {
        kind: NodeKind::Other,
        range: TextRange::new(0, text.len() as u32),
        text: text.to_string(),
        name: None,
        shorthand: false,
        target: None,
    };
    SyntaxTree { node, children }
}

fn edits_of(steps: &[Step]) -> Vec<(u32, u32, String)> {
    steps
        .iter()
        .filter_map(|s| match s {
            Step::Edit(e) => Some((e.range.start, e.range.end, e.insert.clone())),
            Step::Call(_) => None,
        })
        .collect()
}

/// Upgrades `text`, whose tree is `tree`, from `from` to `to` with the sample rules.
fn run_upgrader(text: &str, tree: &SyntaxTree, from: &str, to: &str) -> Result<(String, Vec<usize>), RunError> {
    let mut runner = runner().unwrap();
    let from = SemverVersion::parse(from).unwrap();
    let to = SemverVersion::parse(to).unwrap();
    let mut result = text.to_string();
    match runner.start("upgradee", &from, to)? {
        Plan::NoChanges => Ok((result, vec![])),
        Plan::Upgrade { version, peers, init } => {
            let mut preloader = Preloader::new();
            if let Some(at) = cargo_up::runner::find_peer(&peers, "upgradee") {
                preloader.load(&peers[at], &upgradee());
            }
            if init == Some(INIT_HOOK) {
                cargo_up::sample::init(&from)?;
            }
            let mut upgrader = Upgrader::new();
            let steps = walk(runner.milestone(version), &preloader, tree);
            let calls = record(&mut upgrader, &steps);
            assert!(upgrader.finish().apply(&mut result));
            Ok((result, calls))
        }
    }
}

fn field_nodes(text: &str, needle: &str, field: u64) -> Vec<SyntaxTree> {
    let at = occurrences(text, needle);
    let kinds = [
        NodeKind::RecordExprField,
        NodeKind::FieldExpr,
        NodeKind::RecordExprField,
        NodeKind::IdentPat,
        NodeKind::RecordExprField,
        NodeKind::RecordPatField,
        NodeKind::RecordPatField,
        NodeKind::RecordPatField,
        NodeKind::FieldExpr,
    ];
    let mut nodes = vec![];
    for (i, range) in at.iter().enumerate() {
        let kind = if needle == "union_member" && i >= 2 {
            [NodeKind::FieldExpr, NodeKind::RecordExprField, NodeKind::IdentPat, NodeKind::RecordExprField,
             NodeKind::RecordPatField, NodeKind::RecordPatField, NodeKind::RecordPatField][i - 2]
        } else {
            kinds[i]
        };
        let shorthand_built = needle == "struct_member" && i == 4 || needle == "union_member" && i == 5;
        let shorthand_matched = needle == "struct_member" && (i == 5 || i == 7)
            || needle == "union_member" && (i == 6 || i == 8);
        let local = kind == NodeKind::IdentPat;
        let mut node = Node {
            kind,
            range: *range,
            text: cut(text, *range),
            name: name_ref(text, *range),
            shorthand: shorthand_built || shorthand_matched,
            target: if local { None } else { Some(Decl::Field(field)) },
        };
        if local || shorthand_matched {
            node.name = name(text, *range);
        }
        if shorthand_matched && text[..range.start as usize].ends_with("ref mut ") {
            node.range = TextRange::new(range.start - 8, range.end);
            node.text = cut(text, node.range);
        }
        nodes.push(leaf(node));
    }
    nodes
}

#[test]
fn test_rename_member() {
    let mut nodes = vec![];
    for (i, range) in occurrences(MEMBER, "struct_member").into_iter().enumerate() {
        let kind = if i == 1 || i == 3 { NodeKind::FieldExpr } else { NodeKind::RecordExprField };
        nodes.push(referring(kind, MEMBER, range, Some(Decl::Field(STRUCT_FIELD))));
    }
    for (i, range) in occurrences(MEMBER, "union_member").into_iter().enumerate() {
        let kind = if i == 1 || i == 2 { NodeKind::FieldExpr } else { NodeKind::RecordExprField };
        nodes.push(referring(kind, MEMBER, range, Some(Decl::Field(UNION_FIELD))));
    }
    let (out, calls) = run_upgrader(MEMBER, &file(MEMBER, nodes), "0.2.0", "0.3.0").unwrap();
    assert_eq!(out, MEMBER_UPGRADED);
    assert!(calls.is_empty());
}

#[test]
fn test_rename_members() {
    let mut nodes = field_nodes(MEMBERS, "struct_member", STRUCT_FIELD);
    nodes.extend(field_nodes(MEMBERS, "union_member", UNION_FIELD));
    let (out, calls) = run_upgrader(MEMBERS, &file(MEMBERS, nodes), "0.2.0", "0.3.0").unwrap();
    assert_eq!(out, MEMBERS_UPGRADED);
    assert!(calls.is_empty());
}

#[test]
fn test_no_version() {
    let mut nodes = field_nodes(MEMBERS, "struct_member", STRUCT_FIELD);
    nodes.extend(field_nodes(MEMBERS, "union_member", UNION_FIELD));
    let (out, calls) = run_upgrader(MEMBERS, &file(MEMBERS, nodes), "0.2.0", "0.2.1").unwrap();
    assert_eq!(out, MEMBERS);
    assert!(calls.is_empty());
    let mut runner = runner().unwrap();
    let plan = runner.start("upgradee", &SemverVersion::new(0, 2, 0), SemverVersion::new(0, 2, 1)).unwrap();
    assert!(matches!(plan, Plan::NoChanges));
    assert!(runner.get_version().is_none());
}

#[test]
fn test_minimum_version() {
    let tree = file(MEMBER, vec![]);
    match run_upgrader(MEMBER, &tree, "0.1.0", "0.3.0") {
        Err(RunError::NotMinimum(dep, min)) => {
            assert_eq!(dep, "upgradee");
            assert_eq!(min, "0.2.0");
        }
        other => panic!("expected a refusal, got {:?}", other),
    }
    assert!(run_upgrader(MEMBER, &tree, "0.1.9", "0.3.0").is_err());
    assert!(run_upgrader(MEMBER, &tree, "0.2.0-rc.1", "0.3.0").is_err());
    assert!(run_upgrader(MEMBER, &tree, "0.2.0", "0.3.0").is_ok());
    assert!(run_upgrader(MEMBER, &tree, "0.2.1", "0.3.0").is_ok());
}

#[test]
fn test_init() {
    let mut nodes = vec![];
    for range in occurrences(MEMBER, "struct_member") {
        nodes.push(referring(NodeKind::FieldExpr, MEMBER, range, Some(Decl::Field(STRUCT_FIELD))));
    }
    match run_upgrader(MEMBER, &file(MEMBER, nodes), "0.4.0", "0.5.0") {
        Err(RunError::Init(id, said)) => {
            assert_eq!(id, INIT_HOOK);
            assert_eq!(said, "Can't upgrade from 0.4.0");
        }
        other => panic!("expected a refusal, got {:?}", other),
    }
    let (out, calls) = run_upgrader(MEMBER, &file(MEMBER, vec![]), "0.4.1", "0.5.0").unwrap();
    assert_eq!(out, MEMBER);
    assert!(calls.is_empty());
    let mut runner = runner().unwrap();
    match runner.start("upgradee", &SemverVersion::new(0, 4, 0), SemverVersion::new(0, 5, 0)).unwrap() {
        Plan::Upgrade { version, peers, init } => {
            assert_eq!(version, 2);
            assert_eq!(peers, vec!["upgradee".to_string()]);
            assert_eq!(init, Some(INIT_HOOK));
        }
        Plan::NoChanges => panic!("a milestone is registered for 0.5.0"),
    }
    assert!(matches!(init(&SemverVersion::parse("0.4.0").unwrap()), Err(RunError::Init(INIT_HOOK, _))));
    assert!(init(&SemverVersion::parse("0.4.1").unwrap()).is_ok());
    assert!(init(&SemverVersion::parse("0.4.0-beta").unwrap()).is_ok());
    assert!(init(&SemverVersion::new(0, 3, 0)).is_ok());
}

#[test]
fn test_hook_on() {
    let mut nodes = vec![];
    for call in ["a.print()", "v.print()", "c.print()"] {
        let whole = occurrences(METHOD, call)[0];
        let name_at = TextRange::new(whole.start + 2, whole.end - 2);
        nodes.push(leaf(Node {
            kind: NodeKind::MethodCallExpr,
            range: whole,
            text: cut(METHOD, whole),
            name: name_ref(METHOD, name_at),
            shorthand: false,
            target: Some(Decl::Method(PRINT)),
        }));
    }
    for range in occurrences(METHOD, "talk") {
        nodes.push(referring(NodeKind::MethodCallExpr, METHOD, range, Some(Decl::Method(TALK))));
    }
    let (out, calls) = run_upgrader(METHOD, &file(METHOD, nodes), "0.5.0", "0.6.0").unwrap();
    let expected = METHOD.replace("a.print()", "member").replace("v.print()", "member").replace("c.print()", "member");
    assert_eq!(out, expected);
    assert!(out.contains("    member;\n"));
    assert!(out.contains("let z = |v: Struct| member;"));
    assert!(out.contains("b.talk();"));
    assert!(!out.contains("print"));
    assert!(calls.is_empty());
}

fn method_calls(text: &str) -> Vec<SyntaxTree> {
    let mut nodes = vec![];
    for (needle, id) in [("print", PRINT), ("talk", TALK), ("eat", EAT)] {
        for range in occurrences(text, needle) {
            nodes.push(referring(NodeKind::MethodCallExpr, text, range, Some(Decl::Method(id))));
        }
    }
    nodes
}

#[test]
fn test_rename_method() {
    let (out, calls) = run_upgrader(METHOD, &file(METHOD, method_calls(METHOD)), "0.2.0", "0.3.0").unwrap();
    assert_eq!(out, METHOD_UPGRADED);
    assert!(calls.is_empty());
}

#[test]
fn test_rename_methods_static() {
    let mut nodes = vec![];
    for (needle, id) in [("print", PRINT), ("talk", TALK), ("eat", EAT)] {
        for range in occurrences(STATICS, needle) {
            nodes.push(referring(NodeKind::PathExpr, STATICS, range, Some(Decl::Method(id))));
        }
    }
    let (out, _) = run_upgrader(STATICS, &file(STATICS, nodes), "0.2.0", "0.3.0").unwrap();
    assert_eq!(out, STATICS_UPGRADED);
}

#[test]
fn test_rename_method_static() {
    let text = "use upgradee::Struct;\n\nfn main() {\n    let a = Struct::print();\n}\n";
    let at = occurrences(text, "print")[0];
    let call = SyntaxTree {
        node: Node {
            kind: NodeKind::CallExpr,
            range: TextRange::new(at.start - 8, at.end + 2),
            text: "Struct::print()".to_string(),
            name: None,
            shorthand: false,
            target: None,
        },
        children: vec![referring(NodeKind::PathExpr, text, at, Some(Decl::Method(PRINT)))],
    };
    let (out, _) = run_upgrader(text, &file(text, vec![call]), "0.2.0", "0.3.0").unwrap();
    assert_eq!(out, "use upgradee::Struct;\n\nfn main() {\n    let a = Struct::print_err();\n}\n");
}

#[test]
fn rename_variants_in_all_six_forms() {
    let forms = |needle: &str| -> Vec<NodeKind> {
        match needle {
            "Orange" => vec![NodeKind::PathExpr, NodeKind::PathExpr, NodeKind::PathPat, NodeKind::IdentPat, NodeKind::IdentPat],
            "Grape" => vec![
                NodeKind::PathExpr,
                NodeKind::TupleStructPat,
                NodeKind::TupleStructPat,
                NodeKind::TupleStructPat,
                NodeKind::TupleStructPat,
            ],
            _ => vec![NodeKind::RecordExpr, NodeKind::RecordPat, NodeKind::RecordPat, NodeKind::RecordPat],
        }
    };
    let mut nodes = vec![];
    for (needle, id) in [("Orange", ORANGE), ("Grape", GRAPE), ("Melon", MELON)] {
        let at = occurrences(VARIANTS, needle);
        let kinds = forms(needle);
        assert_eq!(at.len(), kinds.len());
        for (range, kind) in at.into_iter().zip(kinds) {
            let target = Some(Decl::Variant(id));
            if kind == NodeKind::IdentPat {
                nodes.push(declaring(kind, VARIANTS, range, target));
            } else {
                nodes.push(SyntaxTree {
                    node: referring(kind, VARIANTS, range, target).node,
                    children: vec![referring(NodeKind::Path, VARIANTS, range, target)],
                });
            }
        }
    }
    let (out, _) = run_upgrader(VARIANTS, &file(VARIANTS, nodes), "0.2.0", "0.3.0").unwrap();
    assert_eq!(out, VARIANTS_UPGRADED);
}

#[test]
fn rename_structs_in_paths() {
    let mut nodes = vec![];
    for range in occurrences(STRUCTS, "OldStruct") {
        nodes.push(referring(NodeKind::Path, STRUCTS, range, Some(Decl::Struct(OLD_STRUCT))));
    }
    for range in occurrences(STRUCTS, "struct_member") {
        nodes.push(referring(NodeKind::FieldExpr, STRUCTS, range, Some(Decl::Field(OLD_STRUCT_FIELD))));
    }
    let (out, _) = run_upgrader(STRUCTS, &file(STRUCTS, nodes), "0.2.0", "0.3.0").unwrap();
    assert_eq!(out, STRUCTS_UPGRADED);
}

#[test]
fn upgraded_source_is_left_alone() {
    let mut nodes = vec![];
    for range in occurrences(MEMBER_UPGRADED, "new_s_member") {
        nodes.push(referring(NodeKind::FieldExpr, MEMBER_UPGRADED, range, Some(Decl::Field(STRUCT_FIELD))));
    }
    for range in occurrences(MEMBER_UPGRADED, "new_u_member") {
        nodes.push(referring(NodeKind::RecordExprField, MEMBER_UPGRADED, range, Some(Decl::Field(UNION_FIELD))));
    }
    let tree = file(MEMBER_UPGRADED, nodes);
    let runner = runner().unwrap();
    let steps = walk(runner.milestone(0), &loaded(), &tree);
    assert!(steps.is_empty());
    let (out, _) = run_upgrader(MEMBER_UPGRADED, &tree, "0.2.0", "0.3.0").unwrap();
    assert_eq!(out, MEMBER_UPGRADED);
}

#[test]
fn member_rename_touches_the_identifier_only() {
    let text = "fn s(v: &Struct) {\n    let v = v.struct_member;\n    let w = u.union_member;\n    a.struct_member = false;\n}\n";
    let at = occurrences(text, "struct_member");
    let other = occurrences(text, "union_member")[0];
    let whole = TextRange::new(at[0].start - 2, at[0].end);
    let first = Node {
        kind: NodeKind::FieldExpr,
        range: whole,
        text: cut(text, whole),
        name: name_ref(text, at[0]),
        shorthand: false,
        target: Some(Decl::Field(STRUCT_FIELD)),
    };
    let nodes = vec![
        leaf(first),
        referring(NodeKind::FieldExpr, text, other, Some(Decl::Field(77))),
        referring(NodeKind::FieldExpr, text, at[1], Some(Decl::Field(STRUCT_FIELD))),
    ];
    let version = Version::new("0.3.0").unwrap().rename_members("upgradee::Struct", &[["struct_member", "new_s_member"]]);
    let steps = walk(&version, &loaded(), &file(text, nodes));
    assert_eq!(
        edits_of(&steps),
        vec![
            (at[0].start, at[0].end, "new_s_member".to_string()),
            (at[1].start, at[1].end, "new_s_member".to_string()),
        ]
    );
    let mut upgrader = Upgrader::new();
    assert!(record(&mut upgrader, &steps).is_empty());
    let mut out = text.to_string();
    assert!(upgrader.finish().apply(&mut out));
    assert_eq!(
        out,
        "fn s(v: &Struct) {\n    let v = v.new_s_member;\n    let w = u.union_member;\n    a.new_s_member = false;\n}\n"
    );
}

#[test]
fn same_name_on_another_type_is_left_alone() {
    let text = "fn main() {\n    a.print();\n    other.print();\n    unknown.print();\n}\n";
    let at = occurrences(text, "print");
    let preloader = loaded();
    let runner = runner().unwrap();
    let version = runner.milestone(0);
    let own = referring(NodeKind::MethodCallExpr, text, at[0], Some(Decl::Method(PRINT))).node;
    let of_inner = referring(NodeKind::MethodCallExpr, text, at[1], Some(Decl::Method(24))).node;
    let of_trait = referring(NodeKind::MethodCallExpr, text, at[1], Some(Decl::Method(DISPLAY_FMT))).node;
    let unresolved = referring(NodeKind::MethodCallExpr, text, at[2], None).node;
    let a_field = referring(NodeKind::MethodCallExpr, text, at[2], Some(Decl::Field(STRUCT_FIELD))).node;
    assert_eq!(edits_of(&dispatch(version, &preloader, &own)), vec![(at[0].start, at[0].end, "print_err".to_string())]);
    assert!(dispatch(version, &preloader, &of_inner).is_empty());
    assert!(dispatch(version, &preloader, &of_trait).is_empty());
    assert!(dispatch(version, &preloader, &unresolved).is_empty());
    assert!(dispatch(version, &preloader, &a_field).is_empty());
    assert!(run_hooks(version.rule_list(), &preloader, &of_inner).is_empty());
    assert!(mentions(version.rule_list(), NodeKind::MethodCallExpr, "print"));
    assert!(!mentions(version.rule_list(), NodeKind::FieldExpr, "print"));
    assert!(!mentions(version.rule_list(), NodeKind::MethodCallExpr, "print_err"));
}

#[test]
fn shorthand_field_is_written_out() {
    let built = "let e = Struct { struct_member };";
    let at = occurrences(built, "struct_member")[0];
    let mut node = referring(NodeKind::RecordExprField, built, at, Some(Decl::Field(STRUCT_FIELD))).node;
    node.shorthand = true;
    let (out, _) = run_upgrader(built, &file(built, vec![leaf(node)]), "0.2.0", "0.3.0").unwrap();
    assert_eq!(out, "let e = Struct { new_s_member: struct_member };");

    let matched = "let Struct { ref struct_member } = e;";
    let at = occurrences(matched, "struct_member")[0];
    let whole = TextRange::new(at.start - 4, at.end);
    let node = Node {
        kind: NodeKind::RecordPatField,
        range: whole,
        text: cut(matched, whole),
        name: name(matched, at),
        shorthand: true,
        target: Some(Decl::Field(STRUCT_FIELD)),
    };
    let (out, _) = run_upgrader(matched, &file(matched, vec![leaf(node)]), "0.2.0", "0.3.0").unwrap();
    assert_eq!(out, "let Struct { new_s_member: ref struct_member } = e;");
}

#[test]
fn hooks_for_every_node_run_before_the_rules() {
    let text = "a.print();";
    let at = occurrences(text, "print")[0];
    let version = Version::new("1.0.0")
        .unwrap()
        .hook(NodeKind::MethodCallExpr, 7)
        .hook(NodeKind::CallExpr, 8)
        .rename_methods("upgradee::Struct", &[["print", "print_err"]])
        .hook_on(NodeKind::MethodCallExpr, "upgradee::Struct", "print", 9)
        .hook(NodeKind::MethodCallExpr, 10);
    let node = referring(NodeKind::MethodCallExpr, text, at, Some(Decl::Method(PRINT))).node;
    let steps = dispatch(&version, &loaded(), &node);
    assert_eq!(steps.len(), 4);
    assert!(matches!(steps[0], Step::Call(7)));
    assert!(matches!(steps[1], Step::Call(10)));
    assert!(matches!(&steps[2], Step::Edit(e) if e.insert == "print_err" && e.range == at));
    assert!(matches!(steps[3], Step::Call(9)));
    let mut upgrader = Upgrader::new();
    assert_eq!(record(&mut upgrader, &steps), vec![7, 10, 9]);
    assert_eq!(upgrader.len(), 1);
}

#[test]
fn walk_goes_through_the_tree_in_order() {
    let text = "b.talk().print()";
    let talk = occurrences(text, "talk")[0];
    let print = occurrences(text, "print")[0];
    let inner = referring(NodeKind::MethodCallExpr, text, talk, Some(Decl::Method(TALK)));
    let outer = SyntaxTree {
        node: referring(NodeKind::MethodCallExpr, text, print, Some(Decl::Method(PRINT))).node,
        children: vec![inner],
    };
    let runner = runner().unwrap();
    let steps = walk(runner.milestone(0), &loaded(), &file(text, vec![outer]));
    assert_eq!(
        edits_of(&steps),
        vec![(print.start, print.end, "print_err".to_string()), (talk.start, talk.end, "talk_err".to_string())]
    );
    let mut upgrader = Upgrader::new();
    record(&mut upgrader, &steps);
    let mut out = text.to_string();
    assert!(upgrader.finish().apply(&mut out));
    assert_eq!(out, "b.talk_err().print_err()");
}

#[test]
fn preloader_records_owners() {
    let preloader = loaded();
    let owner = |d: Decl| preloader.owner(d).cloned();
    assert_eq!(owner(Decl::Struct(100)), Some("upgradee".to_string()));
    assert_eq!(owner(Decl::Struct(OLD_STRUCT)), Some("upgradee".to_string()));
    assert_eq!(owner(Decl::Struct(104)), Some("upgradee::inner".to_string()));
    assert_eq!(owner(Decl::Struct(101)), None);
    assert_eq!(owner(Decl::Struct(106)), None);
    assert_eq!(owner(Decl::Field(STRUCT_FIELD)), Some("upgradee::Struct".to_string()));
    assert_eq!(owner(Decl::Field(UNION_FIELD)), Some("upgradee::Union".to_string()));
    assert_eq!(owner(Decl::Field(4)), Some("upgradee::inner::Deep".to_string()));
    assert_eq!(owner(Decl::Field(5)), None);
    assert_eq!(owner(Decl::Variant(ORANGE)), Some("upgradee::Enum".to_string()));
    assert_eq!(owner(Decl::Variant(13)), Some("upgradee::inner::most::Kind".to_string()));
    assert_eq!(owner(Decl::Method(PRINT)), Some("upgradee::Struct".to_string()));
    assert_eq!(owner(Decl::Method(EAT)), Some("upgradee::Union".to_string()));
    assert_eq!(owner(Decl::Method(24)), Some("upgradee::inner::Deep".to_string()));
    assert_eq!(owner(Decl::Method(DISPLAY_FMT)), None);
    assert_eq!(owner(Decl::Method(77)), None);
    assert_eq!(owner(Decl::Field(ORANGE)), None);
}

#[test]
fn preloader_loads_a_package_once() {
    let mut preloader = Preloader::new();
    assert!(!preloader.is_loaded("upgradee"));
    preloader.load("upgradee", &upgradee());
    assert!(preloader.is_loaded("upgradee"));
    let emptied = Module { name: None, declarations: vec![], impls: vec![], children: vec![] };
    let other = Module {
        name: None,
        declarations: vec![Adt { kind: AdtKind::Struct, id: 100, name: "Moved".to_string(), members: vec![STRUCT_FIELD] }],
        impls: vec![],
        children: vec![],
    };
    preloader.load("upgradee", &other);
    assert_eq!(preloader.owner(Decl::Field(STRUCT_FIELD)).cloned(), Some("upgradee::Struct".to_string()));
    preloader.load("peer", &emptied);
    assert!(preloader.is_loaded("peer"));
    assert!(!preloader.is_loaded("upgrade"));
    preloader.load("later", &other);
    assert_eq!(preloader.owner(Decl::Field(STRUCT_FIELD)).cloned(), Some("later::Moved".to_string()));
    assert_eq!(preloader.owner(Decl::Struct(100)).cloned(), Some("later".to_string()));
}

#[test]
fn runner_chooses_the_first_milestone_for_a_version() {
    let mut runner = Runner::new()
        .version(Version::new("1.0.0").unwrap().peers(&["first-peer"]))
        .version(Version::new("2.0.0").unwrap())
        .version(Version::new("1.0.0").unwrap().peers(&["second-peer"]));
    assert!(runner.get_version().is_none());
    assert_eq!(runner.position(), None);
    runner.select(SemverVersion::new(1, 0, 0));
    assert_eq!(runner.position(), Some(0));
    assert_eq!(runner.get_version().unwrap().peer_list(), &vec!["first_peer".to_string()]);
    runner.select(SemverVersion::new(2, 0, 0));
    assert_eq!(runner.position(), Some(1));
    runner.select(SemverVersion::parse("2.0.0-beta").unwrap());
    assert_eq!(runner.position(), None);
    match runner.start("my-dep", &SemverVersion::new(0, 0, 1), SemverVersion::new(1, 0, 0)).unwrap() {
        Plan::Upgrade { version, peers, init } => {
            assert_eq!(version, 0);
            assert_eq!(peers, vec!["my-dep".to_string(), "first_peer".to_string()]);
            assert_eq!(init, None);
            assert_eq!(cargo_up::runner::find_peer(&peers, "first-peer"), Some(1));
            assert_eq!(cargo_up::runner::find_peer(&peers, "first_peer"), Some(1));
            assert_eq!(cargo_up::runner::find_peer(&peers, "my-dep"), Some(0));
            assert_eq!(cargo_up::runner::find_peer(&peers, "my_dep"), Some(0));
            assert_eq!(cargo_up::runner::find_peer(&peers, "second-peer"), None);
        }
        Plan::NoChanges => panic!("a milestone is registered for 1.0.0"),
    }
}

#[test]
fn minimum_must_spell_a_version() {
    assert!(Runner::new().minimum("1.40").is_err());
    assert!(Version::new("not a version").is_err());
    let runner = Runner::new().minimum("1.40.0").unwrap();
    assert!(runner.check_minimum("rust", &SemverVersion::new(1, 39, 9)).is_err());
    assert!(runner.check_minimum("rust", &SemverVersion::new(1, 40, 0)).is_ok());
    assert!(Runner::new().check_minimum("rust", &SemverVersion::new(0, 0, 0)).is_ok());
}

#[test]
fn sample_runner_holds_four_milestones() {
    let runner = runner().unwrap();
    let rules: Vec<usize> = (0..4).map(|i| runner.milestone(i).rule_list().len()).collect();
    assert_eq!(rules, vec![1 + 3 + 3 + 18 + 2 + 2 + 2, 2, 0, 1]);
    for i in 0..4 {
        assert!(runner.milestone(i).hook_list().is_empty());
        assert!(runner.milestone(i).peer_list().is_empty());
        assert_eq!(runner.milestone(i).init_id(), if i == 2 { Some(INIT_HOOK) } else { None });
    }
    let first = runner.milestone(0);
    assert!(first.version().same(&SemverVersion::new(0, 3, 0)));
    assert!(first.hook_list().is_empty());
    assert_eq!(first.init_id(), None);
    assert_eq!(first.rule_list()[0].kind, NodeKind::Path);
    assert_eq!(first.rule_list()[0].path, "upgradee");
    assert_eq!(first.rule_list()[0].name, "OldStruct");
    assert_eq!(runner.milestone(2).init_id(), Some(INIT_HOOK));
}

#[test]
fn end_to_end_member_rename() {
    let text = "fn main() {\n    a.struct_member = false;\n    let v = v.struct_member;\n    let w = c.union_member;\n}\n";
    let package = Module {
        name: None,
        declarations: vec![
            Adt { kind: AdtKind::Struct, id: 1, name: "Struct".to_string(), members: vec![10] },
            Adt { kind: AdtKind::Union, id: 2, name: "Union".to_string(), members: vec![11] },
        ],
        impls: vec![],
        children: vec![],
    };
    let mut preloader = Preloader::new();
    preloader.load("pkg", &package);
    let version = Version::new("0.3.0").unwrap().rename_members("pkg::Struct", &[["struct_member", "new_s_member"]]);
    let mut nodes = vec![];
    for range in occurrences(text, "struct_member") {
        nodes.push(referring(NodeKind::FieldExpr, text, range, Some(Decl::Field(10))));
    }
    for range in occurrences(text, "union_member") {
        nodes.push(referring(NodeKind::FieldExpr, text, range, Some(Decl::Field(11))));
    }
    let steps = walk(&version, &preloader, &file(text, nodes));
    assert_eq!(steps.len(), 2);
    let mut upgrader = Upgrader::new();
    assert!(record(&mut upgrader, &steps).is_empty());
    let mut out = text.to_string();
    assert!(upgrader.finish().apply(&mut out));
    assert_eq!(
        out,
        "fn main() {\n    a.new_s_member = false;\n    let v = v.new_s_member;\n    let w = c.union_member;\n}\n"
    );
    assert_eq!(out.len(), text.len() - 2);
}

#[test]
fn full_name_runs_from_the_package_down_to_the_module() {
    let names = |list: &[&str]| -> Vec<String> { list.iter().map(|s| s.to_string()).collect() };
    assert_eq!(full_name(&names(&["arg", "args"]), Some("clap")), "clap::args::arg");
    assert_eq!(full_name(&names(&["arg", "args"]), None), "args::arg");
    assert_eq!(full_name(&names(&["arg"]), None), "arg");
    assert_eq!(full_name(&names(&[]), Some("clap")), "clap");
    assert_eq!(full_name(&names(&[]), None), "");
    assert_eq!(full_name(&names(&["", "a"]), Some("")), "::a::");
}

#[test]
fn a_method_of_a_type_in_a_module_is_renamed() {
    let clap = Module {
        name: None,
        declarations: vec![],
        impls: vec![],
        children: vec![Module {
            name: Some("args".to_string()),
            declarations: vec![],
            impls: vec![],
            children: vec![Module {
                name: Some("arg".to_string()),
                declarations: vec![Adt { kind: AdtKind::Struct, id: 1, name: "Arg".to_string(), members: vec![] }],
                impls: vec![Impl { target: Some(1), of_trait: false, methods: vec![2] }],
                children: vec![],
            }],
        }],
    };
    let mut preloader = Preloader::new();
    preloader.load("clap", &clap);
    let owner = format!("{}::Arg", full_name(&vec!["arg".to_string(), "args".to_string()], Some("clap")));
    assert_eq!(preloader.owner(Decl::Method(2)).cloned(), Some(owner.clone()));
    let version = Version::new("3.0.0").unwrap().rename_methods(&owner, &[["help", "about"]]);
    let text = "Arg::new(\"x\").help(\"y\")";
    let at = occurrences(text, "help")[0];
    let steps = dispatch(&version, &preloader, &referring(NodeKind::MethodCallExpr, text, at, Some(Decl::Method(2))).node);
    assert_eq!(edits_of(&steps), vec![(at.start, at.end, "about".to_string())]);
}

#[test]
fn a_method_is_owned_by_the_type_where_the_type_is_declared() {
    let module = |name: &str, declarations: Vec<Adt>, impls: Vec<Impl>, children: Vec<Module>| Module {
        name: if name.is_empty() { None } else { Some(name.to_string()) },
        declarations,
        impls,
        children,
    };
    let package = module(
        "",
        vec![],
        vec![Impl { target: Some(1), of_trait: false, methods: vec![10] }],
        vec![
            module("b", vec![], vec![Impl { target: Some(1), of_trait: false, methods: vec![11] }], vec![]),
            module(
                "a",
                vec![Adt { kind: AdtKind::Enum, id: 1, name: "T".to_string(), members: vec![20] }],
                vec![
                    Impl { target: Some(1), of_trait: false, methods: vec![12] },
                    Impl { target: Some(1), of_trait: true, methods: vec![13] },
                    Impl { target: Some(99), of_trait: false, methods: vec![14] },
                ],
                vec![],
            ),
        ],
    );
    let mut preloader = Preloader::new();
    preloader.load("pkg", &package);
    for method in [10, 11, 12] {
        assert_eq!(preloader.owner(Decl::Method(method)).cloned(), Some("pkg::a::T".to_string()));
    }
    assert_eq!(preloader.owner(Decl::Method(13)), None);
    assert_eq!(preloader.owner(Decl::Method(14)), None);
    assert_eq!(preloader.owner(Decl::Variant(20)).cloned(), Some("pkg::a::T".to_string()));
    let version = Version::new("1.0.0").unwrap().rename_methods("pkg::a::T", &[["old", "new"]]);
    let text = "t.old()";
    let at = occurrences(text, "old")[0];
    let steps = dispatch(&version, &preloader, &referring(NodeKind::MethodCallExpr, text, at, Some(Decl::Method(11))).node);
    assert_eq!(edits_of(&steps), vec![(at.start, at.end, "new".to_string())]);
}
