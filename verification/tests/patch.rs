use cargo_up::visitor::{Name, NameRef, Path, PathSegment};
use cargo_up::{Edit, Patch, TextRange, ToTextRange, Upgrader};

fn patch_of(edits: Vec<(u32, u32, &str)>) -> Patch {
    let mut upgrader = Upgrader::new();
    for (start, end, text) in edits {
        upgrader.replace(TextRange::new(start, end), text);
    }
    upgrader.finish()
}

#[test]
fn apply_replaces_deletes_and_inserts() {
    let mut text = "_11h1_2222_xx3333_4444_6666".to_owned();
    let mut upgrader = Upgrader::new();
    upgrader.replace(TextRange::new(3, 4), "1");
    upgrader.delete(TextRange::new(11, 13));
    upgrader.insert(22, "_5555".to_owned());
    assert_eq!(upgrader.len(), 3);
    let patch = upgrader.finish();
    assert!(patch.apply(&mut text));
    assert_eq!(text, "_1111_2222_3333_4444_5555_6666");
}

#[test]
fn apply_does_not_depend_on_the_order_of_recording() {
    let mut forward = "let v = v.struct_member; a.struct_member = false;".to_owned();
    let mut backward = forward.clone();
    assert!(patch_of(vec![(10, 23, "new_s_member"), (27, 40, "new_s_member")]).apply(&mut forward));
    assert!(patch_of(vec![(27, 40, "new_s_member"), (10, 23, "new_s_member")]).apply(&mut backward));
    assert_eq!(forward, "let v = v.new_s_member; a.new_s_member = false;");
    assert_eq!(backward, forward);
}

#[test]
fn single_edit_changes_only_its_span() {
    let mut text = "abcdef".to_owned();
    assert!(patch_of(vec![(2, 4, "XYZ")]).apply(&mut text));
    assert_eq!(text, "abXYZef");
}

#[test]
fn empty_patch_leaves_text_as_it_is() {
    let mut text = "fn main() {}\n".to_owned();
    let patch = Upgrader::new().finish();
    assert!(patch.is_empty());
    assert_eq!(patch.len(), 0);
    assert!(patch.fits(&text));
    assert!(patch.apply(&mut text));
    assert_eq!(text, "fn main() {}\n");
}

#[test]
fn touching_edits_are_both_made() {
    let mut text = "0123456789".to_owned();
    assert!(patch_of(vec![(5, 7, "B"), (2, 5, "A"), (5, 5, "-")]).apply(&mut text));
    assert_eq!(text, "01A-B789");
}

#[test]
fn inserts_at_one_offset_keep_their_order() {
    let mut text = "ab".to_owned();
    assert!(patch_of(vec![(1, 1, "x"), (1, 1, "y")]).apply(&mut text));
    assert_eq!(text, "axyb");
}

#[test]
fn overlapping_edits_are_refused() {
    let mut text = "0123456789".to_owned();
    let patch = patch_of(vec![(2, 6, "A"), (5, 8, "B")]);
    assert!(!patch.fits(&text));
    assert!(!patch.apply(&mut text));
    assert_eq!(text, "0123456789");
}

#[test]
fn the_same_span_twice_is_refused() {
    let mut text = "0123456789".to_owned();
    assert!(!patch_of(vec![(2, 6, "A"), (2, 6, "A")]).apply(&mut text));
    assert_eq!(text, "0123456789");
}

#[test]
fn edit_beyond_the_text_is_refused() {
    let mut text = "abc".to_owned();
    assert!(!patch_of(vec![(2, 4, "x")]).apply(&mut text));
    assert_eq!(text, "abc");
    assert!(patch_of(vec![(3, 3, "x")]).apply(&mut text));
    assert_eq!(text, "abcx");
}

#[test]
fn backward_span_is_refused() {
    let mut text = "abc".to_owned();
    assert!(!patch_of(vec![(2, 1, "x")]).apply(&mut text));
    assert_eq!(text, "abc");
}

#[test]
fn edit_that_splits_a_character_is_refused() {
    let mut text = "h\u{e9}llo".to_owned();
    assert!(!patch_of(vec![(2, 3, "e")]).apply(&mut text));
    assert_eq!(text, "h\u{e9}llo");
    assert!(patch_of(vec![(1, 3, "e")]).apply(&mut text));
    assert_eq!(text, "hello");
}

#[test]
fn finish_hands_over_the_edits_and_starts_anew() {
    let mut upgrader = Upgrader::default();
    upgrader.replace(TextRange::new(0, 1), "x");
    upgrader.push(Edit { range: TextRange::empty(4), insert: "y".to_owned() });
    upgrader.add_dep();
    upgrader.add_feature();
    let patch = upgrader.finish();
    assert_eq!(upgrader.len(), 0);
    assert_eq!(patch.len(), 2);
    assert_eq!(patch.edits()[0].range, TextRange::new(0, 1));
    assert_eq!(patch.edits()[0].insert, "x");
    assert_eq!(patch.edits()[1].range, TextRange::new(4, 4));
    assert_eq!(patch.edits()[1].insert, "y");
    assert!(upgrader.finish().is_empty());
}

#[test]
fn spans_of_syntax_pieces_are_those_of_their_identifiers() {
    let print = NameRef { text: "print".to_string(), range: TextRange::new(8, 13) };
    let path = Path { segment: Some(PathSegment { name_ref: Some(print.clone()) }) };
    assert_eq!(TextRange::new(1, 2).to(), TextRange::new(1, 2));
    assert_eq!(Some(print.clone()).to(), TextRange::new(8, 13));
    assert_eq!(path.segment.clone().to(), TextRange::new(8, 13));
    assert_eq!(Some(Name { text: "a".to_string(), range: TextRange::new(0, 1) }).to(), TextRange::new(0, 1));

    let mut text = "Struct::print()".to_owned();
    let mut upgrader = Upgrader::new();
    upgrader.replace(Some(path), "print_err");
    upgrader.delete(Some(NameRef { text: "Struct".to_string(), range: TextRange::new(0, 6) }));
    assert!(upgrader.finish().apply(&mut text));
    assert_eq!(text, "::print_err()");
}

#[test]
fn apply_agrees_with_the_text_edit_crate() {
    let text = "let v = v.struct_member; a.struct_member = false; // h\u{e9}!";
    let edits = vec![(27u32, 40u32, "new_s_member"), (10, 23, "renamed"), (24, 24, "/* */"), (0, 3, ""), (54, 56, "e")];
    let mut builder = ra_ap_text_edit::TextEdit::builder();
    for (start, end, insert) in &edits {
        builder.replace(ra_ap_text_edit::TextRange::new((*start).into(), (*end).into()), insert.to_string());
    }
    let mut theirs = text.to_owned();
    builder.finish().apply(&mut theirs);
    let mut ours = text.to_owned();
    assert!(patch_of(edits).apply(&mut ours));
    assert_eq!(ours, theirs);
    assert_eq!(ours, " v = v.renamed;/* */ a.new_s_member = false; // he!");
}

#[test]
fn many_edits_recorded_in_any_order_are_all_made() {
    let text: String = (0..40).map(|i| format!("w{:02} ", i)).collect();
    let mut edits: Vec<(u32, u32, String)> = (0..40u32).map(|i| (i * 4, i * 4 + 3, format!("<{}>", i))).collect();
    edits.extend((0..40u32).map(|i| (i * 4 + 3, i * 4 + 3, ";".to_string())));
    let scrambled: Vec<(u32, u32, String)> = (0..edits.len()).map(|k| edits[(k * 37 + 11) % edits.len()].clone()).collect();
    assert_eq!(scrambled.len(), 80);

    let mut upgrader = Upgrader::new();
    let mut builder = ra_ap_text_edit::TextEdit::builder();
    for (start, end, insert) in &scrambled {
        upgrader.replace(TextRange::new(*start, *end), insert);
        builder.replace(ra_ap_text_edit::TextRange::new((*start).into(), (*end).into()), insert.clone());
    }
    let mut ours = text.clone();
    assert!(upgrader.finish().apply(&mut ours));
    let mut theirs = text.clone();
    builder.finish().apply(&mut theirs);
    let expected: String = (0..40).map(|i| format!("<{}>; ", i)).collect();
    assert_eq!(ours, expected);
    assert_eq!(ours, theirs);
}
