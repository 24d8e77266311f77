//! End-to-end tests of the formatter: parsing, rendering, spacing,
//! primitive resolution, diagnostics, and trailing normalization.

use strandfmt::ast::{Diagnostic, DiagnosticKind, Item, Word};
use strandfmt::driver::{format_items, needs_write};

#[test]
fn idempotent_simple() {
    let once = strandfmt::driver::format("1 2 add").unwrap();
    assert_eq!(once, "1 2+\n");
    let twice = strandfmt::driver::format(&once).unwrap();
    assert_eq!(twice, once);
}

#[test]
fn idempotent_mixed_document() {
    let src = "# intro\nf = 1 2\nf len [3 4]\n";
    let once = strandfmt::driver::format(src).unwrap();
    let twice = strandfmt::driver::format(&once).unwrap();
    assert_eq!(twice, once);
}

#[test]
fn strand_round_trip() {
    let out = strandfmt::driver::format("1_2_3 x").unwrap();
    assert_eq!(out, "1_2_3 x\n");
}

#[test]
fn strand_followed_by_ident_gets_one_space() {
    let items = vec![Item::Words(vec![
        Word::Strand(vec![Word::Number(1), Word::Number(2), Word::Number(3)]),
        Word::Ident(String::from("x")),
    ])];
    let out = format_items(items).unwrap();
    assert_eq!(out, "1_2_3 x\n");
}

#[test]
fn unbound_primitive_name_renders_canonical_form() {
    assert_eq!(strandfmt::driver::format("add").unwrap(), "+\n");
    assert_eq!(strandfmt::driver::format("len").unwrap(), "len\n");
}

#[test]
fn bound_name_shadows_primitive() {
    let out = strandfmt::driver::format("add = 1\nadd").unwrap();
    assert_eq!(out, "add = 1\nadd\n");
}

#[test]
fn binding_right_hand_side_sees_earlier_state() {
    // Inside its own defining expression the name is not yet bound, so
    // it still resolves to the primitive.
    let out = strandfmt::driver::format("add = add 1").unwrap();
    assert_eq!(out, "add = +1\n");
}

#[test]
fn all_or_nothing_diagnostics() {
    let err = strandfmt::driver::format("1 2\n'x").unwrap_err();
    assert_eq!(err.len(), 1);
    assert_eq!(err[0].kind, DiagnosticKind::UnclosedChar);
    assert_eq!(err[0].span.line, 1);
}

#[test]
fn trailing_blank_lines_normalize_to_one_newline() {
    assert_eq!(strandfmt::driver::format("1 2\n\n\n").unwrap(), "1 2\n");
    assert_eq!(strandfmt::driver::format("1 2").unwrap(), "1 2\n");
}

#[test]
fn empty_input_formats_to_single_newline() {
    assert_eq!(strandfmt::driver::format("").unwrap(), "\n");
}

#[test]
fn interior_blank_lines_are_kept() {
    assert_eq!(strandfmt::driver::format("1\n\n2").unwrap(), "1\n\n2\n");
}

#[test]
fn comment_gets_canonical_prefix() {
    assert_eq!(strandfmt::driver::format("#hello world").unwrap(), "# hello world\n");
    assert_eq!(strandfmt::driver::format("# hello world").unwrap(), "# hello world\n");
}

#[test]
fn adjacent_numbers_are_separated() {
    let items = vec![Item::Words(vec![Word::Number(1), Word::Number(2)])];
    assert_eq!(format_items(items).unwrap(), "1 2\n");
}

#[test]
fn adjacent_idents_are_separated() {
    assert_eq!(strandfmt::driver::format("x y").unwrap(), "x y\n");
}

#[test]
fn alphabetic_primitive_is_spaced_from_neighbours() {
    assert_eq!(strandfmt::driver::format("1 len 2").unwrap(), "1 len 2\n");
}

#[test]
fn char_literal_is_escaped() {
    let items = vec![Item::Words(vec![Word::Char('\n')])];
    assert_eq!(format_items(items).unwrap(), "'\\n'\n");
    assert_eq!(strandfmt::driver::format("'\\n'").unwrap(), "'\\n'\n");
}

#[test]
fn string_literal_is_escaped() {
    let items = vec![Item::Words(vec![Word::Str(String::from("a\"b"))])];
    assert_eq!(format_items(items).unwrap(), "\"a\\\"b\"\n");
    assert_eq!(strandfmt::driver::format("\"a\\\"b\"").unwrap(), "\"a\\\"b\"\n");
}

#[test]
fn duplicate_binding_is_reported() {
    let err = strandfmt::driver::format("x = 1\nx = 2").unwrap_err();
    assert_eq!(err.len(), 1);
    assert_eq!(err[0].kind, DiagnosticKind::DuplicateBinding);
    assert_eq!(err[0].span.line, 1);
}

#[test]
fn clean_input_needs_no_write() {
    let input = String::from("1 2\n");
    let formatted = strandfmt::driver::format(&input).unwrap();
    assert!(!needs_write(&input, &formatted));
}

#[test]
fn changed_input_needs_a_write() {
    let input = String::from("1   2");
    let formatted = strandfmt::driver::format(&input).unwrap();
    assert_eq!(formatted, "1 2\n");
    assert!(needs_write(&input, &formatted));
}

#[test]
fn unexpected_character_is_reported() {
    let err = strandfmt::driver::format("@").unwrap_err();
    assert_eq!(err.len(), 1);
    assert_eq!(err[0].kind, DiagnosticKind::UnexpectedChar('@'));
}

#[test]
fn unclosed_string_is_reported() {
    let err = strandfmt::driver::format("\"abc").unwrap_err();
    assert_eq!(err[0].kind, DiagnosticKind::UnclosedString);
}

#[test]
fn unclosed_group_is_reported() {
    let err = strandfmt::driver::format("[1 2").unwrap_err();
    assert_eq!(err[0].kind, DiagnosticKind::UnclosedGroup);
}

#[test]
fn unexpected_closer_is_reported() {
    let err = strandfmt::driver::format("]").unwrap_err();
    assert_eq!(err[0].kind, DiagnosticKind::UnexpectedClose);
}

#[test]
fn bad_escape_is_reported() {
    let err = strandfmt::driver::format("\"a\\qb\"").unwrap_err();
    assert_eq!(err[0].kind, DiagnosticKind::BadEscape);
}

#[test]
fn number_too_large_is_reported() {
    let err = strandfmt::driver::format("18446744073709551616").unwrap_err();
    assert_eq!(err[0].kind, DiagnosticKind::NumberTooLarge);
}

#[test]
fn largest_number_is_kept_exactly() {
    assert_eq!(strandfmt::driver::format("18446744073709551615").unwrap(), "18446744073709551615\n");
}

#[test]
fn arrays_and_functions_render_with_brackets() {
    assert_eq!(strandfmt::driver::format("[1 2]").unwrap(), "[1 2]\n");
    assert_eq!(strandfmt::driver::format("(1 2)").unwrap(), "(1 2)\n");
    assert_eq!(strandfmt::driver::format("(1|2)").unwrap(), "(1|2)\n");
}

#[test]
fn nested_array_opens_without_space() {
    let out = strandfmt::driver::format("[1 [2 3]]").unwrap();
    assert_eq!(out, "[1[2 3]]\n");
    let twice = strandfmt::driver::format(&out).unwrap();
    assert_eq!(twice, out);
}

#[test]
fn modified_word_spaces_through_modifier_rule() {
    let items = vec![Item::Words(vec![Word::Modified(
        Box::new(Word::Ident(String::from("rev"))),
        Box::new(Word::Number(1)),
    )])];
    assert_eq!(format_items(items).unwrap(), "rev 1\n");
}

#[test]
fn selector_is_spaced_after_alphabetic_text() {
    let items = vec![Item::Words(vec![
        Word::Ident(String::from("x")),
        Word::Selector(String::from("sel")),
    ])];
    assert_eq!(format_items(items).unwrap(), "x sel\n");
}

#[test]
fn diagnostics_suppress_all_output() {
    let err: Vec<Diagnostic> = strandfmt::driver::format("1 2 3\n@").unwrap_err();
    assert!(!err.is_empty());
}
