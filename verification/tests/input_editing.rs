//! The input buffer: grapheme-aware editing.

use dmenu_rs::config::Config;
use dmenu_rs::input::InputState;
use dmenu_rs::item::{Item, Items};
use dmenu_rs::plugins::{
    calc_apply_result, calc_expression, format_input, postprocess_matches, spellcheck_normalize,
    FormatterChoice, PostOutcome, PostprocessChoice,
};
use dmenu_rs::run::Menu;

fn buffer_with(text: &str) -> InputState {
    let mut b = InputState::new();
    b.insert_text(text);
    b
}

#[test]
fn insert_advances_by_grapheme_count() {
    let mut b = InputState::new();
    b.insert_text("ab");
    assert_eq!(b.cursor(), 2);
    assert_eq!(b.grapheme_count(), 2);
    // a combining accent joins its base letter into one cluster
    b.insert_text("e\u{301}");
    assert_eq!(b.grapheme_count(), 3);
    assert_eq!(b.cursor(), 3);
    assert_eq!(b.text_string(), "abe\u{301}");
}

#[test]
fn insert_then_delete_left_is_identity() {
    for g in ["x", "e\u{301}", "\u{1F1F7}\u{1F1FA}"] {
        let mut b = buffer_with("hello");
        b.home();
        b.move_right();
        b.move_right();
        let before_text = b.text_string();
        let before_cursor = b.cursor();
        b.insert_text(g);
        assert!(b.delete_left());
        assert_eq!(b.text_string(), before_text);
        assert_eq!(b.cursor(), before_cursor);
    }
}

#[test]
fn delete_right_removes_the_cluster_under_the_cursor() {
    let mut b = buffer_with("ae\u{301}b");
    b.home();
    b.move_right();
    assert!(b.delete_right());
    assert_eq!(b.text_string(), "ab");
    assert_eq!(b.cursor(), 1);
    // at the end nothing happens
    b.end();
    assert!(!b.delete_right());
    assert_eq!(b.text_string(), "ab");
}

#[test]
fn deletes_at_the_edges_are_no_ops() {
    let mut b = buffer_with("ab");
    b.home();
    assert!(!b.delete_left());
    assert_eq!(b.text_string(), "ab");
}

#[test]
fn clears_truncate_around_the_cursor() {
    let mut b = buffer_with("hello world");
    b.home();
    for _ in 0..5 {
        b.move_right();
    }
    b.clear_right_of_cursor();
    assert_eq!(b.text_string(), "hello");
    assert_eq!(b.cursor(), 5);
    let mut b = buffer_with("hello world");
    b.home();
    for _ in 0..6 {
        b.move_right();
    }
    b.clear_left_of_cursor();
    assert_eq!(b.text_string(), "world");
    assert_eq!(b.cursor(), 0);
}

#[test]
fn delete_word_left_takes_spaces_then_the_word() {
    let mut b = buffer_with("one two   ");
    b.delete_word_left();
    assert_eq!(b.text_string(), "one ");
    assert_eq!(b.cursor(), 4);
    b.delete_word_left();
    assert_eq!(b.text_string(), "");
    assert_eq!(b.cursor(), 0);
    // empty buffer: nothing to do
    b.delete_word_left();
    assert_eq!(b.text_string(), "");
}

#[test]
fn delete_word_right_takes_spaces_then_the_word() {
    let mut b = buffer_with("one   two three");
    b.home();
    for _ in 0..3 {
        b.move_right();
    }
    b.delete_word_right();
    assert_eq!(b.text_string(), "one three");
    assert_eq!(b.cursor(), 3);
}

#[test]
fn word_jumps_skip_spaces_then_the_word() {
    let mut b = buffer_with("one  two");
    b.jump_word_left();
    assert_eq!(b.cursor(), 5);
    b.jump_word_left();
    assert_eq!(b.cursor(), 0);
    b.jump_word_right();
    assert_eq!(b.cursor(), 3);
    b.jump_word_right();
    assert_eq!(b.cursor(), 8);
}

#[test]
fn paste_strips_line_breaks_and_expands_tabs() {
    let mut b = buffer_with("<>");
    b.home();
    b.move_right();
    b.paste("a\r\nb\tc");
    assert_eq!(b.text_string(), "<ab    c>");
    assert_eq!(b.cursor(), 1 + 7);
}

#[test]
fn suffix_and_prefix_views() {
    let mut b = buffer_with("hello");
    b.home();
    b.move_right();
    b.move_right();
    assert_eq!(b.suffix_string(), "llo");
    assert_eq!(b.prefix_string(2), "he");
}

#[test]
fn replace_with_moves_the_cursor_to_the_end() {
    let mut b = buffer_with("old");
    b.home();
    b.replace_with("new text");
    assert_eq!(b.text_string(), "new text");
    assert_eq!(b.cursor(), 8);
}

#[test]
fn password_formatter_masks_every_cluster() {
    let b = buffer_with("se\u{301}cret");
    let masked = format_input(&b, FormatterChoice::Password);
    assert_eq!(masked, "******");
    let plain = format_input(&b, FormatterChoice::Plain);
    assert_eq!(plain, "se\u{301}cret");
}

#[test]
fn spellcheck_normalize_drops_spaces_and_keeps_the_cursor() {
    let mut b = buffer_with("ab cd ef");
    b.home();
    for _ in 0..4 {
        b.move_right();
    }
    // cursor sits after "ab c"
    spellcheck_normalize(&mut b);
    assert_eq!(b.text_string(), "abcdef");
    assert_eq!(b.cursor(), 3);
}

#[test]
fn maxlength_commits_a_long_enough_input() {
    let mut m = Menu::new(Config::default(), Items::new(Vec::new()));
    m.input.insert_text("abcdef");
    match postprocess_matches(&m, Vec::new(), PostprocessChoice::MaxLength(4)) {
        PostOutcome::EarlyDispose(t) => assert_eq!(t, "abcd"),
        PostOutcome::Show(_) => panic!("expected an early dispose"),
    }
    match postprocess_matches(&m, Vec::new(), PostprocessChoice::MaxLength(10)) {
        PostOutcome::Show(v) => assert!(v.is_empty()),
        PostOutcome::EarlyDispose(_) => panic!("expected the list back"),
    }
    // zero disables the limit
    match postprocess_matches(&m, Vec::new(), PostprocessChoice::MaxLength(0)) {
        PostOutcome::Show(_) => {},
        PostOutcome::EarlyDispose(_) => panic!("expected the list back"),
    }
}

#[test]
fn autoselect_commits_a_single_match() {
    let m = Menu::new(Config::default(), Items::new(Vec::new()));
    let one = vec![Item::new("only".to_string(), false, 1)];
    match postprocess_matches(&m, one, PostprocessChoice::AutoSelect) {
        PostOutcome::EarlyDispose(t) => assert_eq!(t, "only"),
        PostOutcome::Show(_) => panic!("expected an early dispose"),
    }
    let two = vec![
        Item::new("a".to_string(), false, 1),
        Item::new("b".to_string(), false, 1),
    ];
    match postprocess_matches(&m, two, PostprocessChoice::AutoSelect) {
        PostOutcome::Show(v) => assert_eq!(v.len(), 2),
        PostOutcome::EarlyDispose(_) => panic!("expected the list back"),
    }
}

#[test]
fn calc_expression_and_result() {
    let mut m = Menu::new(Config::default(), Items::new(Vec::new()));
    m.config.prompt = "2+2".to_string();
    m.input.insert_text("* 3");
    assert_eq!(calc_expression(&m), "2+2 * 3");
    calc_apply_result(&mut m, "12".to_string());
    assert_eq!(m.config.prompt, "12");
    assert_eq!(m.input.text_string(), "");
    assert_eq!(m.input.cursor(), 0);
}
