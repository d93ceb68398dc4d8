//! The navigator and the keystroke state machine.
use dmenu_rs::item::{Item, Items, Partition};
use dmenu_rs::run::{Action, Key, KeyEvent, Menu};
use dmenu_rs::config::Config;
use dmenu_rs::drw::FrameWidths;
use dmenu_rs::pages::Layout;

fn page(texts: &[&str]) -> Partition {
    let data = texts.iter().map(|t| Item::new(t.to_string(), false, 10)).collect();
    Partition::new(data, 0)
}

fn menu_with_pages(pages: Vec<Partition>) -> Menu {
    let mut items = Items::new(Vec::new());
    items.cached_partitions = pages;
    Menu::new(Config::default(), items)
}

fn plain_key(key: Key) -> KeyEvent {
    KeyEvent { key, chord: None, ctrl: false, mod1: false, shift: false, text: String::new() }
}

fn text_key(text: &str) -> KeyEvent {
    KeyEvent {
        key: Key::Other,
        chord: None,
        ctrl: false,
        mod1: false,
        shift: false,
        text: text.to_string(),
    }
}

#[test]
fn resolve_walks_pages_in_order() {
    let pages = vec![page(&["a", "b"]), page(&["c", "d", "e"]), page(&["f"])];
    // every global index lands on the right (local, page) pair
    let expect = [(0, 0), (1, 0), (0, 1), (1, 1), (2, 1), (0, 2)];
    for (i, (local, pg)) in expect.iter().enumerate() {
        assert_eq!(Partition::decompose(&pages, i), (*local, *pg));
    }
}

#[test]
fn home_and_end_jump_to_the_edges() {
    let mut m = menu_with_pages(vec![page(&["a", "b"]), page(&["c"])]);
    m.items.curr = 1;
    assert!(matches!(m.keyprocess(plain_key(Key::End)), Action::Redraw));
    assert_eq!(m.items.curr, 2);
    assert!(matches!(m.keyprocess(plain_key(Key::Home)), Action::Redraw));
    assert_eq!(m.items.curr, 0);
}

#[test]
fn home_and_end_without_pages_do_nothing() {
    let mut m = menu_with_pages(vec![]);
    assert!(matches!(m.keyprocess(plain_key(Key::Home)), Action::NoRedraw));
    assert!(matches!(m.keyprocess(plain_key(Key::End)), Action::NoRedraw));
    assert_eq!(m.items.curr, 0);
}

#[test]
fn up_and_down_clamp_at_the_edges() {
    let mut m = menu_with_pages(vec![page(&["a", "b", "c"])]);
    assert!(matches!(m.keyprocess(plain_key(Key::Up)), Action::NoRedraw));
    assert!(matches!(m.keyprocess(plain_key(Key::Down)), Action::Redraw));
    assert_eq!(m.items.curr, 1);
    assert!(matches!(m.keyprocess(plain_key(Key::Down)), Action::Redraw));
    assert!(matches!(m.keyprocess(plain_key(Key::Down)), Action::NoRedraw));
    assert_eq!(m.items.curr, 2);
}

#[test]
fn paging_jumps_to_page_starts() {
    let mut m = menu_with_pages(vec![page(&["a", "b"]), page(&["c", "d", "e"]), page(&["f"])]);
    m.items.curr = 1;
    assert!(matches!(m.keyprocess(plain_key(Key::PageDown)), Action::Redraw));
    assert_eq!(m.items.curr, 2);
    assert!(matches!(m.keyprocess(plain_key(Key::PageDown)), Action::Redraw));
    assert_eq!(m.items.curr, 5);
    // already on the last page
    assert!(matches!(m.keyprocess(plain_key(Key::PageDown)), Action::NoRedraw));
    assert!(matches!(m.keyprocess(plain_key(Key::PageUp)), Action::Redraw));
    assert_eq!(m.items.curr, 2);
    assert!(matches!(m.keyprocess(plain_key(Key::PageUp)), Action::Redraw));
    assert_eq!(m.items.curr, 0);
    assert!(matches!(m.keyprocess(plain_key(Key::PageUp)), Action::NoRedraw));
}

#[test]
fn tab_autocompletes_to_the_selection() {
    let mut m = menu_with_pages(vec![page(&["alpha", "beta"])]);
    m.items.curr = 1;
    m.input.insert_text("be");
    let r = m.keyprocess(plain_key(Key::Tab));
    assert!(matches!(r, Action::Redraw));
    assert_eq!(m.input.text_string(), "beta");
    assert_eq!(m.input.cursor(), 4);
    assert_eq!(m.items.curr, 0);
}

#[test]
fn tab_with_no_matches_changes_nothing() {
    let mut m = menu_with_pages(vec![]);
    m.input.insert_text("query");
    m.input.home();
    let r = m.keyprocess(plain_key(Key::Tab));
    assert!(matches!(r, Action::NoRedraw));
    assert_eq!(m.input.text_string(), "query");
    assert_eq!(m.input.cursor(), 0);
    assert_eq!(m.items.curr, 0);
}

#[test]
fn return_commits_the_selection_or_the_input() {
    let mut m = menu_with_pages(vec![page(&["alpha", "beta"])]);
    m.items.curr = 1;
    m.input.insert_text("raw text");
    match m.keyprocess(plain_key(Key::Return)) {
        Action::Dispose { output, recommend_exit } => {
            assert_eq!(output, "beta");
            assert!(recommend_exit);
        },
        other => panic!("expected a dispose action, got {:?}", other),
    }
    // Shift commits the raw input
    let mut ev = plain_key(Key::Return);
    ev.shift = true;
    match m.keyprocess(ev) {
        Action::Dispose { output, recommend_exit } => {
            assert_eq!(output, "raw text");
            assert!(recommend_exit);
        },
        other => panic!("expected a dispose action, got {:?}", other),
    }
    // Control recommends keeping the session open
    let mut ev = plain_key(Key::Return);
    ev.ctrl = true;
    match m.keypress(ev) {
        Action::Dispose { recommend_exit, .. } => assert!(!recommend_exit),
        other => panic!("expected a dispose action, got {:?}", other),
    }
}

#[test]
fn escape_quits_with_an_error() {
    let mut m = menu_with_pages(vec![]);
    match m.keyprocess(plain_key(Key::Escape)) {
        Action::Quit(dmenu_rs::Die::Stderr(msg)) => assert_eq!(msg, ""),
        other => panic!("expected a quit action, got {:?}", other),
    }
}

#[test]
fn arrows_move_selection_only_at_end_of_text() {
    let mut m = menu_with_pages(vec![page(&["a", "b", "c"])]);
    m.input.insert_text("hi");
    // cursor at end, horizontal layout: Right moves the selection
    assert!(matches!(m.keyprocess(plain_key(Key::Right)), Action::Redraw));
    assert_eq!(m.items.curr, 1);
    assert_eq!(m.input.cursor(), 2);
    // Left with a selection set moves it back
    assert!(matches!(m.keyprocess(plain_key(Key::Left)), Action::Redraw));
    assert_eq!(m.items.curr, 0);
    // still at end of text: Left clamps at the first entry and never
    // touches the text cursor
    assert!(matches!(m.keyprocess(plain_key(Key::Left)), Action::NoRedraw));
    assert_eq!(m.input.cursor(), 2);
    assert_eq!(m.items.curr, 0);
    // cursor not at end: the arrows move the cursor, not the selection
    m.input.home();
    assert!(matches!(m.keyprocess(plain_key(Key::Right)), Action::Redraw));
    assert_eq!(m.input.cursor(), 1);
    assert!(matches!(m.keyprocess(plain_key(Key::Left)), Action::Redraw));
    assert_eq!(m.input.cursor(), 0);
    assert_eq!(m.items.curr, 0);
}

#[test]
fn vertical_layout_arrows_always_move_the_cursor() {
    let mut m = menu_with_pages(vec![page(&["a", "b"])]);
    m.config.lines = 5;
    m.input.insert_text("hi");
    assert!(matches!(m.keyprocess(plain_key(Key::Right)), Action::NoRedraw));
    assert_eq!(m.items.curr, 0);
    assert!(matches!(m.keyprocess(plain_key(Key::Left)), Action::Redraw));
    assert_eq!(m.input.cursor(), 1);
}

#[test]
fn typed_text_resets_the_selection() {
    let mut m = menu_with_pages(vec![page(&["a", "b"])]);
    m.items.curr = 1;
    assert!(matches!(m.keyprocess(text_key("x")), Action::Redraw));
    assert_eq!(m.items.curr, 0);
    assert_eq!(m.input.text_string(), "x");
}

#[test]
fn control_chords_translate_to_their_commands() {
    let mut m = menu_with_pages(vec![page(&["a", "b"])]);
    m.input.insert_text("hello");
    // Ctrl-A translates to Home, which drives the selection
    let ev = KeyEvent {
        key: Key::Other,
        chord: Some('a'),
        ctrl: true,
        mod1: false,
        shift: false,
        text: String::new(),
    };
    m.items.curr = 1;
    assert!(matches!(m.keypress(ev), Action::Redraw));
    assert_eq!(m.items.curr, 0);
    // Ctrl-K clears right of the cursor
    m.input.home();
    m.input.move_right();
    let ev = KeyEvent {
        key: Key::Other,
        chord: Some('k'),
        ctrl: true,
        mod1: false,
        shift: false,
        text: String::new(),
    };
    assert!(matches!(m.keypress(ev), Action::Redraw));
    assert_eq!(m.input.text_string(), "h");
    // Ctrl-Y asks the caller to paste
    let ev = KeyEvent {
        key: Key::Other,
        chord: Some('y'),
        ctrl: true,
        mod1: false,
        shift: false,
        text: String::new(),
    };
    assert!(matches!(m.keypress(ev), Action::RequestPaste));
}

#[test]
fn alt_chords_jump_word_boundaries() {
    let mut m = menu_with_pages(vec![page(&["a"])]);
    m.input.insert_text("one  two");
    let alt = |c: char| KeyEvent {
        key: Key::Other,
        chord: Some(c),
        ctrl: false,
        mod1: true,
        shift: false,
        text: String::new(),
    };
    // Alt-b jumps to the start of the word on the left, not one step
    assert!(matches!(m.keypress(alt('b')), Action::Redraw));
    assert_eq!(m.input.cursor(), 5);
    assert!(matches!(m.keypress(alt('b')), Action::Redraw));
    assert_eq!(m.input.cursor(), 0);
    // Alt-f jumps past the word on the right
    assert!(matches!(m.keypress(alt('f')), Action::Redraw));
    assert_eq!(m.input.cursor(), 3);
    assert!(matches!(m.keypress(alt('f')), Action::Redraw));
    assert_eq!(m.input.cursor(), 8);
    // Ctrl-b stays a single step of the text cursor
    m.input.home();
    m.input.move_right();
    m.input.move_right();
    let ctrl_b = KeyEvent {
        key: Key::Other,
        chord: Some('b'),
        ctrl: true,
        mod1: false,
        shift: false,
        text: String::new(),
    };
    assert!(matches!(m.keypress(ctrl_b), Action::Redraw));
    assert_eq!(m.input.cursor(), 1);
}

#[test]
fn selected_text_follows_the_selection() {
    let mut m = menu_with_pages(vec![page(&["a", "b"]), page(&["c"])]);
    m.items.curr = 2;
    assert_eq!(m.items.selected_text(), Some("c".to_string()));
    m.items.curr = 0;
    assert_eq!(m.items.selected_text(), Some("a".to_string()));
}

#[test]
fn rebuild_pages_clamps_a_stale_selection() {
    let mut m = menu_with_pages(vec![page(&["a", "b"]), page(&["c"])]);
    m.items.curr = 2;
    let matched = vec![Item::new("a".to_string(), false, 10)];
    let lay = Layout { avail_w: 100, prompt_w: 0, input_w: 0 };
    let fw = FrameWidths { langle_w: 2, rangle_w: 2, query_w: 5 };
    let (drawable, _inputw) = m.rebuild_pages(matched, &lay, &fw);
    assert!(drawable);
    assert_eq!(m.items.curr, 0);
    let total: usize = m.items.cached_partitions.iter().map(|p| p.data.len()).sum();
    assert_eq!(total, 1);
}
