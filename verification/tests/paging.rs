//! The paginator: chunked and flowing layouts.
use dmenu_rs::item::{Direction, Item};
use dmenu_rs::pages::{partition_matches, Layout};
use dmenu_rs::config::{Config, DefaultWidth};
use dmenu_rs::drw::flex_input_width;
use dmenu_rs::drw::intersect;

fn sized_items(widths: &[i32]) -> Vec<Item> {
    widths
        .iter()
        .enumerate()
        .map(|(k, w)| Item::new(format!("item{}", k + 1), false, *w))
        .collect()
}

fn flow_config() -> Config {
    let mut cfg = Config::default();
    cfg.lines = 0;
    // a fixed-percentage policy neither seeds the first page with the
    // back glyph nor forces page breaks
    cfg.render_default_width = DefaultWidth::Custom(50);
    cfg
}

fn page_texts(p: &dmenu_rs::item::Partition) -> Vec<String> {
    p.data.iter().map(|it| it.text.clone()).collect()
}

#[test]
fn chunked_pages_of_two() {
    let mut cfg = Config::default();
    cfg.lines = 2;
    let items = sized_items(&[1, 1, 1, 1, 1]);
    let lay = Layout { avail_w: 100, prompt_w: 0, input_w: 0 };
    let pages = partition_matches(items, &Direction::Vertical, &cfg, &lay, 0, 0);
    assert_eq!(pages.len(), 3);
    assert_eq!(page_texts(&pages[0]), vec!["item1", "item2"]);
    assert_eq!(page_texts(&pages[1]), vec!["item3", "item4"]);
    assert_eq!(page_texts(&pages[2]), vec!["item5"]);
    assert!(pages.iter().all(|p| p.leftover == 0));
}

#[test]
fn chunked_page_count_is_rounded_up() {
    let mut cfg = Config::default();
    cfg.lines = 3;
    for (n, expect) in [(0usize, 0usize), (1, 1), (3, 1), (4, 2), (9, 3), (10, 4)] {
        let items = sized_items(&vec![1; n]);
        let lay = Layout { avail_w: 100, prompt_w: 0, input_w: 0 };
        let pages = partition_matches(items, &Direction::Vertical, &cfg, &lay, 0, 0);
        assert_eq!(pages.len(), expect);
        assert!(pages.iter().all(|p| !p.data.is_empty()));
    }
}

#[test]
fn flow_breaks_before_the_more_glyph() {
    // available width 100, prompt and input reserve 20, the trailing
    // "more" glyph reserves 5: items of width 30 fit twice (20+30+30=80
    // is at most 95), the third would overrun (110 > 95)
    let cfg = flow_config();
    let items = sized_items(&[30, 30, 30, 30]);
    let lay = Layout { avail_w: 100, prompt_w: 20, input_w: 0 };
    let pages = partition_matches(items, &Direction::Horizontal, &cfg, &lay, 0, 5);
    assert_eq!(pages.len(), 2);
    assert_eq!(page_texts(&pages[0]), vec!["item1", "item2"]);
    assert_eq!(page_texts(&pages[1]), vec!["item3", "item4"]);
    // slack of the first page: 95 - 80
    assert_eq!(pages[0].leftover, 15);
}

#[test]
fn flow_single_page_skips_the_more_glyph() {
    // 20 + 30 + 52 = 102 overruns 100 - 5, but with no glyph to draw on a
    // single complete page everything fits: no break happens
    let cfg = flow_config();
    let items = sized_items(&[30, 52]);
    let lay = Layout { avail_w: 100, prompt_w: 20, input_w: 0 };
    let pages = partition_matches(items, &Direction::Horizontal, &cfg, &lay, 0, 5);
    assert_eq!(pages.len(), 1);
    assert_eq!(page_texts(&pages[0]), vec!["item1", "item2"]);
}

#[test]
fn flow_covers_everything_in_order() {
    let cfg = flow_config();
    let items = sized_items(&[40, 40, 40, 40, 40, 40, 40]);
    let lay = Layout { avail_w: 100, prompt_w: 0, input_w: 0 };
    let pages = partition_matches(items, &Direction::Horizontal, &cfg, &lay, 7, 5);
    let mut flat: Vec<String> = Vec::new();
    for p in &pages {
        assert!(!p.data.is_empty());
        flat.extend(page_texts(p));
    }
    let expect: Vec<String> = (1..=7).map(|k| format!("item{}", k)).collect();
    assert_eq!(flat, expect);
}

#[test]
fn flow_maximised_policy_forces_one_item_per_page() {
    let mut cfg = flow_config();
    cfg.render_default_width = DefaultWidth::Max;
    let items = sized_items(&[5, 5, 5]);
    let lay = Layout { avail_w: 100, prompt_w: 0, input_w: 0 };
    let pages = partition_matches(items, &Direction::Horizontal, &cfg, &lay, 2, 2);
    assert_eq!(pages.len(), 3);
    assert!(pages.iter().all(|p| p.data.len() == 1));
}

#[test]
fn flow_never_leaves_an_empty_page() {
    // an item wider than the whole bar still lands on a page of its own
    let cfg = flow_config();
    let items = sized_items(&[500, 30]);
    let lay = Layout { avail_w: 100, prompt_w: 0, input_w: 0 };
    let pages = partition_matches(items, &Direction::Horizontal, &cfg, &lay, 0, 5);
    assert!(pages.iter().all(|p| !p.data.is_empty()));
    let total: usize = pages.iter().map(|p| p.data.len()).sum();
    assert_eq!(total, 2);
}

#[test]
fn input_width_policies() {
    let matched = sized_items(&[30, 60]);
    let all = sized_items(&[30, 60, 90]);
    // Min: widest matched entry, capped by a third and by the query width
    let w = dmenu_rs::drw::compute_input_width(
        DefaultWidth::Min,
        &matched,
        &all,
        0,
        300,
        10,
        45,
        4,
        5,
    );
    assert_eq!(w, 45.min(60).min(100));
    // Items: widest source entry, capped by a third
    let w = dmenu_rs::drw::compute_input_width(
        DefaultWidth::Items,
        &matched,
        &all,
        0,
        240,
        10,
        45,
        4,
        5,
    );
    assert_eq!(w, 80);
    // Max: whatever the selected entry leaves over
    let w = dmenu_rs::drw::compute_input_width(
        DefaultWidth::Max,
        &matched,
        &all,
        0,
        300,
        10,
        45,
        4,
        5,
    );
    assert_eq!(w, 300 - 10 - 30 - 5);
    // Custom: a fixed percentage
    let w = dmenu_rs::drw::compute_input_width(
        DefaultWidth::Custom(25),
        &matched,
        &all,
        0,
        300,
        10,
        45,
        4,
        5,
    );
    assert_eq!(w, 75);
}

#[test]
fn flex_growth_is_capped_by_slack() {
    // wants 90, has 50, slack 30: grows to 80
    assert_eq!(flex_input_width(50, 90, 30), 80);
    // slack covers the whole wish: grows to the wish
    assert_eq!(flex_input_width(50, 60, 30), 60);
    // nothing to grow
    assert_eq!(flex_input_width(50, 40, 30), 50);
}

#[test]
fn cursor_offset_formula() {
    assert_eq!(dmenu_rs::drw::cursor_offset(100, 30, 10), 100 - 30 + 5 - 1);
}

#[test]
fn intersect_areas() {
    assert_eq!(intersect(0, 0, 10, 10, 5, 5, 10, 10), 25);
    assert_eq!(intersect(0, 0, 10, 10, 20, 20, 5, 5), 0);
    assert_eq!(intersect(0, 0, 4, 4, 0, 0, 4, 4), 16);
}
