//! The manual-page composer, the file-test tool and the remaining helpers.

use dmenu_rs::config::{
    check_color_format, parse_decimal_bounded, parse_default_width, Config, ConfigDefault,
    DefaultWidth,
};
use dmenu_rs::drw::Spool;
use dmenu_rs::manpage::{join_strings, u32_to_string, Manpage};
use dmenu_rs::plugins::{
    create_search_input, engine_lookup, engine_names, engine_of_prompt, substitute_query,
};
use dmenu_rs::stest::{test_verdict, File, Probes, Semigroup, TestPlan};
use dmenu_rs::{CompResult, Die};

#[test]
fn manpage_renders_every_section() {
    let mut m = Manpage::new("demo", "1.0", 1);
    m.desc_short("pick a line");
    m.description("demo", "picks one line from standard input");
    m.build("built by hand");
    m.plugin("extra".to_string(), "adds\nthings".to_string());
    m.arg(Some('b'), None, vec![], "bottom".to_string());
    m.arg(Some('l'), None, vec!["lines".to_string()], "list vertically".to_string());
    m.arg(None, Some("debug".to_string()), vec![], "log more".to_string());
    m.arg(
        Some('m'),
        Some("monitor".to_string()),
        vec!["id".to_string()],
        "monitor to use".to_string(),
    );
    let page = m.render("usage text", "see also text");
    let expected = ".TH DEMO 1 demo\\-1.0\n\
        .SH NAME\ndemo \\- pick a line\n\
        .SH SYNOPSIS\n.B demo\n\
        .RB [ \\-b ]\n\
        .RB [ \\-l\n.IR lines ]\n\
        .RB [ \\-\\-debug ]\n\
        .RB [ \\-m|\\-\\-monitor\n.IR id ]\n\
        \n.P\n.BR dmenu_run \" ...\"\n\
        .SH BUILD\nbuilt by hand\n\
        dmenu-rs has been compiled with the following plugins:\n\
        .TP\n.B extra\nadds\n.br\nthings\n\
        .SH DESCRIPTION\n.B demo\npicks one line from standard input\n\
        .SH OPTIONS\n\
        .TP\n.B \\-b\nbottom\n\
        .TP\n.BI \\-l \" lines\"\nlist vertically\n\
        .TP\n.BI \\-\\-debug \" \"\nlog more\n\
        .TP\n\\fB\\-m\\fP \\fIid\\/\\fP, \\fB\\-\\-\\fPmonitor \\fIid\\/\\fP \nmonitor to use\n\
        \nusage text\n\
        see also text";
    assert_eq!(page, expected);
}

#[test]
fn argstrs_partition_flags_by_kind() {
    let mut m = Manpage::new("demo", "0.1", 1);
    m.arg(Some('a'), None, vec![], "first".to_string());
    m.arg(Some('b'), None, vec![], "second".to_string());
    let (synopsis, options) = m.gen_argstrs();
    // bare short flags bundle into one bracket
    assert!(synopsis.contains(".RB [ \\-ab ]"));
    assert!(options.starts_with(".SH OPTIONS\n.TP\n.B \\-a\nfirst\n.TP\n.B \\-b\nsecond\n"));
}

#[test]
fn numbers_render_in_decimal() {
    assert_eq!(u32_to_string(0), "0");
    assert_eq!(u32_to_string(7), "7");
    assert_eq!(u32_to_string(105), "105");
    assert_eq!(u32_to_string(4294967295), "4294967295");
}

#[test]
fn joining_strings_matches_iterator_join() {
    assert_eq!(join_strings(&vec![], ", "), "");
    assert_eq!(join_strings(&vec!["a".to_string()], ", "), "a");
    assert_eq!(join_strings(&vec!["a".to_string(), "b".to_string()], ", "), "a, b");
}

#[test]
fn hidden_files_start_with_a_dot() {
    assert!(File::from(".config".to_string()).is_hidden());
    assert!(File::from("dir/.hidden".to_string()).is_hidden());
    assert!(File::from("dir/.hidden/".to_string()).is_hidden());
    assert!(!File::from("plain".to_string()).is_hidden());
    assert!(!File::from(".".to_string()).is_hidden());
    assert!(!File::from("..".to_string()).is_hidden());
    assert!(!File::from("".to_string()).is_hidden());
    assert!(!File::from("dir/.hidden/visible".to_string()).is_hidden());
}

#[test]
fn file_name_drops_the_directory_part() {
    let named = File::from("a/b/c.txt".to_string()).clone_with_path_as_file_name().unwrap();
    assert_eq!(named.path_string(), "c.txt");
    assert!(File::from("a/..".to_string()).clone_with_path_as_file_name().is_none());
    assert!(File::from("".to_string()).clone_with_path_as_file_name().is_none());
}

#[test]
fn permission_bits() {
    assert!(File::is_readable(0o400));
    assert!(!File::is_readable(0o200));
    assert!(File::is_writable(0o020));
    assert!(!File::is_writable(0o111));
    assert!(File::is_executable(0o001));
    assert!(!File::is_executable(0o666));
    assert!(File::has_set_group_id(0o2755));
    assert!(!File::has_set_group_id(0o755));
    assert!(File::has_set_user_id(0o4755));
    assert!(!File::has_set_user_id(0o755));
}

#[test]
fn modification_time_ordering() {
    assert!(File::is_newer_than(10, 0, 9, 999));
    assert!(File::is_newer_than(10, 5, 10, 4));
    assert!(!File::is_newer_than(10, 4, 10, 4));
    assert!(File::is_older_than(9, 999, 10, 0));
    assert!(!File::is_older_than(10, 4, 10, 4));
}

fn all_pass() -> Probes {
    Probes {
        is_hidden: true,
        is_block_special: true,
        is_character_special: true,
        is_directory: true,
        exists: true,
        is_file: true,
        has_set_group_id: true,
        is_symbolic_link: true,
        is_newer_than_oldest: true,
        is_older_than_newest: true,
        is_pipe: true,
        is_readable: true,
        has_size_greater_than_zero: true,
        has_set_user_id: true,
        is_writable: true,
        is_executable: true,
    }
}

fn no_tests() -> TestPlan {
    TestPlan {
        requires_each_file_is_hidden: false,
        requires_each_file_is_block_special: false,
        requires_each_file_is_character_special: false,
        requires_each_file_is_directory: false,
        requires_each_file_exists: false,
        requires_each_file_is_file: false,
        requires_each_file_has_set_group_id: false,
        requires_each_file_is_symbolic_link: false,
        requires_each_file_is_newer_than_oldest: false,
        requires_each_file_is_older_than_newest: false,
        requires_each_file_is_pipe: false,
        requires_each_file_is_readable: false,
        requires_each_file_has_size_greater_than_zero: false,
        requires_each_file_has_set_user_id: false,
        requires_each_file_is_writable: false,
        requires_each_file_is_executable: false,
        has_inverted_tests: false,
    }
}

#[test]
fn verdict_tests_only_what_is_enabled() {
    let mut probes = all_pass();
    probes.is_hidden = false;
    let mut plan = no_tests();
    assert!(test_verdict(&plan, &probes));
    plan.requires_each_file_is_hidden = true;
    assert!(!test_verdict(&plan, &probes));
    plan.requires_each_file_is_hidden = false;
    plan.requires_each_file_is_readable = true;
    assert!(test_verdict(&plan, &probes));
    plan.has_inverted_tests = true;
    assert!(!test_verdict(&plan, &probes));
}

#[test]
fn semigroup_combines_by_appending() {
    let a = vec![1, 2];
    let b = vec![3];
    assert_eq!(a.combine(b), vec![1, 2, 3]);
}

#[test]
fn search_engine_prompts() {
    let prompt = create_search_input("ddg").unwrap();
    assert_eq!(prompt, "[Search ddg]");
    assert_eq!(engine_of_prompt(&prompt), "ddg");
    match create_search_input("nonsense") {
        Err(dmenu_rs::Die::Stderr(msg)) => assert!(msg.starts_with("Invalid search engine nonsense")),
        other => panic!("expected an error, got {:?}", other),
    }
    assert_eq!(
        substitute_query("https://duckduckgo.com/%s", "verus"),
        "https://duckduckgo.com/verus"
    );
    assert_eq!(substitute_query("no placeholder", "x"), "no placeholder");
    assert_eq!(substitute_query("%s%s", "ab"), "abab");
}

#[test]
fn engine_table_lookup() {
    assert_eq!(engine_lookup("crates"), Some("https://crates.io/crates/%s"));
    assert_eq!(engine_lookup("unknown"), None);
    assert_eq!(engine_names().len(), 8);
}

#[test]
fn color_format_checks() {
    assert!(check_color_format("#aabbcc"));
    assert!(check_color_format("#abc"));
    assert!(check_color_format("#AABB00"));
    assert!(!check_color_format("aabbcc"));
    assert!(!check_color_format("#abcd"));
    assert!(!check_color_format("#gggggg"));
    assert!(!check_color_format("#aabbcc "));
}

#[test]
fn width_policy_flag_parsing() {
    assert_eq!(parse_default_width("min"), Some((DefaultWidth::Min, false)));
    assert_eq!(parse_default_width("items"), Some((DefaultWidth::Items, false)));
    assert_eq!(parse_default_width("max"), Some((DefaultWidth::Max, true)));
    assert_eq!(parse_default_width("custom=25"), Some((DefaultWidth::Custom(25), false)));
    assert_eq!(parse_default_width("custom=101"), None);
    assert_eq!(parse_default_width("custom="), None);
    assert_eq!(parse_default_width("custom=abc"), None);
    assert_eq!(parse_default_width("wide"), None);
}

#[test]
fn bounded_decimal_parsing() {
    assert_eq!(parse_decimal_bounded("0", 100), Some(0));
    assert_eq!(parse_decimal_bounded("100", 100), Some(100));
    assert_eq!(parse_decimal_bounded("101", 100), None);
    assert_eq!(parse_decimal_bounded("", 100), None);
    assert_eq!(parse_decimal_bounded("12a", 100), None);
    assert_eq!(parse_decimal_bounded("4294967295", u32::MAX as u64), Some(4294967295));
}

#[test]
fn spool_pops_one_character_at_a_time() {
    let mut s = Spool::new();
    s.push(("ab".to_string(), Some(0)));
    s.push(("c".to_string(), Some(1)));
    // a single-character slice comes off whole
    let (text, font) = s.pop();
    assert_eq!(text, "c");
    assert_eq!(font, Some(1));
    // a longer slice loses only its last character
    let (text, font) = s.pop();
    assert_eq!(text, "b");
    assert_eq!(font, Some(0));
    let (text, _) = s.pop();
    assert_eq!(text, "a");
}

#[test]
fn spool_ellipsis_trimming() {
    let mut s = Spool::new();
    s.push(("long".to_string(), Some(0)));
    s.push((".".to_string(), Some(0)));
    s.push((".".to_string(), Some(0)));
    s.push((".".to_string(), Some(0)));
    // the character comes off the slice before the three ellipsis dots
    s.elipse_pop();
    assert_eq!(s.data[0].0, "lon");
    assert_eq!(s.data.len(), 4);
    s.elipse_pop();
    s.elipse_pop();
    assert_eq!(s.data[0].0, "l");
    assert_eq!(s.data.len(), 4);
    // a slice down to one character is dropped whole
    s.elipse_pop();
    assert_eq!(s.data.len(), 3);
    // with only the ellipsis left, slices come off the end
    s.elipse_pop();
    assert_eq!(s.data.len(), 2);
}

#[test]
fn die_helpers_pick_the_stream() {
    let out: CompResult<()> = Die::stdout("done".to_string());
    assert_eq!(out, Err(Die::Stdout("done".to_string())));
    let err: CompResult<()> = Die::stderr("bad".to_string());
    assert_eq!(err, Err(Die::Stderr("bad".to_string())));
    assert_eq!(Die::Stdout("m".to_string()).message(), "m");
}

#[test]
fn config_defaults() {
    let c = Config::default();
    assert_eq!(c.lines, 0);
    assert!(c.topbar);
    assert!(c.case_sensitive);
    assert_eq!(c.mon, -1);
    assert_eq!(c.render_default_width, DefaultWidth::Items);
    assert_eq!(ConfigDefault::colors().len(), 3);
    assert_eq!(ConfigDefault::colors()[0].fg, "#bbbbbb");
    assert_eq!(ConfigDefault::fontstrings(), vec!["mono:size=10"]);
}
