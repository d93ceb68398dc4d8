//! Runtime configuration of the menu and its compiled-in defaults, and the
//! checks that command-line values must pass before they land here.

use vstd::prelude::*;

verus! {

/// Color scheme slots used while drawing.
#[derive(Clone, Copy, PartialEq, Eq, Structural, Debug)]
pub enum Schemes {
    SchemeNorm,
    SchemeSel,
    SchemeOut,
    SchemeLast,
}

/// Foreground / background selector within one scheme.
#[derive(Clone, Copy, PartialEq, Eq, Structural, Debug)]
pub enum Clrs {
    ColFg,
    ColBg,
}

/// Policy for the width reserved for the input box in horizontal layout.
#[derive(Clone, Copy, PartialEq, Eq, Structural, Debug)]
pub enum DefaultWidth {
    /// Width of the widest matched item, capped by a third of the menu and
    /// by the width of the query itself.
    Min,
    /// Width of the widest source item, capped by a third of the menu.
    Items,
    /// Whatever is left after the selected item and the arrow glyphs.
    Max,
    /// A fixed percentage of the available width.
    Custom(u8),
}

/// One foreground / background pair, as hex color strings.
#[derive(Clone, Debug)]
pub struct SchemeColors {
    pub fg: String,
    pub bg: String,
}

/// Everything the engine needs to know about how the menu was invoked.
#[derive(Clone, Debug)]
pub struct Config {
    /// Number of vertical lines; `0` selects the horizontal flow layout.
    pub lines: u32,
    pub topbar: bool,
    pub prompt: String,
    pub fontstrings: Vec<String>,
    pub fast: bool,
    pub embed: u64,
    pub case_sensitive: bool,
    pub mon: i32,
    /// Normal, selected and output scheme colors, in that order.
    pub colors: Vec<SchemeColors>,
    pub nostdin: bool,
    pub render_minheight: u32,
    pub render_overrun: bool,
    pub render_flex: bool,
    pub render_rightalign: bool,
    pub render_default_width: DefaultWidth,
}

/// The compiled-in default for every configuration knob.
pub struct ConfigDefault {}

impl ConfigDefault {
    pub fn lines() -> (r: u32)
        ensures
            r == 0,
    {
        0
    }

    pub fn topbar() -> (r: bool)
        ensures
            r,
    {
        true
    }

    pub fn prompt() -> (r: String)
        ensures
            r@ == Seq::<char>::empty(),
    {
        String::new()
    }

    pub fn fontstrings() -> (r: Vec<String>)
        ensures
            r@.len() == 1,
            r@[0]@ == "mono:size=10"@,
    {
        let mut v: Vec<String> = Vec::new();
        v.push("mono:size=10".to_owned());
        v
    }

    pub fn fast() -> (r: bool)
        ensures
            !r,
    {
        false
    }

    pub fn embed() -> (r: u64)
        ensures
            r == 0,
    {
        0
    }

    pub fn case_sensitive() -> (r: bool)
        ensures
            r,
    {
        true
    }

    pub fn mon() -> (r: i32)
        ensures
            r == -1,
    {
        -1
    }

    pub fn colors() -> (r: Vec<SchemeColors>)
        ensures
            r@.len() == 3,
            r@[0].fg@ == "#bbbbbb"@ && r@[0].bg@ == "#222222"@,
            r@[1].fg@ == "#eeeeee"@ && r@[1].bg@ == "#005577"@,
            r@[2].fg@ == "#000000"@ && r@[2].bg@ == "#00ffff"@,
    {
        let mut v: Vec<SchemeColors> = Vec::new();
        v.push(SchemeColors { fg: "#bbbbbb".to_owned(), bg: "#222222".to_owned() });
        v.push(SchemeColors { fg: "#eeeeee".to_owned(), bg: "#005577".to_owned() });
        v.push(SchemeColors { fg: "#000000".to_owned(), bg: "#00ffff".to_owned() });
        v
    }

    pub fn nostdin() -> (r: bool)
        ensures
            !r,
    {
        false
    }

    pub fn render_minheight() -> (r: u32)
        ensures
            r == 4,
    {
        4
    }

    pub fn render_overrun() -> (r: bool)
        ensures
            !r,
    {
        false
    }

    pub fn render_flex() -> (r: bool)
        ensures
            !r,
    {
        false
    }

    pub fn render_rightalign() -> (r: bool)
        ensures
            !r,
    {
        false
    }

    pub fn render_default_width() -> (r: DefaultWidth)
        ensures
            r == DefaultWidth::Items,
    {
        DefaultWidth::Items
    }
}

/// A hexadecimal digit, either case.
pub open spec fn is_hex_digit(c: char) -> bool {
    ('0' <= c && c <= '9') || ('a' <= c && c <= 'f') || ('A' <= c && c <= 'F')
}

/// A color flag value: `#` followed by exactly six or exactly three hex
/// digits.
pub open spec fn is_hex_color(s: Seq<char>) -> bool {
    (s.len() == 7 || s.len() == 4) && s[0] == '#' && (forall|i: int|
        1 <= i < s.len() ==> is_hex_digit(#[trigger] s[i]))
}

/// Relies on `regex::RegexBuilder` and `regex::Regex::is_match` with the
/// anchored pattern `^#([A-Fa-f0-9]{6}|[A-Fa-f0-9]{3})$`: it accepts
/// exactly the hex color shape.  The constant pattern always compiles, so
/// the unwrap never fires.
#[verifier::external_body]
fn regex_is_hex_color(s: &str) -> (r: bool)
    ensures
        r == is_hex_color(s@),
{
    let re = regex::RegexBuilder::new("^#([A-Fa-f0-9]{6}|[A-Fa-f0-9]{3})$").case_insensitive(
        true,
    ).build().unwrap();
    re.is_match(s)
}

/// Whether a color flag value has the hex shape.
pub fn check_color_format(s: &str) -> (r: bool)
    ensures
        r == is_hex_color(s@),
{
    regex_is_hex_color(s)
}

/// A non-empty run of decimal digits.
pub open spec fn is_decimal(s: Seq<char>) -> bool {
    s.len() > 0 && (forall|i: int| 0 <= i < s.len() ==> '0' <= #[trigger] s[i] <= '9')
}

/// The number a run of decimal digits denotes.
pub open spec fn decimal_value(s: Seq<char>) -> int
    decreases s.len(),
{
    if s.len() == 0 {
        0
    } else {
        decimal_value(s.drop_last()) * 10 + (s.last() as int - '0' as int)
    }
}

/// Parse a bounded decimal number: digits only, value at most `max`.
pub fn parse_decimal_bounded(s: &str, max: u64) -> (r: Option<u64>)
    ensures
        r matches Some(v) ==> is_decimal(s@) && v == decimal_value(s@) && v <= max,
        r is None <==> !is_decimal(s@) || decimal_value(s@) > max,
{
    let n = s.unicode_len();
    if n == 0 {
        return Option::None;
    }
    let mut v: u64 = 0;
    let mut i: usize = 0;
    while i < n
        invariant
            i <= n,
            n == s@.len(),
            n > 0,
            forall|j: int| 0 <= j < i ==> '0' <= #[trigger] s@[j] <= '9',
            v == decimal_value(s@.take(i as int)),
            v <= max,
            max <= u64::MAX,
        decreases n - i,
    {
        let c = s.get_char(i);
        if c < '0' || c > '9' {
            return Option::None;
        }
        let d = (c as u32) - ('0' as u32);
        proof {
            assert(s@.take(i as int + 1).drop_last() =~= s@.take(i as int));
            assert(s@.take(i as int + 1).last() == s@[i as int]);
        }
        if v > max / 10 || (v == max / 10 && (d as u64) > max % 10) {
            proof {
                vstd::arithmetic::div_mod::lemma_fundamental_div_mod(max as int, 10);
                if is_decimal(s@) {
                    lemma_decimal_value_grows(s@, i as int);
                }
            }
            return Option::None;
        }
        proof {
            vstd::arithmetic::div_mod::lemma_fundamental_div_mod(max as int, 10);
        }
        v = v * 10 + (d as u64);
        i = i + 1;
    }
    proof {
        assert(s@.take(n as int) =~= s@);
    }
    Some(v)
}

/// Once a decimal prefix exceeds the bound, the whole number does: more
/// digits only make it larger.
proof fn lemma_decimal_value_grows(s: Seq<char>, i: int)
    requires
        0 <= i < s.len(),
        forall|j: int| 0 <= j < s.len() ==> '0' <= #[trigger] s[j] <= '9',
    ensures
        decimal_value(s) >= decimal_value(s.take(i + 1)),
        decimal_value(s.take(i + 1)) == decimal_value(s.take(i)) * 10 + (s[i] as int - '0' as int),
        decimal_value(s) >= 0,
    decreases s.len() - i,
{
    assert(s.take(i + 1).drop_last() =~= s.take(i));
    assert(s.take(i + 1).last() == s[i]);
    lemma_decimal_value_nonneg(s.take(i + 1));
    lemma_decimal_value_nonneg(s);
    if i + 1 == s.len() {
        assert(s.take(i + 1) =~= s);
    } else {
        lemma_decimal_value_grows(s, i + 1);
        lemma_decimal_value_nonneg(s.take(i + 1));
        assert(decimal_value(s.take(i + 2)) >= decimal_value(s.take(i + 1))) by {
            assert(s.take(i + 2).drop_last() =~= s.take(i + 1));
            assert(s.take(i + 2).last() == s[i + 1]);
            lemma_decimal_value_nonneg(s.take(i + 1));
            assert(decimal_value(s.take(i + 1)) * 10 >= decimal_value(s.take(i + 1))) by (nonlinear_arith)
                requires
                    decimal_value(s.take(i + 1)) >= 0,
            ;
        }
    }
}

/// A digit string denotes a number, never a negative value.
proof fn lemma_decimal_value_nonneg(s: Seq<char>)
    ensures
        (forall|j: int| 0 <= j < s.len() ==> '0' <= #[trigger] s[j] <= '9') ==> decimal_value(s)
            >= 0,
    decreases s.len(),
{
    if s.len() > 0 {
        lemma_decimal_value_nonneg(s.drop_last());
        if forall|j: int| 0 <= j < s.len() ==> '0' <= #[trigger] s[j] <= '9' {
            assert(forall|j: int|
                0 <= j < s.drop_last().len() ==> '0' <= #[trigger] s.drop_last()[j] <= '9');
            assert(decimal_value(s.drop_last()) * 10 >= 0) by (nonlinear_arith)
                requires
                    decimal_value(s.drop_last()) >= 0,
            ;
        }
    }
}

/// What the width-policy flag may say: the three named policies, or
/// `custom=` with a percentage of at most one hundred.
pub open spec fn parsed_default_width(s: Seq<char>) -> Option<DefaultWidth> {
    if s == "min"@ {
        Some(DefaultWidth::Min)
    } else if s == "items"@ {
        Some(DefaultWidth::Items)
    } else if s == "max"@ {
        Some(DefaultWidth::Max)
    } else if s.len() >= 7 && s.take(7) == "custom="@ && is_decimal(s.skip(7)) && decimal_value(
        s.skip(7),
    ) <= 100 {
        Some(DefaultWidth::Custom(decimal_value(s.skip(7)) as u8))
    } else {
        Option::None
    }
}

/// Parse the width-policy flag.  `max` also turns right-alignment on, so
/// the result says whether it must be set.
pub fn parse_default_width(arg: &str) -> (r: Option<(DefaultWidth, bool)>)
    ensures
        r matches Some(p) ==> parsed_default_width(arg@) == Some(p.0) && p.1 == (p.0
            == DefaultWidth::Max),
        r is None <==> parsed_default_width(arg@) is None,
{
    let a = arg.to_owned();
    if a.eq(&"min".to_owned()) {
        Some((DefaultWidth::Min, false))
    } else if a.eq(&"items".to_owned()) {
        Some((DefaultWidth::Items, false))
    } else if a.eq(&"max".to_owned()) {
        Some((DefaultWidth::Max, true))
    } else {
        let n = arg.unicode_len();
        if n >= 7 {
            let head = arg.substring_char(0, 7).to_owned();
            if head.eq(&"custom=".to_owned()) {
                let tail = arg.substring_char(7, n);
                match parse_decimal_bounded(tail, 100) {
                    Some(v) => {
                        proof {
                            reveal_strlit("custom=");
                            assert(arg@.skip(7) =~= arg@.subrange(7, arg@.len() as int));
                        }
                        Some((DefaultWidth::Custom(v as u8), false))
                    },
                    Option::None => {
                        proof {
                            reveal_strlit("custom=");
                            assert(arg@.skip(7) =~= arg@.subrange(7, arg@.len() as int));
                        }
                        Option::None
                    },
                }
            } else {
                proof {
                    reveal_strlit("custom=");
                }
                Option::None
            }
        } else {
            proof {
                reveal_strlit("custom=");
            }
            Option::None
        }
    }
}

impl Default for Config {
    /// The configuration the menu starts from before flags are applied.
    fn default() -> (r: Self)
        ensures
            r.lines == 0,
            r.topbar,
            r.prompt@ == Seq::<char>::empty(),
            !r.fast,
            r.embed == 0,
            r.case_sensitive,
            r.mon == -1,
            r.colors@.len() == 3,
            !r.nostdin,
            r.render_minheight == 4,
            !r.render_overrun,
            !r.render_flex,
            !r.render_rightalign,
            r.render_default_width == DefaultWidth::Items,
    {
        Config {
            lines: ConfigDefault::lines(),
            topbar: ConfigDefault::topbar(),
            prompt: ConfigDefault::prompt(),
            fontstrings: ConfigDefault::fontstrings(),
            fast: ConfigDefault::fast(),
            embed: ConfigDefault::embed(),
            case_sensitive: ConfigDefault::case_sensitive(),
            mon: ConfigDefault::mon(),
            colors: ConfigDefault::colors(),
            nostdin: ConfigDefault::nostdin(),
            render_minheight: ConfigDefault::render_minheight(),
            render_overrun: ConfigDefault::render_overrun(),
            render_flex: ConfigDefault::render_flex(),
            render_rightalign: ConfigDefault::render_rightalign(),
            render_default_width: ConfigDefault::render_default_width(),
        }
    }
}

} // verus!
