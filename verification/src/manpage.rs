//! Composing a troff manual page from declared arguments and descriptions.
//!
//! Everything here is text composition; reading the static sections and
//! writing the finished page to disk stay with the caller.

use vstd::prelude::*;

verus! {

/// What an argument says: its short flag, long flag, value names and help
/// text, as mathematical values.
pub type ArgView = (Option<char>, Option<Seq<char>>, Seq<Seq<char>>, Seq<char>);

/// One command-line argument: its short flag, long flag, value names and
/// help text.
#[derive(Debug)]
pub struct Arg {
    short: Option<char>,
    long: Option<String>,
    inputs: Vec<String>,
    info: String,
}

impl View for Arg {
    type V = ArgView;

    closed spec fn view(&self) -> ArgView {
        (
            self.short,
            match self.long {
                Some(l) => Some(l@),
                Option::None => Option::None,
            },
            self.inputs@.map_values(|s: String| s@),
            self.info@,
        )
    }
}

impl Arg {
    pub fn new(short: Option<char>, long: Option<String>, inputs: Vec<String>, info: String) -> (r:
        Arg)
        ensures
            r@ == ((
                short,
                match long {
                    Some(l) => Some(l@),
                    Option::None => Option::None::<Seq<char>>,
                },
                inputs@.map_values(|s: String| s@),
                info@,
            )),
    {
        Arg { short, long, inputs, info }
    }
}

impl Clone for Arg {
    fn clone(&self) -> (r: Self)
        ensures
            r@ == self@,
    {
        let mut inputs: Vec<String> = Vec::new();
        let mut k: usize = 0;
        while k < self.inputs.len()
            invariant
                k <= self.inputs@.len(),
                inputs@ =~= self.inputs@.take(k as int),
            decreases self.inputs@.len() - k,
        {
            inputs.push(self.inputs[k].clone());
            proof {
                assert(inputs@ =~= self.inputs@.take(k as int + 1));
            }
            k = k + 1;
        }
        proof {
            assert(self.inputs@.take(self.inputs@.len() as int) =~= self.inputs@);
        }
        let r = Arg {
            short: self.short,
            long: match &self.long {
                Some(l) => Some(l.clone()),
                Option::None => Option::None,
            },
            inputs,
            info: self.info.clone(),
        };
        proof {
            assert(r@ == self@);
        }
        r
    }
}

/// The short character of a flag, when it has one.
pub open spec fn short_char(a: ArgView) -> char {
    match a.0 {
        Some(c) => c,
        Option::None => ' ',
    }
}

/// The long name of a flag, when it has one.
pub open spec fn long_text(a: ArgView) -> Seq<char> {
    match a.1 {
        Some(l) => l,
        Option::None => Seq::empty(),
    }
}

/// A flag with only a short name and no value.
pub open spec fn arg_is_short(a: ArgView) -> bool {
    a.0 is Some && a.1 is None && a.2.len() == 0
}

/// A flag with only a short name, taking values.
pub open spec fn arg_is_other_short(a: ArgView) -> bool {
    a.0 is Some && a.1 is None && a.2.len() > 0
}

/// A flag with only a long name.
pub open spec fn arg_is_other_long(a: ArgView) -> bool {
    a.0 is None && a.1 is Some
}

/// A flag with both names.
pub open spec fn arg_is_both(a: ArgView) -> bool {
    a.0 is Some && a.1 is Some
}

/// Texts joined by a separator, exactly as an iterator join writes them.
pub open spec fn join_texts(parts: Seq<Seq<char>>, sep: Seq<char>) -> Seq<char>
    decreases parts.len(),
{
    if parts.len() == 0 {
        Seq::empty()
    } else if parts.len() == 1 {
        parts[0]
    } else {
        parts[0] + sep + join_texts(parts.drop_first(), sep)
    }
}

/// Joining one more part appends the separator and the part.
pub proof fn lemma_join_push(parts: Seq<Seq<char>>, sep: Seq<char>, x: Seq<char>)
    ensures
        join_texts(parts.push(x), sep) == if parts.len() == 0 {
            x
        } else {
            join_texts(parts, sep) + sep + x
        },
    decreases parts.len(),
{
    if parts.len() == 0 {
        assert(parts.push(x)[0] =~= x);
        assert(join_texts(parts.push(x), sep) == x);
    } else {
        lemma_join_push(parts.drop_first(), sep, x);
        assert(parts.push(x).drop_first() =~= parts.drop_first().push(x));
        if parts.len() == 1 {
            assert(parts.drop_first().len() == 0);
            assert(join_texts(parts.push(x), sep) == parts[0] + sep + x);
            assert(join_texts(parts, sep) == parts[0]);
        } else {
            assert((parts[0] + sep + (join_texts(parts.drop_first(), sep) + sep + x)) =~= ((
            parts[0] + sep + join_texts(parts.drop_first(), sep)) + sep + x));
        }
    }
}

/// Strings joined by a separator, executably.
pub fn join_strings(parts: &Vec<String>, sep: &str) -> (r: String)
    ensures
        r@ == join_texts(parts@.map_values(|s: String| s@), sep@),
{
    let mut r = String::new();
    let mut k: usize = 0;
    proof {
        assert(parts@.take(0).map_values(|s: String| s@) =~= Seq::<Seq<char>>::empty());
    }
    while k < parts.len()
        invariant
            k <= parts@.len(),
            r@ == join_texts(parts@.take(k as int).map_values(|s: String| s@), sep@),
        decreases parts@.len() - k,
    {
        if k > 0 {
            r.append(sep);
        }
        r.append(parts[k].as_str());
        proof {
            assert(parts@.take(k as int + 1).map_values(|s: String| s@) =~= parts@.take(
                k as int,
            ).map_values(|s: String| s@).push(parts@[k as int]@));
            lemma_join_push(
                parts@.take(k as int).map_values(|s: String| s@),
                sep@,
                parts@[k as int]@,
            );
        }
        k = k + 1;
    }
    proof {
        assert(parts@.take(parts@.len() as int) =~= parts@);
    }
    r
}

/// Relies on `char::to_string`: the one-character string.
#[verifier::external_body]
fn char_to_string(c: char) -> (r: String)
    ensures
        r@ == seq![c],
{
    c.to_string()
}

/// The uppercase form of a string.  Named, not defined: the mapping is
/// Unicode-wide and depends on the characters alone.
pub uninterp spec fn upper_of(s: Seq<char>) -> Seq<char>;

/// Relies on `str::to_uppercase`: the Unicode uppercase mapping of the
/// characters, and nothing else.
#[verifier::external_body]
fn to_uppercase(s: &str) -> (r: String)
    ensures
        r@ == upper_of(s@),
{
    s.to_uppercase()
}

/// The decimal digits of a number, most significant first.
pub open spec fn dec_str(n: int) -> Seq<char>
    decreases n,
{
    if n < 0 {
        Seq::empty()
    } else if n < 10 {
        seq![(('0' as int + n) as char)]
    } else {
        dec_str(n / 10).push((('0' as int + n % 10) as char))
    }
}

/// A number written in decimal, executably.
pub fn u32_to_string(n: u32) -> (r: String)
    ensures
        r@ == dec_str(n as int),
    decreases n,
{
    let d = n % 10;
    let c = if d == 0 {
        '0'
    } else if d == 1 {
        '1'
    } else if d == 2 {
        '2'
    } else if d == 3 {
        '3'
    } else if d == 4 {
        '4'
    } else if d == 5 {
        '5'
    } else if d == 6 {
        '6'
    } else if d == 7 {
        '7'
    } else if d == 8 {
        '8'
    } else {
        '9'
    };
    proof {
        assert(c as int == '0' as int + (n as int) % 10);
        assert((('0' as int + (n as int) % 10) as char) == c);
    }
    let piece = char_to_string(c);
    if n < 10 {
        piece
    } else {
        let mut r = u32_to_string(n / 10);
        r.append(piece.as_str());
        proof {
            assert(r@ =~= dec_str((n / 10) as int).push((('0' as int + (n as int) % 10) as char)));
        }
        r
    }
}

/// The `.IR` lines naming a flag's values.
pub open spec fn ir_lines(inputs: Seq<Seq<char>>) -> Seq<char> {
    join_texts(inputs.map_values(|n: Seq<char>| ".IR "@ + n), "\n"@)
}

/// The `.IR` lines, executably.
fn ir_lines_exec(inputs: &Vec<String>) -> (r: String)
    ensures
        r@ == ir_lines(inputs@.map_values(|s: String| s@)),
{
    let mut pieces: Vec<String> = Vec::new();
    let mut k: usize = 0;
    while k < inputs.len()
        invariant
            k <= inputs@.len(),
            pieces@.len() == k,
            forall|j: int| 0 <= j < k ==> (#[trigger] pieces@[j])@ == ".IR "@ + inputs@[j]@,
        decreases inputs@.len() - k,
    {
        let mut p = ".IR ".to_owned();
        p.append(inputs[k].as_str());
        pieces.push(p);
        k = k + 1;
    }
    let r = join_strings(&pieces, "\n");
    proof {
        assert(pieces@.map_values(|s: String| s@) =~= inputs@.map_values(|s: String| s@).map_values(
            |n: Seq<char>| ".IR "@ + n,
        ));
    }
    r
}

/// A block of per-flag pieces: nothing at all for no flags, otherwise the
/// pieces joined by newlines with one more newline after.
pub open spec fn block_of(pieces: Seq<Seq<char>>) -> Seq<char> {
    if pieces.len() == 0 {
        Seq::empty()
    } else {
        join_texts(pieces, "\n"@) + "\n"@
    }
}

/// The synopsis entry bundling every bare short flag.
pub open spec fn syn_shorts(g: Seq<ArgView>) -> Seq<char> {
    if g.len() == 0 {
        Seq::empty()
    } else {
        ".RB [ \\-"@ + g.map_values(|a: ArgView| short_char(a)) + " ]\n"@
    }
}

/// The synopsis entry of a short flag with values.
pub open spec fn syn_other_short_one(a: ArgView) -> Seq<char> {
    ".RB [ \\-"@ + seq![short_char(a)] + "\n"@ + ir_lines(a.2) + " ]"@
}

/// The synopsis entry of a long flag.
pub open spec fn syn_other_long_one(a: ArgView) -> Seq<char> {
    if a.2.len() > 0 {
        ".RB [ \\-\\-"@ + long_text(a) + "\n"@ + ir_lines(a.2) + " ]"@
    } else {
        ".RB [ \\-\\-"@ + long_text(a) + " ]"@
    }
}

/// The synopsis entry of a flag with both names.
pub open spec fn syn_both_one(a: ArgView) -> Seq<char> {
    if a.2.len() > 0 {
        ".RB [ \\-"@ + seq![short_char(a)] + "|\\-\\-"@ + long_text(a) + "\n"@ + ir_lines(a.2)
            + " ]"@
    } else {
        ".RB [ \\-"@ + seq![short_char(a)] + "|\\-\\-"@ + long_text(a) + " ]"@
    }
}

/// The options entry of a bare short flag.
pub open spec fn opt_short_one(a: ArgView) -> Seq<char> {
    ".TP\n.B \\-"@ + seq![short_char(a)] + "\n"@ + a.3
}

/// The options entry of a short flag with values.
pub open spec fn opt_other_short_one(a: ArgView) -> Seq<char> {
    ".TP\n.BI \\-"@ + seq![short_char(a)] + " \" "@ + join_texts(a.2, " "@) + "\"\n"@ + a.3
}

/// The options entry of a long flag.
pub open spec fn opt_other_long_one(a: ArgView) -> Seq<char> {
    ".TP\n.BI \\-\\-"@ + long_text(a) + " \" "@ + join_texts(a.2, " "@) + "\"\n"@ + a.3
}

/// The options entry of a flag with both names.
pub open spec fn opt_both_one(a: ArgView) -> Seq<char> {
    ".TP\n\\fB\\-"@ + seq![short_char(a)] + "\\fP"@ + (if a.2.len() == 0 {
        Seq::<char>::empty()
    } else {
        " "@
    }) + "\\fI"@ + join_texts(a.2, " "@) + "\\/\\fP, \\fB\\-\\-\\fP"@ + long_text(a) + " \\fI"@
        + join_texts(a.2, " "@) + "\\/\\fP \n"@ + a.3
}

/// The bare short flags, in declaration order.
pub open spec fn g_shorts(args: Seq<ArgView>) -> Seq<ArgView> {
    args.filter(|a: ArgView| arg_is_short(a))
}

/// The short flags with values, in declaration order.
pub open spec fn g_other_short(args: Seq<ArgView>) -> Seq<ArgView> {
    args.filter(|a: ArgView| arg_is_other_short(a))
}

/// The long-only flags, in declaration order.
pub open spec fn g_other_long(args: Seq<ArgView>) -> Seq<ArgView> {
    args.filter(|a: ArgView| arg_is_other_long(a))
}

/// The flags with both names, in declaration order.
pub open spec fn g_both(args: Seq<ArgView>) -> Seq<ArgView> {
    args.filter(|a: ArgView| arg_is_both(a))
}

/// The whole SYNOPSIS section.
pub open spec fn synopsis_spec(name: Seq<char>, args: Seq<ArgView>) -> Seq<char> {
    ".SH SYNOPSIS\n.B "@ + name + "\n"@ + syn_shorts(g_shorts(args)) + block_of(
        g_other_short(args).map_values(|a: ArgView| syn_other_short_one(a)),
    ) + block_of(g_other_long(args).map_values(|a: ArgView| syn_other_long_one(a))) + block_of(
        g_both(args).map_values(|a: ArgView| syn_both_one(a)),
    ) + "\n.P\n.BR dmenu_run \" ...\""@
}

/// The whole OPTIONS section.
pub open spec fn options_spec(args: Seq<ArgView>) -> Seq<char> {
    ".SH OPTIONS\n"@ + block_of(g_shorts(args).map_values(|a: ArgView| opt_short_one(a)))
        + block_of(g_other_short(args).map_values(|a: ArgView| opt_other_short_one(a))) + block_of(
        g_other_long(args).map_values(|a: ArgView| opt_other_long_one(a)),
    ) + block_of(g_both(args).map_values(|a: ArgView| opt_both_one(a)))
}

/// Appending one flag extends a filtered group exactly when the flag is of
/// the group's kind.
proof fn lemma_arg_filter_push(args: Seq<ArgView>, x: ArgView, pred: spec_fn(ArgView) -> bool)
    ensures
        args.push(x).filter(pred) == if pred(x) {
            args.filter(pred).push(x)
        } else {
            args.filter(pred)
        },
{
    reveal(Seq::filter);
    assert(args.push(x).drop_last() =~= args);
    assert(args.push(x).last() == x);
}

/// Join per-flag pieces into a block: empty for no pieces, otherwise
/// newline-joined with a trailing newline.
fn block_join(pieces: &Vec<String>) -> (r: String)
    ensures
        r@ == block_of(pieces@.map_values(|s: String| s@)),
{
    if pieces.len() == 0 {
        String::new()
    } else {
        let mut r = join_strings(pieces, "\n");
        r.append("\n");
        r
    }
}

/// The short flag's character, executably.
fn short_char_exec(a: &Arg) -> (r: char)
    ensures
        r == short_char(a@),
{
    match a.short {
        Some(c) => c,
        Option::None => ' ',
    }
}

/// The long flag's name, executably.
fn long_text_exec(a: &Arg) -> (r: String)
    ensures
        r@ == long_text(a@),
{
    match &a.long {
        Some(l) => l.clone(),
        Option::None => String::new(),
    }
}

/// The synopsis entry of a short flag with values, executably.
fn syn_other_short_piece(a: &Arg) -> (r: String)
    ensures
        r@ == syn_other_short_one(a@),
{
    let mut s = ".RB [ \\-".to_owned();
    s.append(char_to_string(short_char_exec(a)).as_str());
    s.append("\n");
    s.append(ir_lines_exec(&a.inputs).as_str());
    s.append(" ]");
    s
}

/// The synopsis entry of a long flag, executably.
fn syn_other_long_piece(a: &Arg) -> (r: String)
    ensures
        r@ == syn_other_long_one(a@),
{
    let mut s = ".RB [ \\-\\-".to_owned();
    s.append(long_text_exec(a).as_str());
    if a.inputs.len() > 0 {
        s.append("\n");
        s.append(ir_lines_exec(&a.inputs).as_str());
    }
    s.append(" ]");
    s
}

/// The synopsis entry of a flag with both names, executably.
fn syn_both_piece(a: &Arg) -> (r: String)
    ensures
        r@ == syn_both_one(a@),
{
    let mut s = ".RB [ \\-".to_owned();
    s.append(char_to_string(short_char_exec(a)).as_str());
    s.append("|\\-\\-");
    s.append(long_text_exec(a).as_str());
    if a.inputs.len() > 0 {
        s.append("\n");
        s.append(ir_lines_exec(&a.inputs).as_str());
    }
    s.append(" ]");
    s
}

/// The options entry of a bare short flag, executably.
fn opt_short_piece(a: &Arg) -> (r: String)
    ensures
        r@ == opt_short_one(a@),
{
    let mut s = ".TP\n.B \\-".to_owned();
    s.append(char_to_string(short_char_exec(a)).as_str());
    s.append("\n");
    s.append(a.info.as_str());
    s
}

/// The options entry of a short flag with values, executably.
fn opt_other_short_piece(a: &Arg) -> (r: String)
    ensures
        r@ == opt_other_short_one(a@),
{
    let mut s = ".TP\n.BI \\-".to_owned();
    s.append(char_to_string(short_char_exec(a)).as_str());
    s.append(" \" ");
    s.append(join_strings(&a.inputs, " ").as_str());
    s.append("\"\n");
    s.append(a.info.as_str());
    s
}

/// The options entry of a long flag, executably.
fn opt_other_long_piece(a: &Arg) -> (r: String)
    ensures
        r@ == opt_other_long_one(a@),
{
    let mut s = ".TP\n.BI \\-\\-".to_owned();
    s.append(long_text_exec(a).as_str());
    s.append(" \" ");
    s.append(join_strings(&a.inputs, " ").as_str());
    s.append("\"\n");
    s.append(a.info.as_str());
    s
}

/// The options entry of a flag with both names, executably.
fn opt_both_piece(a: &Arg) -> (r: String)
    ensures
        r@ == opt_both_one(a@),
{
    let mut s = ".TP\n\\fB\\-".to_owned();
    s.append(char_to_string(short_char_exec(a)).as_str());
    s.append("\\fP");
    if a.inputs.len() > 0 {
        s.append(" ");
    }
    s.append("\\fI");
    s.append(join_strings(&a.inputs, " ").as_str());
    s.append("\\/\\fP, \\fB\\-\\-\\fP");
    s.append(long_text_exec(a).as_str());
    s.append(" \\fI");
    s.append(join_strings(&a.inputs, " ").as_str());
    s.append("\\/\\fP \n");
    s.append(a.info.as_str());
    s
}

/// Text with every line break turned into a troff break request.
pub open spec fn br_escaped(s: Seq<char>) -> Seq<char>
    decreases s.len(),
{
    if s.len() == 0 {
        Seq::empty()
    } else {
        (if s[0] == '\n' {
            "\n.br\n"@
        } else {
            seq![s[0]]
        }) + br_escaped(s.drop_first())
    }
}

/// Line breaks turned into troff break requests, executably.
fn br_escape(s: &str) -> (r: String)
    ensures
        r@ == br_escaped(s@),
{
    let mut r = String::new();
    let n = s.unicode_len();
    let mut i: usize = 0;
    proof {
        assert(s@.skip(0) =~= s@);
        assert(r@ + br_escaped(s@) =~= br_escaped(s@));
    }
    while i < n
        invariant
            i <= n,
            n == s@.len(),
            r@ + br_escaped(s@.skip(i as int)) == br_escaped(s@),
        decreases n - i,
    {
        let ghost r0 = r@;
        let ghost rest = s@.skip(i as int);
        let c = s.get_char(i);
        if c == '\n' {
            r.append("\n.br\n");
        } else {
            r.append(s.substring_char(i, i + 1));
        }
        proof {
            assert(rest[0] == s@[i as int]);
            assert(rest.drop_first() =~= s@.skip(i as int + 1));
            assert(s@.subrange(i as int, i as int + 1) =~= seq![s@[i as int]]);
            assert(r@ + br_escaped(s@.skip(i as int + 1)) =~= r0 + br_escaped(rest));
        }
        i = i + 1;
    }
    proof {
        assert(s@.skip(n as int) =~= Seq::<char>::empty());
        assert(r@ + Seq::<char>::empty() =~= r@);
    }
    r
}

/// The `.TH` heading line.
pub open spec fn th_heading(name: Seq<char>, section: int, version: Seq<char>) -> Seq<char> {
    ".TH "@ + upper_of(name) + " "@ + dec_str(section) + " "@ + name + "\\-"@ + version
}

/// The NAME section.
pub open spec fn name_section(name: Seq<char>, desc_short: Seq<char>) -> Seq<char> {
    ".SH NAME\n"@ + name + " \\- "@ + desc_short
}

/// The DESCRIPTION section.
pub open spec fn description_section(ds: Seq<(Seq<char>, Seq<char>)>) -> Seq<char> {
    ".SH DESCRIPTION\n"@ + join_texts(
        ds.map_values(|p: (Seq<char>, Seq<char>)| ".B "@ + p.0 + "\n"@ + p.1),
        "\n.P\n"@,
    )
}

/// The BUILD section: nothing without a build note; with one, the note and
/// then each compiled-in plugin as its own tagged paragraph.
pub open spec fn build_section(
    buildmsg: Option<Seq<char>>,
    plugins: Seq<(Seq<char>, Seq<char>)>,
) -> Seq<char> {
    match buildmsg {
        Option::None => Seq::empty(),
        Some(b) => ".SH BUILD\n"@ + b + (if plugins.len() > 0 {
            "\ndmenu-rs has been compiled with the following plugins:\n"@ + join_texts(
                plugins.map_values(
                    |p: (Seq<char>, Seq<char>)| ".TP\n.B "@ + p.0 + "\n"@ + br_escaped(p.1),
                ),
                "\n"@,
            )
        } else {
            Seq::<char>::empty()
        }),
    }
}

/// The whole page: the eight sections joined by newlines, in the fixed
/// order heading, name, synopsis, build, description, options, usage and
/// see-also.
pub open spec fn manpage_text(
    name: Seq<char>,
    version: Seq<char>,
    section: int,
    desc_short: Seq<char>,
    descriptions: Seq<(Seq<char>, Seq<char>)>,
    args: Seq<ArgView>,
    buildmsg: Option<Seq<char>>,
    plugins: Seq<(Seq<char>, Seq<char>)>,
    usage: Seq<char>,
    see_also: Seq<char>,
) -> Seq<char> {
    join_texts(
        seq![
            th_heading(name, section, version),
            name_section(name, desc_short),
            synopsis_spec(name, args),
            build_section(buildmsg, plugins),
            description_section(descriptions),
            options_spec(args),
            usage,
            see_also,
        ],
        "\n"@,
    )
}

/// A declared manual page: name, version, section, and the declared
/// arguments, descriptions and plugin notes.
#[derive(Debug)]
pub struct Manpage {
    name: String,
    version: String,
    section: u32,
    desc_short: String,
    descriptions: Vec<(String, String)>,
    args: Vec<Arg>,
    buildmsg: Option<String>,
    plugins: Vec<(String, String)>,
}

impl Manpage {
    pub closed spec fn name_view(&self) -> Seq<char> {
        self.name@
    }

    pub closed spec fn version_view(&self) -> Seq<char> {
        self.version@
    }

    pub closed spec fn section_view(&self) -> int {
        self.section as int
    }

    pub closed spec fn desc_short_view(&self) -> Seq<char> {
        self.desc_short@
    }

    pub closed spec fn descriptions_view(&self) -> Seq<(Seq<char>, Seq<char>)> {
        self.descriptions@.map_values(|p: (String, String)| (p.0@, p.1@))
    }

    pub closed spec fn args_view(&self) -> Seq<ArgView> {
        self.args@.map_values(|a: Arg| a@)
    }

    pub closed spec fn buildmsg_view(&self) -> Option<Seq<char>> {
        match self.buildmsg {
            Some(b) => Some(b@),
            Option::None => Option::None,
        }
    }

    pub closed spec fn plugins_view(&self) -> Seq<(Seq<char>, Seq<char>)> {
        self.plugins@.map_values(|p: (String, String)| (p.0@, p.1@))
    }

    pub fn new(name: &str, version: &str, section: u32) -> (r: Manpage)
        ensures
            r.name_view() == name@,
            r.version_view() == version@,
            r.section_view() == section as int,
            r.desc_short_view() == Seq::<char>::empty(),
            r.descriptions_view() == Seq::<(Seq<char>, Seq<char>)>::empty(),
            r.args_view() == Seq::<ArgView>::empty(),
            r.buildmsg_view() is None,
            r.plugins_view() == Seq::<(Seq<char>, Seq<char>)>::empty(),
    {
        let r = Manpage {
            name: name.to_owned(),
            version: version.to_owned(),
            section,
            desc_short: String::new(),
            descriptions: Vec::new(),
            args: Vec::new(),
            buildmsg: Option::None,
            plugins: Vec::new(),
        };
        proof {
            assert(r.descriptions_view() =~= Seq::<(Seq<char>, Seq<char>)>::empty());
            assert(r.args_view() =~= Seq::<ArgView>::empty());
            assert(r.plugins_view() =~= Seq::<(Seq<char>, Seq<char>)>::empty());
        }
        r
    }

    /// Everything except the one field a builder call changes stays put.
    pub open spec fn same_but_args(&self, other: &Manpage) -> bool {
        self.name_view() == other.name_view() && self.version_view() == other.version_view()
            && self.section_view() == other.section_view() && self.desc_short_view()
            == other.desc_short_view() && self.descriptions_view() == other.descriptions_view()
            && self.buildmsg_view() == other.buildmsg_view() && self.plugins_view()
            == other.plugins_view()
    }

    /// Set the one-line description.
    pub fn desc_short(&mut self, desc_short: &str)
        ensures
            final(self).desc_short_view() == desc_short@,
            final(self).name_view() == old(self).name_view(),
            final(self).version_view() == old(self).version_view(),
            final(self).section_view() == old(self).section_view(),
            final(self).descriptions_view() == old(self).descriptions_view(),
            final(self).args_view() == old(self).args_view(),
            final(self).buildmsg_view() == old(self).buildmsg_view(),
            final(self).plugins_view() == old(self).plugins_view(),
    {
        self.desc_short = desc_short.to_owned();
    }

    /// Add one DESCRIPTION paragraph.
    pub fn description(&mut self, name: &str, desc: &str)
        ensures
            final(self).descriptions_view() == old(self).descriptions_view().push((name@, desc@)),
            final(self).name_view() == old(self).name_view(),
            final(self).version_view() == old(self).version_view(),
            final(self).section_view() == old(self).section_view(),
            final(self).desc_short_view() == old(self).desc_short_view(),
            final(self).args_view() == old(self).args_view(),
            final(self).buildmsg_view() == old(self).buildmsg_view(),
            final(self).plugins_view() == old(self).plugins_view(),
    {
        self.descriptions.push((name.to_owned(), desc.to_owned()));
        proof {
            assert(final(self).descriptions_view() =~= old(self).descriptions_view().push(
                (name@, desc@),
            ));
        }
    }

    /// Set the BUILD note.
    pub fn build(&mut self, desc: &str)
        ensures
            final(self).buildmsg_view() == Some(desc@),
            final(self).name_view() == old(self).name_view(),
            final(self).version_view() == old(self).version_view(),
            final(self).section_view() == old(self).section_view(),
            final(self).desc_short_view() == old(self).desc_short_view(),
            final(self).descriptions_view() == old(self).descriptions_view(),
            final(self).args_view() == old(self).args_view(),
            final(self).plugins_view() == old(self).plugins_view(),
    {
        self.buildmsg = Some(desc.to_owned());
    }

    /// Declare one argument.
    pub fn arg(
        &mut self,
        short: Option<char>,
        long: Option<String>,
        inputs: Vec<String>,
        info: String,
    )
        ensures
            final(self).args_view() == old(self).args_view().push(
                (
                    short,
                    match long {
                        Some(l) => Some(l@),
                        Option::None => Option::None::<Seq<char>>,
                    },
                    inputs@.map_values(|s: String| s@),
                    info@,
                ),
            ),
            final(self).same_but_args(old(self)),
    {
        self.args.push(Arg::new(short, long, inputs, info));
        proof {
            assert(final(self).args_view() =~= old(self).args_view().push(
                final(self).args@.last()@,
            ));
        }
    }

    /// Compose the SYNOPSIS and OPTIONS sections: the flags fall into four
    /// groups -- bare short, short with values, long, and both names --
    /// each kept in declaration order, and each group is written with its
    /// own troff shape.
    pub fn gen_argstrs(&self) -> (r: (String, String))
        requires
            forall|j: int|
                0 <= j < self.args_view().len() ==> (#[trigger] self.args_view()[j]).0 is Some
                    || self.args_view()[j].1 is Some,
        ensures
            r.0@ == synopsis_spec(self.name_view(), self.args_view()),
            r.1@ == options_spec(self.args_view()),
    {
        let ghost avs = self.args_view();
        let mut arg_shorts: Vec<Arg> = Vec::new();
        let mut arg_other_short: Vec<Arg> = Vec::new();
        let mut arg_other_long: Vec<Arg> = Vec::new();
        let mut arg_other_both: Vec<Arg> = Vec::new();
        let mut k: usize = 0;
        proof {
            assert(avs.take(0) =~= Seq::<ArgView>::empty());
            reveal(Seq::filter);
        }
        while k < self.args.len()
            invariant
                k <= self.args@.len(),
                avs == self.args_view(),
                avs.len() == self.args@.len(),
                forall|j: int| 0 <= j < avs.len() ==> #[trigger] avs[j] == self.args@[j]@,
                forall|j: int| 0 <= j < avs.len() ==> (#[trigger] avs[j]).0 is Some || avs[j].1 is Some,
                arg_shorts@.map_values(|a: Arg| a@) == g_shorts(avs.take(k as int)),
                arg_other_short@.map_values(|a: Arg| a@) == g_other_short(avs.take(k as int)),
                arg_other_long@.map_values(|a: Arg| a@) == g_other_long(avs.take(k as int)),
                arg_other_both@.map_values(|a: Arg| a@) == g_both(avs.take(k as int)),
            decreases self.args@.len() - k,
        {
            let a = &self.args[k];
            let ghost old_shorts = arg_shorts@;
            let ghost old_os = arg_other_short@;
            let ghost old_ol = arg_other_long@;
            let ghost old_ob = arg_other_both@;
            if a.short.is_some() && a.long.is_none() && a.inputs.len() == 0 {
                arg_shorts.push(a.clone());
            } else if a.short.is_some() && a.long.is_none() {
                arg_other_short.push(a.clone());
            } else if a.short.is_none() && a.long.is_some() {
                arg_other_long.push(a.clone());
            } else if a.short.is_some() && a.long.is_some() {
                arg_other_both.push(a.clone());
            } else {
                proof {
                    assert(avs[k as int].0 is Some || avs[k as int].1 is Some);
                    assert(false);
                }
                unreached::<()>();
            }
            proof {
                assert(avs.take(k as int + 1) =~= avs.take(k as int).push(avs[k as int]));
                lemma_arg_filter_push(avs.take(k as int), avs[k as int], |v: ArgView| arg_is_short(v));
                lemma_arg_filter_push(avs.take(k as int), avs[k as int], |v: ArgView| arg_is_other_short(v));
                lemma_arg_filter_push(avs.take(k as int), avs[k as int], |v: ArgView| arg_is_other_long(v));
                lemma_arg_filter_push(avs.take(k as int), avs[k as int], |v: ArgView| arg_is_both(v));
                if arg_shorts@.len() > old_shorts.len() {
                    assert(arg_shorts@.map_values(|x: Arg| x@) =~= old_shorts.map_values(|x: Arg| x@).push(avs[k as int]));
                }
                if arg_other_short@.len() > old_os.len() {
                    assert(arg_other_short@.map_values(|x: Arg| x@) =~= old_os.map_values(|x: Arg| x@).push(avs[k as int]));
                }
                if arg_other_long@.len() > old_ol.len() {
                    assert(arg_other_long@.map_values(|x: Arg| x@) =~= old_ol.map_values(|x: Arg| x@).push(avs[k as int]));
                }
                if arg_other_both@.len() > old_ob.len() {
                    assert(arg_other_both@.map_values(|x: Arg| x@) =~= old_ob.map_values(|x: Arg| x@).push(avs[k as int]));
                }
            }
            k = k + 1;
        }
        proof {
            assert(avs.take(avs.len() as int) =~= avs);
        }
        let synopsis_shorts_str: String = if arg_shorts.len() == 0 {
            String::new()
        } else {
            let mut chars = String::new();
            let mut j: usize = 0;
            while j < arg_shorts.len()
                invariant
                    j <= arg_shorts@.len(),
                    chars@.len() == j,
                    forall|m: int| 0 <= m < j ==> chars@[m] == short_char(#[trigger] arg_shorts@[m]@),
                decreases arg_shorts@.len() - j,
            {
                chars.append(char_to_string(short_char_exec(&arg_shorts[j])).as_str());
                j = j + 1;
            }
            let mut s = ".RB [ \\-".to_owned();
            s.append(chars.as_str());
            s.append(" ]\n");
            proof {
                assert(chars@ =~= arg_shorts@.map_values(|x: Arg| x@).map_values(
                    |v: ArgView| short_char(v),
                ));
            }
            s
        };
        let mut pieces_os: Vec<String> = Vec::new();
        let mut j: usize = 0;
        while j < arg_other_short.len()
            invariant
                j <= arg_other_short@.len(),
                pieces_os@.len() == j,
                forall|m: int|
                    0 <= m < j ==> (#[trigger] pieces_os@[m])@ == syn_other_short_one(
                        arg_other_short@[m]@,
                    ),
            decreases arg_other_short@.len() - j,
        {
            pieces_os.push(syn_other_short_piece(&arg_other_short[j]));
            j = j + 1;
        }
        let syn_os = block_join(&pieces_os);
        let mut pieces_ol: Vec<String> = Vec::new();
        let mut j2: usize = 0;
        while j2 < arg_other_long.len()
            invariant
                j2 <= arg_other_long@.len(),
                pieces_ol@.len() == j2,
                forall|m: int|
                    0 <= m < j2 ==> (#[trigger] pieces_ol@[m])@ == syn_other_long_one(
                        arg_other_long@[m]@,
                    ),
            decreases arg_other_long@.len() - j2,
        {
            pieces_ol.push(syn_other_long_piece(&arg_other_long[j2]));
            j2 = j2 + 1;
        }
        let syn_ol = block_join(&pieces_ol);
        let mut pieces_ob: Vec<String> = Vec::new();
        let mut j3: usize = 0;
        while j3 < arg_other_both.len()
            invariant
                j3 <= arg_other_both@.len(),
                pieces_ob@.len() == j3,
                forall|m: int|
                    0 <= m < j3 ==> (#[trigger] pieces_ob@[m])@ == syn_both_one(
                        arg_other_both@[m]@,
                    ),
            decreases arg_other_both@.len() - j3,
        {
            pieces_ob.push(syn_both_piece(&arg_other_both[j3]));
            j3 = j3 + 1;
        }
        let syn_ob = block_join(&pieces_ob);
        let mut synopsis = ".SH SYNOPSIS\n.B ".to_owned();
        synopsis.append(self.name.as_str());
        synopsis.append("\n");
        synopsis.append(synopsis_shorts_str.as_str());
        synopsis.append(syn_os.as_str());
        synopsis.append(syn_ol.as_str());
        synopsis.append(syn_ob.as_str());
        synopsis.append("\n.P\n.BR dmenu_run \" ...\"");
        proof {
            assert(pieces_os@.map_values(|s: String| s@) =~= g_other_short(avs).map_values(
                |v: ArgView| syn_other_short_one(v),
            ));
            assert(pieces_ol@.map_values(|s: String| s@) =~= g_other_long(avs).map_values(
                |v: ArgView| syn_other_long_one(v),
            ));
            assert(pieces_ob@.map_values(|s: String| s@) =~= g_both(avs).map_values(
                |v: ArgView| syn_both_one(v),
            ));
        }
        let mut pieces_s2: Vec<String> = Vec::new();
        let mut m1: usize = 0;
        while m1 < arg_shorts.len()
            invariant
                m1 <= arg_shorts@.len(),
                pieces_s2@.len() == m1,
                forall|m: int|
                    0 <= m < m1 ==> (#[trigger] pieces_s2@[m])@ == opt_short_one(arg_shorts@[m]@),
            decreases arg_shorts@.len() - m1,
        {
            pieces_s2.push(opt_short_piece(&arg_shorts[m1]));
            m1 = m1 + 1;
        }
        let opt_s = block_join(&pieces_s2);
        let mut pieces_os2: Vec<String> = Vec::new();
        let mut m2: usize = 0;
        while m2 < arg_other_short.len()
            invariant
                m2 <= arg_other_short@.len(),
                pieces_os2@.len() == m2,
                forall|m: int|
                    0 <= m < m2 ==> (#[trigger] pieces_os2@[m])@ == opt_other_short_one(
                        arg_other_short@[m]@,
                    ),
            decreases arg_other_short@.len() - m2,
        {
            pieces_os2.push(opt_other_short_piece(&arg_other_short[m2]));
            m2 = m2 + 1;
        }
        let opt_os = block_join(&pieces_os2);
        let mut pieces_ol2: Vec<String> = Vec::new();
        let mut m3: usize = 0;
        while m3 < arg_other_long.len()
            invariant
                m3 <= arg_other_long@.len(),
                pieces_ol2@.len() == m3,
                forall|m: int|
                    0 <= m < m3 ==> (#[trigger] pieces_ol2@[m])@ == opt_other_long_one(
                        arg_other_long@[m]@,
                    ),
            decreases arg_other_long@.len() - m3,
        {
            pieces_ol2.push(opt_other_long_piece(&arg_other_long[m3]));
            m3 = m3 + 1;
        }
        let opt_ol = block_join(&pieces_ol2);
        let mut pieces_ob2: Vec<String> = Vec::new();
        let mut m4: usize = 0;
        while m4 < arg_other_both.len()
            invariant
                m4 <= arg_other_both@.len(),
                pieces_ob2@.len() == m4,
                forall|m: int|
                    0 <= m < m4 ==> (#[trigger] pieces_ob2@[m])@ == opt_both_one(
                        arg_other_both@[m]@,
                    ),
            decreases arg_other_both@.len() - m4,
        {
            pieces_ob2.push(opt_both_piece(&arg_other_both[m4]));
            m4 = m4 + 1;
        }
        let opt_ob = block_join(&pieces_ob2);
        let mut options = ".SH OPTIONS\n".to_owned();
        options.append(opt_s.as_str());
        options.append(opt_os.as_str());
        options.append(opt_ol.as_str());
        options.append(opt_ob.as_str());
        proof {
            assert(pieces_s2@.map_values(|s: String| s@) =~= g_shorts(avs).map_values(
                |v: ArgView| opt_short_one(v),
            ));
            assert(pieces_os2@.map_values(|s: String| s@) =~= g_other_short(avs).map_values(
                |v: ArgView| opt_other_short_one(v),
            ));
            assert(pieces_ol2@.map_values(|s: String| s@) =~= g_other_long(avs).map_values(
                |v: ArgView| opt_other_long_one(v),
            ));
            assert(pieces_ob2@.map_values(|s: String| s@) =~= g_both(avs).map_values(
                |v: ArgView| opt_both_one(v),
            ));
        }
        (synopsis, options)
    }

    /// Compose the whole page around the static usage and see-also
    /// sections, which the caller reads from disk.
    pub fn render(&self, usage: &str, see_also: &str) -> (r: String)
        requires
            forall|j: int|
                0 <= j < self.args_view().len() ==> (#[trigger] self.args_view()[j]).0 is Some
                    || self.args_view()[j].1 is Some,
        ensures
            r@ == manpage_text(
                self.name_view(),
                self.version_view(),
                self.section_view(),
                self.desc_short_view(),
                self.descriptions_view(),
                self.args_view(),
                self.buildmsg_view(),
                self.plugins_view(),
                usage@,
                see_also@,
            ),
    {
        let mut heading = ".TH ".to_owned();
        heading.append(to_uppercase(self.name.as_str()).as_str());
        heading.append(" ");
        heading.append(u32_to_string(self.section).as_str());
        heading.append(" ");
        heading.append(self.name.as_str());
        heading.append("\\-");
        heading.append(self.version.as_str());
        let mut namesec = ".SH NAME\n".to_owned();
        namesec.append(self.name.as_str());
        namesec.append(" \\- ");
        namesec.append(self.desc_short.as_str());
        let mut desc_pieces: Vec<String> = Vec::new();
        let mut k: usize = 0;
        while k < self.descriptions.len()
            invariant
                k <= self.descriptions@.len(),
                desc_pieces@.len() == k,
                forall|j: int|
                    0 <= j < k ==> (#[trigger] desc_pieces@[j])@ == ".B "@
                        + self.descriptions@[j].0@ + "\n"@ + self.descriptions@[j].1@,
            decreases self.descriptions@.len() - k,
        {
            let mut p = ".B ".to_owned();
            p.append(self.descriptions[k].0.as_str());
            p.append("\n");
            p.append(self.descriptions[k].1.as_str());
            desc_pieces.push(p);
            k = k + 1;
        }
        let mut description = ".SH DESCRIPTION\n".to_owned();
        description.append(join_strings(&desc_pieces, "\n.P\n").as_str());
        proof {
            assert(desc_pieces@.map_values(|s: String| s@) =~= self.descriptions_view().map_values(
                |p: (Seq<char>, Seq<char>)| ".B "@ + p.0 + "\n"@ + p.1,
            ));
        }
        let (synopsis, options) = self.gen_argstrs();
        let build = match &self.buildmsg {
            Some(b) => {
                let mut s = ".SH BUILD\n".to_owned();
                s.append(b.as_str());
                if self.plugins.len() > 0 {
                    s.append("\ndmenu-rs has been compiled with the following plugins:\n");
                    let mut plugin_pieces: Vec<String> = Vec::new();
                    let mut m: usize = 0;
                    while m < self.plugins.len()
                        invariant
                            m <= self.plugins@.len(),
                            plugin_pieces@.len() == m,
                            forall|j: int|
                                0 <= j < m ==> (#[trigger] plugin_pieces@[j])@ == ".TP\n.B "@
                                    + self.plugins@[j].0@ + "\n"@ + br_escaped(
                                    self.plugins@[j].1@,
                                ),
                        decreases self.plugins@.len() - m,
                    {
                        let mut p = ".TP\n.B ".to_owned();
                        p.append(self.plugins[m].0.as_str());
                        p.append("\n");
                        p.append(br_escape(self.plugins[m].1.as_str()).as_str());
                        plugin_pieces.push(p);
                        m = m + 1;
                    }
                    s.append(join_strings(&plugin_pieces, "\n").as_str());
                    proof {
                        assert(plugin_pieces@.map_values(|t: String| t@)
                            =~= self.plugins_view().map_values(
                            |p: (Seq<char>, Seq<char>)| ".TP\n.B "@ + p.0 + "\n"@ + br_escaped(
                                p.1,
                            ),
                        ));
                    }
                }
                s
            },
            Option::None => String::new(),
        };
        let mut sections: Vec<String> = Vec::new();
        sections.push(heading);
        sections.push(namesec);
        sections.push(synopsis);
        sections.push(build);
        sections.push(description);
        sections.push(options);
        sections.push(usage.to_owned());
        sections.push(see_also.to_owned());
        let r = join_strings(&sections, "\n");
        proof {
            assert(sections@.map_values(|s: String| s@)[0] =~= th_heading(
                self.name_view(),
                self.section_view(),
                self.version_view(),
            ));
            assert(sections@.map_values(|s: String| s@)[1] =~= name_section(
                self.name_view(),
                self.desc_short_view(),
            ));
            assert(sections@.map_values(|s: String| s@)[2] =~= synopsis_spec(
                self.name_view(),
                self.args_view(),
            ));
            assert(sections@.map_values(|s: String| s@)[3] =~= build_section(
                self.buildmsg_view(),
                self.plugins_view(),
            ));
            assert(sections@.map_values(|s: String| s@)[4] =~= description_section(
                self.descriptions_view(),
            ));
            assert(sections@.map_values(|s: String| s@)[5] =~= options_spec(self.args_view()));
            assert(sections@.map_values(|s: String| s@)[6] =~= usage@);
            assert(sections@.map_values(|s: String| s@)[7] =~= see_also@);
            assert(sections@.map_values(|s: String| s@) =~= seq![
                th_heading(self.name_view(), self.section_view(), self.version_view()),
                name_section(self.name_view(), self.desc_short_view()),
                synopsis_spec(self.name_view(), self.args_view()),
                build_section(self.buildmsg_view(), self.plugins_view()),
                description_section(self.descriptions_view()),
                options_spec(self.args_view()),
                usage@,
                see_also@,
            ]);
        }
        r
    }

    /// Record one compiled-in plugin for the BUILD section.
    pub fn plugin(&mut self, name: String, desc: String)
        ensures
            final(self).plugins_view() == old(self).plugins_view().push((name@, desc@)),
            final(self).name_view() == old(self).name_view(),
            final(self).version_view() == old(self).version_view(),
            final(self).section_view() == old(self).section_view(),
            final(self).desc_short_view() == old(self).desc_short_view(),
            final(self).descriptions_view() == old(self).descriptions_view(),
            final(self).args_view() == old(self).args_view(),
            final(self).buildmsg_view() == old(self).buildmsg_view(),
    {
        self.plugins.push((name, desc));
        proof {
            assert(final(self).plugins_view() =~= old(self).plugins_view().push((name@, desc@)));
        }
    }
}

} // verus!
