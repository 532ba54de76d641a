//! Helpers shared by app command-line tools: token resolution and the text
//! of the unified help page.

use vstd::prelude::*;

use crate::text::{
    byte_len, byte_width, first_line, first_line_trimmed, is_blank, is_blank_text, pad_right, pad_to,
    to_uppercase, uppercase,
};

verus! {

/// Common CLI authentication parameters (flag or environment).
#[derive(Debug, Clone)]
pub struct TokimoAuthArgs {
    /// API token (`mm_xxx`).
    pub token: Option<String>,
}

/// Resolved authentication credentials.
#[derive(Debug, Clone)]
pub struct Credentials {
    /// API token (`mm_xxx`).
    pub token: String,
}

/// The refusal when no usable token was given.
#[derive(Debug, Clone)]
pub struct MissingToken {
    /// What to tell the user.
    pub message: String,
}

/// What the user is told when the token is missing.
pub open spec fn missing_token_text() -> Seq<char> {
    "missing --tokimo-token (or TOKIMO_TOKEN env). Create one in the main server Settings → API Keys."@
}

impl Credentials {
    /// Takes the token from the arguments; a missing or blank token is
    /// refused.
    pub fn resolve(args: &TokimoAuthArgs) -> (r: Result<Credentials, MissingToken>)
        ensures
            (args.token is None || is_blank_text(args.token->Some_0@)) ==> (r matches Err(e) && e.message@
                == missing_token_text()),
            (args.token is Some && !is_blank_text(args.token->Some_0@)) ==> (r matches Ok(c) && c.token@
                == args.token->Some_0@),
    {
        match &args.token {
            Some(t) => {
                if !is_blank(t.as_str()) {
                    return Ok(Credentials { token: t.clone() });
                }
            },
            None => {},
        }
        Err(
            MissingToken {
                message: String::from_str(
                    "missing --tokimo-token (or TOKIMO_TOKEN env). Create one in the main server Settings → API Keys.",
                ),
            },
        )
    }
}

/// The sentence-ending punctuation that help descriptions lose at their end:
/// Chinese full-width and ASCII marks.
pub open spec fn is_trailing_punct(c: char) -> bool {
    c == '。' || c == '！' || c == '？' || c == '；' || c == '，' || c == '、' || c == '…' || c == '.'
        || c == '!' || c == '?' || c == ';' || c == ','
}

/// `s` without the run of trailing punctuation at its end.
pub open spec fn trim_punct(s: Seq<char>) -> Seq<char>
    decreases s.len(),
{
    if s.len() > 0 && is_trailing_punct(s.last()) {
        trim_punct(s.drop_last())
    } else {
        s
    }
}

fn is_punct_char(c: char) -> (r: bool)
    ensures
        r == is_trailing_punct(c),
{
    c == '。' || c == '！' || c == '？' || c == '；' || c == '，' || c == '、' || c == '…' || c == '.'
        || c == '!' || c == '?' || c == ';' || c == ','
}

/// Trims sentence-ending punctuation (Chinese and ASCII) from the end.
pub fn trim_trailing_punctuation(s: String) -> (r: String)
    ensures
        r@ == trim_punct(s@),
{
    let mut n = s.as_str().unicode_len();
    assert(s@.subrange(0, n as int) =~= s@);
    while n > 0 && is_punct_char(s.as_str().get_char(n - 1))
        invariant
            n <= s@.len(),
            trim_punct(s@) == trim_punct(s@.subrange(0, n as int)),
        decreases n,
    {
        assert(s@.subrange(0, n as int).drop_last() =~= s@.subrange(0, n - 1));
        n = n - 1;
    }
    proof {
        if n > 0 {
            assert(s@.subrange(0, n as int).last() == s@[n - 1]);
        }
    }
    String::from_str(s.as_str().substring_char(0, n))
}

} // verus!

verus! {

/// What an argument does when it is given.
#[derive(Debug, Clone, Copy, PartialEq, Eq, Structural)]
pub enum ArgActionKind {
    /// Stores the value.
    Store,
    /// Appends the value.
    Append,
    /// Sets a flag to true.
    SetTrue,
    /// Sets a flag to false.
    SetFalse,
    /// Counts occurrences.
    Count,
    /// Prints help.
    Help,
    /// Prints short help.
    HelpShort,
    /// Prints long help.
    HelpLong,
    /// Prints the version.
    Version,
}

/// Whether an argument with this action takes a value.
pub open spec fn takes_value(a: ArgActionKind) -> bool {
    !(a is SetTrue || a is SetFalse || a is Count || a is Help || a is Version)
}

/// Decides `takes_value`.
pub fn is_value_taking(a: ArgActionKind) -> (r: bool)
    ensures
        r == takes_value(a),
{
    match a {
        ArgActionKind::SetTrue => false,
        ArgActionKind::SetFalse => false,
        ArgActionKind::Count => false,
        ArgActionKind::Help => false,
        ArgActionKind::Version => false,
        _ => true,
    }
}

/// What the help page reads of a command-line argument.
#[derive(Debug, Clone)]
pub struct ArgInfo {
    /// Argument id.
    pub id: String,
    /// Long flag name, if any.
    pub long: Option<String>,
    /// Positional rather than a flag.
    pub positional: bool,
    /// Required.
    pub required: bool,
    /// Propagated to subcommands.
    pub global: bool,
    /// Accepts more than one value.
    pub multiple: bool,
    /// Its action.
    pub action: ArgActionKind,
    /// First value name, if any.
    pub value_name: Option<String>,
    /// Help text, if any.
    pub help: Option<String>,
    /// Environment variable it reads, if any.
    pub env: Option<String>,
}

/// What the help page reads of a command: its name, descriptions,
/// arguments and subcommands.
#[derive(Debug)]
pub struct CommandInfo {
    /// Command name.
    pub name: String,
    /// Short description.
    pub about: Option<String>,
    /// Long description.
    pub long_about: Option<String>,
    /// Arguments.
    pub args: Vec<ArgInfo>,
    /// Subcommands.
    pub subcommands: Vec<CommandInfo>,
}

/// The placeholder of a positional argument: `<ID>` if required, `[ID]`
/// otherwise, with `...` after it when it takes several values.
pub open spec fn positional_text(a: ArgInfo) -> Seq<char> {
    let name = uppercase(a.id@);
    let p = if a.required {
        seq!['<'] + name + seq!['>']
    } else {
        seq!['['] + name + seq![']']
    };
    if a.multiple {
        p + "..."@
    } else {
        p
    }
}

/// `parts` joined with single spaces.
pub open spec fn join_spaced(parts: Seq<Seq<char>>) -> Seq<char>
    decreases parts.len(),
{
    if parts.len() == 0 {
        Seq::empty()
    } else if parts.len() == 1 {
        parts[0]
    } else {
        join_spaced(parts.drop_last()) + seq![' '] + parts.last()
    }
}

/// The placeholders of the positional arguments among `args`, in order.
pub open spec fn positional_parts(args: Seq<ArgInfo>) -> Seq<Seq<char>>
    decreases args.len(),
{
    if args.len() == 0 {
        Seq::empty()
    } else {
        let rest = positional_parts(args.drop_last());
        if args.last().positional {
            rest.push(positional_text(args.last()))
        } else {
            rest
        }
    }
}

/// A leaf command's signature: its path, then its positional placeholders.
pub open spec fn signature_text(cmd: CommandInfo, path: Seq<Seq<char>>) -> Seq<char> {
    join_spaced(path + positional_parts(cmd.args@))
}

fn positional_placeholder(a: &ArgInfo) -> (r: String)
    ensures
        r@ == positional_text(*a),
{
    let name = to_uppercase(a.id.as_str());
    let mut p = String::new();
    if a.required {
        crate::text::push_char(&mut p, '<');
        p.append(name.as_str());
        crate::text::push_char(&mut p, '>');
    } else {
        crate::text::push_char(&mut p, '[');
        p.append(name.as_str());
        crate::text::push_char(&mut p, ']');
    }
    if a.multiple {
        p.append("...");
    }
    assert(p@ =~= positional_text(*a));
    p
}

/// The signature of a leaf command reached by `path`.
pub fn build_signature(cmd: &CommandInfo, path: &Vec<String>) -> (r: String)
    ensures
        r@ == signature_text(*cmd, path@.map_values(|s: String| s@)),
{
    let mut parts: Vec<String> = crate::broker::duplicate_strings(path);
    let ghost head = parts@.map_values(|s: String| s@);
    let mut j: usize = 0;
    while j < cmd.args.len()
        invariant
            j <= cmd.args@.len(),
            parts@.map_values(|s: String| s@) == head + positional_parts(cmd.args@.subrange(0, j as int)),
        decreases cmd.args@.len() - j,
    {
        let ghost before = parts@.map_values(|s: String| s@);
        assert(cmd.args@.subrange(0, j + 1).drop_last() =~= cmd.args@.subrange(0, j as int));
        if cmd.args[j].positional {
            parts.push(positional_placeholder(&cmd.args[j]));
            assert(parts@.map_values(|s: String| s@) =~= before.push(positional_text(cmd.args@[j as int])));
        }
        j = j + 1;
    }
    assert(cmd.args@.subrange(0, cmd.args@.len() as int) =~= cmd.args@);
    join_strings(&parts)
}

/// Joins strings with single spaces.
fn join_strings(parts: &Vec<String>) -> (r: String)
    ensures
        r@ == join_spaced(parts@.map_values(|s: String| s@)),
{
    let mut r = String::new();
    let mut i: usize = 0;
    while i < parts.len()
        invariant
            i <= parts@.len(),
            r@ == join_spaced(parts@.subrange(0, i as int).map_values(|s: String| s@)),
        decreases parts@.len() - i,
    {
        let ghost pre = parts@.subrange(0, i as int).map_values(|s: String| s@);
        let ghost cur = parts@.subrange(0, i + 1).map_values(|s: String| s@);
        assert(cur.drop_last() =~= pre);
        if i > 0 {
            crate::text::push_char(&mut r, ' ');
        }
        r.append(parts[i].as_str());
        proof {
            if i == 0 {
                assert(cur.len() == 1);
                assert(r@ =~= cur[0]);
            } else {
                assert(r@ =~= join_spaced(pre) + seq![' '] + cur.last());
            }
        }
        i = i + 1;
    }
    assert(parts@.subrange(0, parts@.len() as int) =~= parts@);
    r
}

/// The left column of a global option: `--long`, followed by ` <NAME>` for
/// an option that takes a value (its first value name, or else its id, in
/// upper case); empty for an argument without a long name.
pub open spec fn option_left_text(a: ArgInfo) -> Seq<char> {
    match a.long {
        None => Seq::empty(),
        Some(long) => {
            let flag = "--"@ + long@;
            if takes_value(a.action) {
                let name = match a.value_name {
                    Some(v) => uppercase(v@),
                    None => uppercase(a.id@),
                };
                flag + " <"@ + name + seq!['>']
            } else {
                flag
            }
        },
    }
}

/// The right column of a global option: the first line of its help, and
/// its environment variable as `[env: NAME]`.
pub open spec fn option_right_text(a: ArgInfo) -> Seq<char> {
    let first = match a.help {
        Some(h) => first_line_trimmed(h@),
        None => Seq::empty(),
    };
    match a.env {
        Some(e) => if first.len() == 0 {
            "[env: "@ + e@ + seq![']']
        } else {
            first + "  [env: "@ + e@ + seq![']']
        },
        None => first,
    }
}

/// The left column of a global option.
pub fn format_option_left(a: &ArgInfo) -> (r: String)
    ensures
        r@ == option_left_text(*a),
{
    match &a.long {
        None => String::new(),
        Some(long) => {
            let mut s = String::from_str("--");
            s.append(long.as_str());
            if is_value_taking(a.action) {
                let name = match &a.value_name {
                    Some(v) => to_uppercase(v.as_str()),
                    None => to_uppercase(a.id.as_str()),
                };
                s.append(" <");
                s.append(name.as_str());
                crate::text::push_char(&mut s, '>');
            }
            assert(s@ =~= option_left_text(*a));
            s
        },
    }
}

/// The right column of a global option.
pub fn format_option_right(a: &ArgInfo) -> (r: String)
    ensures
        r@ == option_right_text(*a),
{
    let first = match &a.help {
        Some(h) => first_line(h.as_str()),
        None => String::new(),
    };
    match &a.env {
        Some(e) => {
            let mut s = if first.as_str().unicode_len() == 0 {
                String::from_str("[env: ")
            } else {
                let mut t = first.clone();
                t.append("  [env: ");
                t
            };
            s.append(e.as_str());
            crate::text::push_char(&mut s, ']');
            assert(s@ =~= option_right_text(*a));
            s
        },
        None => first,
    }
}

} // verus!

verus! {

/// The description of a leaf command: the first line of its short
/// description, trimmed, without trailing punctuation.
pub open spec fn leaf_desc(c: CommandInfo) -> Seq<char> {
    match c.about {
        Some(a) => trim_punct(first_line_trimmed(a@)),
        None => Seq::empty(),
    }
}

/// The leaf commands under `cmd`, depth first, as (signature, description);
/// `parents` is the path to `cmd`, and `help` subcommands are left out.
pub open spec fn leaves_of(cmd: CommandInfo, parents: Seq<Seq<char>>) -> Seq<(Seq<char>, Seq<char>)>
    decreases cmd,
{
    leaves_in(cmd.subcommands@, parents)
}

/// The leaves under a list of sibling commands whose parent path is `parents`.
pub open spec fn leaves_in(subs: Seq<CommandInfo>, parents: Seq<Seq<char>>) -> Seq<(Seq<char>, Seq<char>)>
    decreases subs,
{
    if subs.len() == 0 {
        Seq::empty()
    } else {
        let rest = leaves_in(subs.drop_last(), parents);
        let sub = subs.last();
        let path = parents.push(sub.name@);
        if sub.name@ == "help"@ {
            rest
        } else if sub.subcommands@.len() > 0 {
            rest + leaves_of(sub, path)
        } else {
            rest.push((signature_text(sub, path), leaf_desc(sub)))
        }
    }
}

/// The rows of a table as plain text.
pub open spec fn rows_view(rows: Seq<(String, String)>) -> Seq<(Seq<char>, Seq<char>)> {
    rows.map_values(|r: (String, String)| (r.0@, r.1@))
}

/// The description of a leaf command.
fn leaf_description(c: &CommandInfo) -> (r: String)
    ensures
        r@ == leaf_desc(*c),
{
    match &c.about {
        Some(a) => trim_trailing_punctuation(first_line(a.as_str())),
        None => String::new(),
    }
}

/// Collects the leaf commands under `cmd`, reached by `parents`.
pub fn collect_leaves(cmd: &CommandInfo, parents: &Vec<String>) -> (r: Vec<(String, String)>)
    ensures
        rows_view(r@) == leaves_of(*cmd, parents@.map_values(|s: String| s@)),
    decreases cmd,
{
    let ghost pv = parents@.map_values(|s: String| s@);
    let mut result: Vec<(String, String)> = Vec::new();
    let subs = &cmd.subcommands;
    let mut i: usize = 0;
    while i < subs.len()
        invariant
            i <= subs@.len(),
            subs@ == cmd.subcommands@,
            pv == parents@.map_values(|s: String| s@),
            rows_view(result@) == leaves_in(subs@.subrange(0, i as int), pv),
        decreases subs@.len() - i,
    {
        let sub = &subs[i];
        let ghost pre = subs@.subrange(0, i as int);
        let ghost cur = subs@.subrange(0, i + 1);
        assert(cur.drop_last() =~= pre);
        assert(cur.last() == *sub);
        let ghost before = rows_view(result@);
        if !crate::text::same_text(sub.name.as_str(), "help") {
            let mut path = crate::broker::duplicate_strings(parents);
            path.push(sub.name.clone());
            assert(path@.map_values(|s: String| s@) =~= pv.push(sub.name@));
            if sub.subcommands.len() > 0 {
                assert(decreases_to!(*cmd => cmd.subcommands@[i as int]));
                let more = collect_leaves(sub, &path);
                let mut k: usize = 0;
                while k < more.len()
                    invariant
                        k <= more@.len(),
                        rows_view(result@) == before + rows_view(more@).subrange(0, k as int),
                    decreases more@.len() - k,
                {
                    let ghost prev = result@;
                    result.push((more[k].0.clone(), more[k].1.clone()));
                    assert(rows_view(result@) =~= rows_view(prev).push(rows_view(more@)[k as int]));
                    assert(rows_view(more@).subrange(0, k + 1) =~= rows_view(more@).subrange(0, k as int).push(
                        rows_view(more@)[k as int],
                    ));
                    k = k + 1;
                }
                assert(rows_view(more@).subrange(0, more@.len() as int) =~= rows_view(more@));
            } else {
                let sig = build_signature(sub, &path);
                let desc = leaf_description(sub);
                result.push((sig, desc));
                assert(rows_view(result@) =~= before.push((signature_text(*sub, pv.push(sub.name@)), leaf_desc(*sub))));
            }
        }
        i = i + 1;
    }
    assert(subs@.subrange(0, subs@.len() as int) =~= subs@);
    result
}

} // verus!

verus! {

/// The widest first column among `rows`, in bytes (0 for no rows).
pub open spec fn max_width(rows: Seq<(Seq<char>, Seq<char>)>) -> nat
    decreases rows.len(),
{
    if rows.len() == 0 {
        0
    } else {
        let w = max_width(rows.drop_last());
        let x = byte_width(rows.last().0);
        if w >= x { w } else { x }
    }
}

/// One row of a two-column table: indented by two spaces; with a second
/// column, the first is padded to `w` characters and two spaces separate them.
pub open spec fn row_text(row: (Seq<char>, Seq<char>), w: nat) -> Seq<char> {
    if row.1.len() == 0 {
        "  "@ + row.0
    } else {
        "  "@ + pad_right(row.0, w) + "  "@ + row.1
    }
}

/// The rows of a table, each padded to `w`.
pub open spec fn rows_text(rows: Seq<(Seq<char>, Seq<char>)>, w: nat) -> Seq<Seq<char>> {
    rows.map_values(|r: (Seq<char>, Seq<char>)| row_text(r, w))
}

/// A titled table followed by a blank line; nothing at all without rows.
pub open spec fn section_lines(title: Seq<char>, rows: Seq<(Seq<char>, Seq<char>)>) -> Seq<Seq<char>> {
    if rows.len() == 0 {
        Seq::empty()
    } else {
        seq![title] + rows_text(rows, max_width(rows)) + seq![Seq::<char>::empty()]
    }
}

/// Whether an argument is listed among the global options: global, not
/// positional, and not the automatic `help` or `version` flag.
pub open spec fn is_listed_global(a: ArgInfo) -> bool {
    a.global && !a.positional && a.id@ != "help"@ && a.id@ != "version"@
}

/// The global-option rows of `args`, in order.
pub open spec fn global_rows(args: Seq<ArgInfo>) -> Seq<(Seq<char>, Seq<char>)>
    decreases args.len(),
{
    if args.len() == 0 {
        Seq::empty()
    } else {
        let rest = global_rows(args.drop_last());
        if is_listed_global(args.last()) {
            rest.push((option_left_text(args.last()), option_right_text(args.last())))
        } else {
            rest
        }
    }
}

/// The description at the top of the page: the long one if any, else the
/// short one.
pub open spec fn header_lines(cmd: CommandInfo) -> Seq<Seq<char>> {
    match cmd.long_about {
        Some(t) => seq![t@, Seq::<char>::empty()],
        None => match cmd.about {
            Some(t) => seq![t@, Seq::<char>::empty()],
            None => Seq::empty(),
        },
    }
}

/// The unified help page, line by line: description, usage, every leaf
/// command in one table, the global options, and a closing hint.
pub open spec fn help_lines(cmd: CommandInfo) -> Seq<Seq<char>> {
    header_lines(cmd) + seq!["Usage: "@ + cmd.name@ + " [OPTIONS] <SUBCOMMAND>"@, Seq::<char>::empty()]
        + section_lines("Commands:"@, leaves_of(cmd, Seq::empty())) + section_lines(
        "Global Options:"@,
        global_rows(cmd.args@),
    ) + seq!["Run '"@ + cmd.name@ + " <subcommand> --help' for details on a specific command."@]
}

/// The widest first column of `rows`, in bytes.
fn widest(rows: &Vec<(String, String)>) -> (w: usize)
    ensures
        w == max_width(rows_view(rows@)),
{
    let mut w: usize = 0;
    let mut i: usize = 0;
    while i < rows.len()
        invariant
            i <= rows@.len(),
            w == max_width(rows_view(rows@.subrange(0, i as int))),
        decreases rows@.len() - i,
    {
        let x = byte_len(rows[i].0.as_str());
        assert(rows_view(rows@.subrange(0, i + 1)).drop_last() =~= rows_view(rows@.subrange(0, i as int)));
        if x > w {
            w = x;
        }
        i = i + 1;
    }
    assert(rows@.subrange(0, rows@.len() as int) =~= rows@);
    w
}

/// Appends a titled table and a blank line to `out`, if there are rows.
fn push_section(out: &mut Vec<String>, title: &str, rows: &Vec<(String, String)>)
    ensures
        final(out)@.map_values(|s: String| s@) == old(out)@.map_values(|s: String| s@) + section_lines(
            title@,
            rows_view(rows@),
        ),
{
    let ghost start = old(out)@.map_values(|s: String| s@);
    if rows.len() == 0 {
        assert(final(out)@.map_values(|s: String| s@) =~= start + section_lines(title@, rows_view(rows@)));
        return;
    }
    let w = widest(rows);
    out.push(String::from_str(title));
    let ghost head = out@.map_values(|s: String| s@);
    assert(head =~= start + seq![title@]);
    let mut i: usize = 0;
    while i < rows.len()
        invariant
            i <= rows@.len(),
            w == max_width(rows_view(rows@)),
            out@.map_values(|s: String| s@) == head + rows_text(rows_view(rows@), w as nat).subrange(0, i as int),
        decreases rows@.len() - i,
    {
        let ghost prev = out@.map_values(|s: String| s@);
        let mut line = String::from_str("  ");
        if rows[i].1.as_str().unicode_len() == 0 {
            line.append(rows[i].0.as_str());
        } else {
            let padded = pad_to(rows[i].0.as_str(), w);
            line.append(padded.as_str());
            line.append("  ");
            line.append(rows[i].1.as_str());
        }
        assert(line@ == row_text(rows_view(rows@)[i as int], w as nat));
        out.push(line);
        assert(rows_text(rows_view(rows@), w as nat).subrange(0, i + 1) =~= rows_text(rows_view(rows@), w as nat).subrange(
            0,
            i as int,
        ).push(row_text(rows_view(rows@)[i as int], w as nat)));
        assert(out@.map_values(|s: String| s@) =~= prev.push(line@));
        i = i + 1;
    }
    let ghost body = out@.map_values(|s: String| s@);
    out.push(String::new());
    assert(out@.map_values(|s: String| s@) =~= body.push(Seq::<char>::empty()));
    assert(rows_text(rows_view(rows@), w as nat).subrange(0, rows@.len() as int) =~= rows_text(rows_view(rows@), w as nat));
    assert(out@.map_values(|s: String| s@) =~= start + section_lines(title@, rows_view(rows@)));
}

/// The global-option rows of `args`.
fn global_option_rows(args: &Vec<ArgInfo>) -> (r: Vec<(String, String)>)
    ensures
        rows_view(r@) == global_rows(args@),
{
    let mut r: Vec<(String, String)> = Vec::new();
    let mut i: usize = 0;
    while i < args.len()
        invariant
            i <= args@.len(),
            rows_view(r@) == global_rows(args@.subrange(0, i as int)),
        decreases args@.len() - i,
    {
        let a = &args[i];
        let ghost before = rows_view(r@);
        assert(args@.subrange(0, i + 1).drop_last() =~= args@.subrange(0, i as int));
        if a.global && !a.positional && !crate::text::same_text(a.id.as_str(), "help")
            && !crate::text::same_text(a.id.as_str(), "version") {
            r.push((format_option_left(a), format_option_right(a)));
            assert(rows_view(r@) =~= before.push((option_left_text(*a), option_right_text(*a))));
        }
        i = i + 1;
    }
    assert(args@.subrange(0, args@.len() as int) =~= args@);
    r
}

/// The unified help page of `cmd`, one printed line per element.
pub fn render_help(cmd: &CommandInfo) -> (lines: Vec<String>)
    ensures
        lines@.map_values(|s: String| s@) == help_lines(*cmd),
{
    let mut out: Vec<String> = Vec::new();
    let header = match &cmd.long_about {
        Some(t) => Some(t.clone()),
        None => match &cmd.about {
            Some(t) => Some(t.clone()),
            None => None,
        },
    };
    match header {
        Some(t) => {
            out.push(t);
            out.push(String::new());
        },
        None => {},
    }
    assert(out@.map_values(|s: String| s@) =~= header_lines(*cmd));
    let ghost h = out@.map_values(|s: String| s@);
    let mut usage = String::from_str("Usage: ");
    usage.append(cmd.name.as_str());
    usage.append(" [OPTIONS] <SUBCOMMAND>");
    out.push(usage);
    out.push(String::new());
    assert(out@.map_values(|s: String| s@) =~= h + seq![
        "Usage: "@ + cmd.name@ + " [OPTIONS] <SUBCOMMAND>"@,
        Seq::<char>::empty(),
    ]);
    let no_parents: Vec<String> = Vec::new();
    assert(no_parents@.map_values(|s: String| s@) =~= Seq::<Seq<char>>::empty());
    let leaves = collect_leaves(cmd, &no_parents);
    push_section(&mut out, "Commands:", &leaves);
    let globals = global_option_rows(&cmd.args);
    push_section(&mut out, "Global Options:", &globals);
    let mut hint = String::from_str("Run '");
    hint.append(cmd.name.as_str());
    hint.append(" <subcommand> --help' for details on a specific command.");
    let ghost before = out@.map_values(|s: String| s@);
    out.push(hint);
    assert(out@.map_values(|s: String| s@) =~= before.push(hint@));
    assert(out@.map_values(|s: String| s@) =~= help_lines(*cmd));
    out
}

/// The two columns of the help row of an option.
pub open spec fn option_row(a: ArgInfo) -> (Seq<char>, Seq<char>) {
    (option_left_text(a), option_right_text(a))
}

/// An option that help lists with its flags: not positional, and not the
/// automatic `help` or `version` flag.
pub open spec fn option_flag(a: ArgInfo) -> bool {
    !a.positional && a.id@ != "help"@ && a.id@ != "version"@
}

/// Law: every row of the Global Options section is the row of an argument
/// whose global flag is set, which is not positional and not the automatic
/// `help` or `version` flag; the result is that argument's index.
pub proof fn lemma_global_row_source(args: Seq<ArgInfo>, i: int) -> (j: int)
    requires
        0 <= i < global_rows(args).len(),
    ensures
        0 <= j < args.len(),
        args[j].global,
        option_flag(args[j]),
        global_rows(args)[i] === option_row(args[j]),
    decreases args.len(),
{
    let rest = args.drop_last();
    let rr = global_rows(rest);
    if i < rr.len() {
        let j = lemma_global_row_source(rest, i);
        assert(global_rows(args)[i] === rr[i]);
        assert(args[j] === rest[j]);
        j
    } else {
        (args.len() - 1) as int
    }
}

/// Law: every global argument that is not positional and not the automatic
/// `help` or `version` flag has its row in the Global Options section; the
/// result is the row's index.
pub proof fn lemma_global_row_position(args: Seq<ArgInfo>, j: int) -> (i: int)
    requires
        0 <= j < args.len(),
        args[j].global,
        option_flag(args[j]),
    ensures
        0 <= i < global_rows(args).len(),
        global_rows(args)[i] === option_row(args[j]),
    decreases args.len(),
{
    let rest = args.drop_last();
    if j < rest.len() {
        assert(args[j] === rest[j]);
        let i = lemma_global_row_position(rest, j);
        assert(global_rows(args)[i] === global_rows(rest)[i]);
        i
    } else {
        (global_rows(args).len() - 1) as int
    }
}

} // verus!
