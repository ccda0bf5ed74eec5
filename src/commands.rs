//! The directive catalog: names, descriptions, lookup by name, the `:dep`
//! argument grammar and the help listing.
use vstd::prelude::*;
use crate::text::{chars_of, str_eq, starts_with, push_char, string_of};
use crate::segment::{find_char, skip_spaces, find_char_from};

verus! {

/// The directives, in the order of their names.
#[derive(Clone, Copy, Debug, PartialEq, Eq, Structural)]
pub enum CommandKind {
    Clear,
    Dep,
    Efmt,
    Explain,
    Fmt,
    Help,
    InternalDebug,
    LastCompileDir,
    LastErrorJson,
    Linker,
    LoadConfig,
    Offline,
    Opt,
    PreserveVarsOnPanic,
    Quit,
    Sccache,
    TimePasses,
    Timing,
    Toolchain,
    Vars,
    Version,
}

/// The name of a directive.
pub open spec fn name_of(k: CommandKind) -> Seq<char> {
    match k {
        CommandKind::Clear => ":clear"@,
        CommandKind::Dep => ":dep"@,
        CommandKind::Efmt => ":efmt"@,
        CommandKind::Explain => ":explain"@,
        CommandKind::Fmt => ":fmt"@,
        CommandKind::Help => ":help"@,
        CommandKind::InternalDebug => ":internal_debug"@,
        CommandKind::LastCompileDir => ":last_compile_dir"@,
        CommandKind::LastErrorJson => ":last_error_json"@,
        CommandKind::Linker => ":linker"@,
        CommandKind::LoadConfig => ":load_config"@,
        CommandKind::Offline => ":offline"@,
        CommandKind::Opt => ":opt"@,
        CommandKind::PreserveVarsOnPanic => ":preserve_vars_on_panic"@,
        CommandKind::Quit => ":quit"@,
        CommandKind::Sccache => ":sccache"@,
        CommandKind::TimePasses => ":time_passes"@,
        CommandKind::Timing => ":timing"@,
        CommandKind::Toolchain => ":toolchain"@,
        CommandKind::Vars => ":vars"@,
        CommandKind::Version => ":version"@,
    }
}

/// The one-line description of a directive.
pub open spec fn description_of(k: CommandKind) -> Seq<char> {
    match k {
        CommandKind::Clear => "Clear all state, keeping compilation cache"@,
        CommandKind::Dep => "Add dependency. e.g. :dep regex = \"1.0\""@,
        CommandKind::Efmt => "Set the formatter for errors returned by ?"@,
        CommandKind::Explain => "Print explanation of last error"@,
        CommandKind::Fmt => "Set output formatter (default: {:?})"@,
        CommandKind::Help => "Print command help"@,
        CommandKind::InternalDebug => "Toggle various internal debugging code"@,
        CommandKind::LastCompileDir => "Print the directory in which we last compiled"@,
        CommandKind::LastErrorJson => "Print the last compilation error as JSON (for debugging)"@,
        CommandKind::Linker => "Set/print linker. Supported: system, lld"@,
        CommandKind::LoadConfig => "Reloads startup configuration files"@,
        CommandKind::Offline => "Set offline mode when invoking cargo"@,
        CommandKind::Opt => "Set optimization level (0/1/2)"@,
        CommandKind::PreserveVarsOnPanic => "Try to keep vars on panic (0/1)"@,
        CommandKind::Quit => "Quit evaluation and exit"@,
        CommandKind::Sccache => "Set whether to use sccache (0/1)."@,
        CommandKind::TimePasses => "Toggle printing of rustc pass times (requires nightly)"@,
        CommandKind::Timing => "Toggle printing of how long evaluations take"@,
        CommandKind::Toolchain => "Set which toolchain to use (e.g. nightly)"@,
        CommandKind::Vars => "List bound variables and their types"@,
        CommandKind::Version => "Print Evcxr version"@,
    }
}

/// Every directive, sorted by name.
pub open spec fn catalog() -> Seq<CommandKind> {
    seq![
        CommandKind::Clear,
        CommandKind::Dep,
        CommandKind::Efmt,
        CommandKind::Explain,
        CommandKind::Fmt,
        CommandKind::Help,
        CommandKind::InternalDebug,
        CommandKind::LastCompileDir,
        CommandKind::LastErrorJson,
        CommandKind::Linker,
        CommandKind::LoadConfig,
        CommandKind::Offline,
        CommandKind::Opt,
        CommandKind::PreserveVarsOnPanic,
        CommandKind::Quit,
        CommandKind::Sccache,
        CommandKind::TimePasses,
        CommandKind::Timing,
        CommandKind::Toolchain,
        CommandKind::Vars,
        CommandKind::Version,
    ]
}

/// Where a directive stands in the catalog.
pub open spec fn catalog_index(k: CommandKind) -> int {
    match k {
        CommandKind::Clear => 0,
        CommandKind::Dep => 1,
        CommandKind::Efmt => 2,
        CommandKind::Explain => 3,
        CommandKind::Fmt => 4,
        CommandKind::Help => 5,
        CommandKind::InternalDebug => 6,
        CommandKind::LastCompileDir => 7,
        CommandKind::LastErrorJson => 8,
        CommandKind::Linker => 9,
        CommandKind::LoadConfig => 10,
        CommandKind::Offline => 11,
        CommandKind::Opt => 12,
        CommandKind::PreserveVarsOnPanic => 13,
        CommandKind::Quit => 14,
        CommandKind::Sccache => 15,
        CommandKind::TimePasses => 16,
        CommandKind::Timing => 17,
        CommandKind::Toolchain => 18,
        CommandKind::Vars => 19,
        CommandKind::Version => 20,
    }
}

/// Every directive stands in the catalog, at its index.
pub proof fn lemma_catalog_index(k: CommandKind)
    ensures
        0 <= catalog_index(k) < catalog().len(),
        catalog()[catalog_index(k)] == k,
{
}

/// The catalog, in order.
pub fn all_commands() -> (r: Vec<CommandKind>)
    ensures
        r@ == catalog(),
{
    let r = vec![
        CommandKind::Clear,
        CommandKind::Dep,
        CommandKind::Efmt,
        CommandKind::Explain,
        CommandKind::Fmt,
        CommandKind::Help,
        CommandKind::InternalDebug,
        CommandKind::LastCompileDir,
        CommandKind::LastErrorJson,
        CommandKind::Linker,
        CommandKind::LoadConfig,
        CommandKind::Offline,
        CommandKind::Opt,
        CommandKind::PreserveVarsOnPanic,
        CommandKind::Quit,
        CommandKind::Sccache,
        CommandKind::TimePasses,
        CommandKind::Timing,
        CommandKind::Toolchain,
        CommandKind::Vars,
        CommandKind::Version,
    ];
    assert(r@ =~= catalog());
    r
}

impl CommandKind {
    /// The name of this directive.
    pub fn name(self) -> (r: &'static str)
        ensures
            r@ == name_of(self),
    {
        match self {
            CommandKind::Clear => ":clear",
            CommandKind::Dep => ":dep",
            CommandKind::Efmt => ":efmt",
            CommandKind::Explain => ":explain",
            CommandKind::Fmt => ":fmt",
            CommandKind::Help => ":help",
            CommandKind::InternalDebug => ":internal_debug",
            CommandKind::LastCompileDir => ":last_compile_dir",
            CommandKind::LastErrorJson => ":last_error_json",
            CommandKind::Linker => ":linker",
            CommandKind::LoadConfig => ":load_config",
            CommandKind::Offline => ":offline",
            CommandKind::Opt => ":opt",
            CommandKind::PreserveVarsOnPanic => ":preserve_vars_on_panic",
            CommandKind::Quit => ":quit",
            CommandKind::Sccache => ":sccache",
            CommandKind::TimePasses => ":time_passes",
            CommandKind::Timing => ":timing",
            CommandKind::Toolchain => ":toolchain",
            CommandKind::Vars => ":vars",
            CommandKind::Version => ":version",
        }
    }

    /// The one-line description of this directive.
    pub fn description(self) -> (r: &'static str)
        ensures
            r@ == description_of(self),
    {
        match self {
            CommandKind::Clear => "Clear all state, keeping compilation cache",
            CommandKind::Dep => "Add dependency. e.g. :dep regex = \"1.0\"",
            CommandKind::Efmt => "Set the formatter for errors returned by ?",
            CommandKind::Explain => "Print explanation of last error",
            CommandKind::Fmt => "Set output formatter (default: {:?})",
            CommandKind::Help => "Print command help",
            CommandKind::InternalDebug => "Toggle various internal debugging code",
            CommandKind::LastCompileDir => "Print the directory in which we last compiled",
            CommandKind::LastErrorJson => "Print the last compilation error as JSON (for debugging)",
            CommandKind::Linker => "Set/print linker. Supported: system, lld",
            CommandKind::LoadConfig => "Reloads startup configuration files",
            CommandKind::Offline => "Set offline mode when invoking cargo",
            CommandKind::Opt => "Set optimization level (0/1/2)",
            CommandKind::PreserveVarsOnPanic => "Try to keep vars on panic (0/1)",
            CommandKind::Quit => "Quit evaluation and exit",
            CommandKind::Sccache => "Set whether to use sccache (0/1).",
            CommandKind::TimePasses => "Toggle printing of rustc pass times (requires nightly)",
            CommandKind::Timing => "Toggle printing of how long evaluations take",
            CommandKind::Toolchain => "Set which toolchain to use (e.g. nightly)",
            CommandKind::Vars => "List bound variables and their types",
            CommandKind::Version => "Print Evcxr version",
        }
    }
}

/// The directive of a given name.
pub open spec fn lookup(name: Seq<char>) -> Option<CommandKind> {
    if exists|k: CommandKind| name_of(k) == name {
        Some(choose|k: CommandKind| name_of(k) == name)
    } else {
        None
    }
}

/// Two directives never share a name.
pub proof fn lemma_names_distinct(a: CommandKind, b: CommandKind)
    requires
        name_of(a) == name_of(b),
    ensures
        a == b,
{
    lemma_catalog_sorted();
    lemma_catalog_index(a);
    lemma_catalog_index(b);
    if catalog_index(a) < catalog_index(b) {
        lemma_sorted_lt(catalog_index(a), catalog_index(b));
        lemma_lex_irreflexive(name_of(a));
    } else if catalog_index(b) < catalog_index(a) {
        lemma_sorted_lt(catalog_index(b), catalog_index(a));
        lemma_lex_irreflexive(name_of(a));
    }
}

/// Finds a directive by its exact name.
pub fn find_command(name: &str) -> (r: Option<CommandKind>)
    ensures
        r == lookup(name@),
        r is Some ==> name_of(r.unwrap()) == name@,
        r is None <==> forall|k: CommandKind| name_of(k) != name@,
{
    let all = all_commands();
    let mut i: usize = 0;
    while i < all.len()
        invariant
            all@ == catalog(),
            i <= all@.len(),
            forall|j: int| 0 <= j < i ==> name_of(#[trigger] catalog()[j]) != name@,
        decreases all@.len() - i,
    {
        let k = all[i];
        if str_eq(k.name(), name) {
            proof {
                assert forall|k2: CommandKind| name_of(k2) == name@ implies k2 == k by {
                    lemma_names_distinct(k2, k);
                }
            }
            return Some(k);
        }
        i += 1;
    }
    proof {
        assert forall|k: CommandKind| name_of(k) != name@ by {
            lemma_catalog_index(k);
        }
    }
    None
}

/// Lexicographic order on character sequences, by code point.
pub open spec fn lex_lt(a: Seq<char>, b: Seq<char>) -> bool
    decreases a.len(),
{
    if a.len() == 0 {
        b.len() > 0
    } else if b.len() == 0 {
        false
    } else if a[0] != b[0] {
        (a[0] as u32) < (b[0] as u32)
    } else {
        lex_lt(a.drop_first(), b.drop_first())
    }
}

proof fn lemma_lex_irreflexive(a: Seq<char>)
    ensures
        !lex_lt(a, a),
    decreases a.len(),
{
    if a.len() > 0 {
        lemma_lex_irreflexive(a.drop_first());
    }
}

proof fn lemma_lex_transitive(a: Seq<char>, b: Seq<char>, c: Seq<char>)
    requires
        lex_lt(a, b),
        lex_lt(b, c),
    ensures
        lex_lt(a, c),
    decreases a.len(),
{
    if a.len() > 0 && b.len() > 0 && c.len() > 0 && a[0] == b[0] && b[0] == c[0] {
        lemma_lex_transitive(a.drop_first(), b.drop_first(), c.drop_first());
    }
}

/// Each name in the catalog comes before the next one.
proof fn lemma_catalog_sorted()
    ensures
        forall|i: int| 0 <= i < catalog().len() - 1 ==> lex_lt(
            name_of(#[trigger] catalog()[i]),
            name_of(catalog()[i + 1]),
        ),
{
    reveal_strlit(":clear");
    reveal_strlit(":dep");
    reveal_strlit(":efmt");
    reveal_strlit(":explain");
    reveal_strlit(":fmt");
    reveal_strlit(":help");
    reveal_strlit(":internal_debug");
    reveal_strlit(":last_compile_dir");
    reveal_strlit(":last_error_json");
    reveal_strlit(":linker");
    reveal_strlit(":load_config");
    reveal_strlit(":offline");
    reveal_strlit(":opt");
    reveal_strlit(":preserve_vars_on_panic");
    reveal_strlit(":quit");
    reveal_strlit(":sccache");
    reveal_strlit(":time_passes");
    reveal_strlit(":timing");
    reveal_strlit(":toolchain");
    reveal_strlit(":vars");
    reveal_strlit(":version");
    reveal_with_fuel(lex_lt, 8);
    assert(lex_lt(name_of(CommandKind::Clear), name_of(CommandKind::Dep)));
    assert(lex_lt(name_of(CommandKind::Dep), name_of(CommandKind::Efmt)));
    assert(lex_lt(name_of(CommandKind::Efmt), name_of(CommandKind::Explain)));
    assert(lex_lt(name_of(CommandKind::Explain), name_of(CommandKind::Fmt)));
    assert(lex_lt(name_of(CommandKind::Fmt), name_of(CommandKind::Help)));
    assert(lex_lt(name_of(CommandKind::Help), name_of(CommandKind::InternalDebug)));
    assert(lex_lt(name_of(CommandKind::InternalDebug), name_of(CommandKind::LastCompileDir)));
    assert(lex_lt(name_of(CommandKind::LastCompileDir), name_of(CommandKind::LastErrorJson)));
    assert(lex_lt(name_of(CommandKind::LastErrorJson), name_of(CommandKind::Linker)));
    assert(lex_lt(name_of(CommandKind::Linker), name_of(CommandKind::LoadConfig)));
    assert(lex_lt(name_of(CommandKind::LoadConfig), name_of(CommandKind::Offline)));
    assert(lex_lt(name_of(CommandKind::Offline), name_of(CommandKind::Opt)));
    assert(lex_lt(name_of(CommandKind::Opt), name_of(CommandKind::PreserveVarsOnPanic)));
    assert(lex_lt(name_of(CommandKind::PreserveVarsOnPanic), name_of(CommandKind::Quit)));
    assert(lex_lt(name_of(CommandKind::Quit), name_of(CommandKind::Sccache)));
    assert(lex_lt(name_of(CommandKind::Sccache), name_of(CommandKind::TimePasses)));
    assert(lex_lt(name_of(CommandKind::TimePasses), name_of(CommandKind::Timing)));
    assert(lex_lt(name_of(CommandKind::Timing), name_of(CommandKind::Toolchain)));
    assert(lex_lt(name_of(CommandKind::Toolchain), name_of(CommandKind::Vars)));
    assert(lex_lt(name_of(CommandKind::Vars), name_of(CommandKind::Version)));
}

proof fn lemma_sorted_lt(i: int, j: int)
    requires
        0 <= i < j < catalog().len(),
        forall|i: int| 0 <= i < catalog().len() - 1 ==> lex_lt(
            name_of(#[trigger] catalog()[i]),
            name_of(catalog()[i + 1]),
        ),
    ensures
        lex_lt(name_of(catalog()[i]), name_of(catalog()[j])),
    decreases j - i,
{
    if j > i + 1 {
        lemma_sorted_lt(i, j - 1);
        assert(lex_lt(name_of(catalog()[j - 1]), name_of(catalog()[j - 1 + 1])));
        lemma_lex_transitive(name_of(catalog()[i]), name_of(catalog()[j - 1]), name_of(catalog()[j]));
    } else {
        assert(lex_lt(name_of(catalog()[i]), name_of(catalog()[i + 1])));
    }
}

/// `s` without its trailing spaces.
pub open spec fn trim_end(s: Seq<char>) -> Seq<char>
    decreases s.len(),
{
    if s.len() > 0 && s.last() == ' ' {
        trim_end(s.drop_last())
    } else {
        s
    }
}

/// `s` without its leading and trailing spaces.
pub open spec fn trim(s: Seq<char>) -> Seq<char> {
    trim_end(s.subrange(skip_spaces(s, 0), s.len() as int))
}

/// The requirement a dependency gets when none is written: any version.
pub open spec fn any_version() -> Seq<char> {
    "\"*\""@
}

/// The argument of `:dep` read as `name` or `name = requirement`: split at
/// the first `=`, both sides trimmed. The name must be non-empty and hold no
/// space; a requirement, where an `=` is written, must be non-empty.
pub open spec fn dep_grammar(a: Seq<char>) -> Option<(Seq<char>, Seq<char>)> {
    let e = find_char(a, '=', 0);
    let name = trim(a.subrange(0, e));
    if name.len() == 0 || name.contains(' ') {
        None
    } else if e >= a.len() {
        Some((name, any_version()))
    } else {
        let req = trim(a.subrange(e + 1, a.len() as int));
        if req.len() == 0 {
            None
        } else {
            Some((name, req))
        }
    }
}

/// The bounds of `trim(v[from..to])` within `v`.
fn trim_bounds(v: &Vec<char>, from: usize, to: usize) -> (r: (usize, usize))
    requires
        from <= to <= v@.len(),
    ensures
        from <= r.0 <= r.1 <= to,
        v@.subrange(r.0 as int, r.1 as int) == trim(v@.subrange(from as int, to as int)),
{
    let ghost sub = v@.subrange(from as int, to as int);
    let mut lo: usize = from;
    while lo < to && v[lo] == ' '
        invariant
            from <= lo <= to <= v@.len(),
            sub == v@.subrange(from as int, to as int),
            skip_spaces(sub, 0) == skip_spaces(sub, lo - from),
        decreases to - lo,
    {
        lo += 1;
    }
    assert(skip_spaces(sub, 0) == lo - from) by {
        if lo < to {
            assert(sub[lo - from] != ' ');
        }
    }
    assert(sub.subrange(lo - from, sub.len() as int) =~= v@.subrange(lo as int, to as int));
    let mut hi: usize = to;
    while hi > lo && v[hi - 1] == ' '
        invariant
            from <= lo <= hi <= to <= v@.len(),
            trim(sub) == trim_end(v@.subrange(lo as int, hi as int)),
        decreases hi,
    {
        assert(v@.subrange(lo as int, hi as int).drop_last() =~= v@.subrange(lo as int, hi - 1));
        hi -= 1;
    }
    (lo, hi)
}

/// Reads the argument of `:dep` by `dep_grammar`.
pub fn parse_dep(args: &str) -> (r: Option<(String, String)>)
    ensures
        r is Some <==> dep_grammar(args@) is Some,
        r is Some ==> r.unwrap().0@ == dep_grammar(args@).unwrap().0
            && r.unwrap().1@ == dep_grammar(args@).unwrap().1,
{
    let v = chars_of(args);
    let e = find_char_from(&v, '=', 0);
    proof {
        crate::segment::lemma_find_char(v@, '=', 0);
    }
    let (lo, hi) = trim_bounds(&v, 0, e);
    let ghost name = v@.subrange(lo as int, hi as int);
    if lo == hi {
        return None;
    }
    let sp = find_char_from(&v, ' ', lo);
    proof {
        crate::segment::lemma_find_char(v@, ' ', lo as int);
    }
    if sp < hi {
        assert(name[sp - lo] == ' ');
        return None;
    }
    assert(!name.contains(' ')) by {
        if name.contains(' ') {
            let k = choose|k: int| 0 <= k < name.len() && name[k] == ' ';
            assert(v@[lo + k] == ' ');
        }
    }
    let name_s = string_of(&v, lo, hi);
    if e >= v.len() {
        proof {
            reveal_strlit("\"*\"");
        }
        return Some((name_s, String::from_str("\"*\"")));
    }
    let (rlo, rhi) = trim_bounds(&v, e + 1, v.len());
    if rlo == rhi {
        return None;
    }
    Some((name_s, string_of(&v, rlo, rhi)))
}

/// The width that names are padded to in the help text.
pub const HELP_NAME_WIDTH: usize = 17;

/// A name padded with spaces to the help text's name width.
pub open spec fn padded(n: Seq<char>) -> Seq<char> {
    if n.len() < HELP_NAME_WIDTH {
        n + Seq::new((HELP_NAME_WIDTH - n.len()) as nat, |i: int| ' ')
    } else {
        n
    }
}

/// One line of the plain-text help.
pub open spec fn help_line(k: CommandKind) -> Seq<char> {
    padded(name_of(k)) + " "@ + description_of(k) + "\n"@
}

/// One row of the HTML help.
pub open spec fn help_row(k: CommandKind) -> Seq<char> {
    "<tr><td>"@ + name_of(k) + "</td><td>"@ + description_of(k) + "</td></tr>\n"@
}

/// The plain-text help of the directives `s`, one line each, in order.
pub open spec fn help_text_of(s: Seq<CommandKind>) -> Seq<char>
    decreases s.len(),
{
    if s.len() == 0 {
        Seq::empty()
    } else {
        help_text_of(s.drop_last()) + help_line(s.last())
    }
}

/// The HTML rows of the directives `s`, one each, in order.
pub open spec fn help_rows_of(s: Seq<CommandKind>) -> Seq<char>
    decreases s.len(),
{
    if s.len() == 0 {
        Seq::empty()
    } else {
        help_rows_of(s.drop_last()) + help_row(s.last())
    }
}

/// The HTML help of the directives `s`: a table with one row each.
pub open spec fn help_html_of(s: Seq<CommandKind>) -> Seq<char> {
    "<table>\n"@ + help_rows_of(s) + "</table>\n"@
}

/// The plain-text help of the whole catalog.
pub fn help_text() -> (r: String)
    ensures
        r@ == help_text_of(catalog()),
{
    let all = all_commands();
    let mut out = String::new();
    let mut i: usize = 0;
    while i < all.len()
        invariant
            all@ == catalog(),
            i <= all@.len(),
            out@ == help_text_of(catalog().subrange(0, i as int)),
        decreases all@.len() - i,
    {
        let k = all[i];
        let ghost before = out@;
        let name = k.name();
        out.append(name);
        let n = name.unicode_len();
        let mut w: usize = n;
        while w < HELP_NAME_WIDTH
            invariant
                n == name_of(k).len(),
                n <= w,
                w <= HELP_NAME_WIDTH || w == n,
                out@ == before + name_of(k) + Seq::new((w - n) as nat, |j: int| ' '),
            decreases HELP_NAME_WIDTH - w,
        {
            push_char(&mut out, ' ');
            w += 1;
            assert(out@ =~= before + name_of(k) + Seq::new((w - n) as nat, |j: int| ' '));
        }
        assert(out@ =~= before + padded(name_of(k)));
        out.append(" ");
        out.append(k.description());
        out.append("\n");
        proof {
            assert(catalog().subrange(0, i + 1).drop_last() =~= catalog().subrange(0, i as int));
            assert(out@ =~= before + help_line(k));
        }
        i += 1;
    }
    assert(catalog().subrange(0, all@.len() as int) =~= catalog());
    out
}

/// The HTML help of the whole catalog.
pub fn help_html() -> (r: String)
    ensures
        r@ == help_html_of(catalog()),
{
    let all = all_commands();
    let mut out = String::new();
    out.append("<table>\n");
    let mut i: usize = 0;
    while i < all.len()
        invariant
            all@ == catalog(),
            i <= all@.len(),
            out@ == "<table>\n"@ + help_rows_of(catalog().subrange(0, i as int)),
        decreases all@.len() - i,
    {
        let k = all[i];
        let ghost before = out@;
        out.append("<tr><td>");
        out.append(k.name());
        out.append("</td><td>");
        out.append(k.description());
        out.append("</td></tr>\n");
        proof {
            assert(catalog().subrange(0, i + 1).drop_last() =~= catalog().subrange(0, i as int));
            assert(out@ =~= "<table>\n"@ + help_rows_of(catalog().subrange(0, i + 1)));
        }
        i += 1;
    }
    out.append("</table>\n");
    assert(catalog().subrange(0, all@.len() as int) =~= catalog());
    out
}

/// The names among `s` that start with `prefix`, in order.
pub open spec fn names_with_prefix(s: Seq<CommandKind>, prefix: Seq<char>) -> Seq<Seq<char>>
    decreases s.len(),
{
    if s.len() == 0 {
        Seq::empty()
    } else {
        let rest = names_with_prefix(s.drop_last(), prefix);
        let n = name_of(s.last());
        if prefix.len() <= n.len() && n.subrange(0, prefix.len() as int) == prefix {
            rest.push(n)
        } else {
            rest
        }
    }
}

/// The names of the directives that start with `prefix`, in catalog order.
pub fn commands_with_prefix(prefix: &str) -> (r: Vec<String>)
    ensures
        r@.map_values(|x: String| x@) == names_with_prefix(catalog(), prefix@),
{
    let all = all_commands();
    let mut out: Vec<String> = Vec::new();
    let mut i: usize = 0;
    while i < all.len()
        invariant
            all@ == catalog(),
            i <= all@.len(),
            out@.map_values(|x: String| x@) == names_with_prefix(catalog().subrange(0, i as int), prefix@),
        decreases all@.len() - i,
    {
        let k = all[i];
        let ghost before = out@;
        if starts_with(k.name(), prefix) {
            out.push(String::from_str(k.name()));
        }
        proof {
            assert(catalog().subrange(0, i + 1).drop_last() =~= catalog().subrange(0, i as int));
            assert(out@.map_values(|x: String| x@) =~= names_with_prefix(catalog().subrange(0, i + 1), prefix@));
        }
        i += 1;
    }
    assert(catalog().subrange(0, all@.len() as int) =~= catalog());
    out
}
/// The help lists the catalog, which holds every directive exactly once,
/// in strictly increasing order of name; the text and the HTML renderings
/// go through that same sequence.
pub proof fn lemma_help_lists_catalog()
    ensures
        forall|k: CommandKind| #[trigger] catalog().contains(k),
        forall|i: int, j: int|
            0 <= i < j < catalog().len() ==> lex_lt(
                name_of(#[trigger] catalog()[i]),
                name_of(#[trigger] catalog()[j]),
            ),
        forall|i: int, j: int|
            0 <= i < j < catalog().len() ==> #[trigger] catalog()[i] != #[trigger] catalog()[j],
{
    lemma_catalog_sorted();
    assert forall|k: CommandKind| #[trigger] catalog().contains(k) by {
        lemma_catalog_index(k);
    }
    assert forall|i: int, j: int| 0 <= i < j < catalog().len() implies lex_lt(
        name_of(#[trigger] catalog()[i]),
        name_of(#[trigger] catalog()[j]),
    ) by {
        lemma_sorted_lt(i, j);
    }
    assert forall|i: int, j: int| 0 <= i < j < catalog().len() implies #[trigger] catalog()[i]
        != #[trigger] catalog()[j] by {
        lemma_sorted_lt(i, j);
        lemma_lex_irreflexive(name_of(catalog()[i]));
    }
}

} // verus!
