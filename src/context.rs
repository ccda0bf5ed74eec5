//! The dispatcher: one interaction applies the directives of the input in
//! order, gathers the code between them, and hands that code with the
//! resulting state to the evaluation engine.
use vstd::prelude::*;
use vstd::string::StrSliceExecFns;
use crate::text::{chars_of, push_char, string_of, str_eq, pairs_view};
use crate::state::{ContextState, error_format_trait_of};
use crate::outputs::{EvalOutputs, text_output, text_plain};
use crate::errors::{CompilationError, Error, Span};
use crate::render::{
    vars_text, vars_html, vars_as_text, vars_as_html, explanations, payloads, collect_explanations,
    collect_payloads, opt_view,
};
use crate::segment::{
    CodeKind, CommandCall, Segment, segment, no_directive_marker, lemma_plain_code_forwarded, line_body, code_of, flatten, failure_start_column,
    failure_column, segments_of,
};
use crate::commands::{
    CommandKind, find_command, lookup, parse_dep, dep_grammar, help_text, help_html,
    help_text_of, help_html_of, catalog, commands_with_prefix, names_with_prefix,
};

verus! {

/// The evaluation engine that compiles and runs code, as the dispatcher sees
/// it. Nothing is assumed of what its methods return.
pub trait EvalEngine {
    /// The committed session configuration.
    fn state(&self) -> ContextState;

    /// The configuration a session would have after `clear`.
    fn cleared_state(&self) -> ContextState;

    /// Drops variables and definitions, keeping compiled artifacts.
    fn clear(&mut self) -> Result<(), Error>;

    /// Compiles and runs `code` with `state`; on success `state` is committed.
    fn eval(&mut self, code: String, state: ContextState) -> Result<EvalOutputs, Error>;

    /// Compiles `code` with `state` without running it.
    fn check(&mut self, code: String, state: ContextState) -> Result<Vec<CompilationError>, Error>;

    /// Completions for `code` at character offset `position`.
    fn completions(&mut self, code: String, state: ContextState, position: usize) -> Result<
        Completions,
        Error,
    >;

    /// Bound variables and their types.
    fn variables_and_types(&self) -> Vec<(String, String)>;

    /// Names of the items defined so far.
    fn defined_item_names(&self) -> Vec<String>;

    /// The directory of the last compilation, where there was one.
    fn last_compile_dir(&self) -> Option<String>;

    /// The source last handed to the compiler.
    fn last_source(&self) -> Result<String, Error>;

    /// Sets the committed optimisation level.
    fn set_opt_level(&mut self, level: &str) -> Result<(), Error>;

    /// Restores the committed configuration to its defaults.
    fn reset_config(&mut self);

    /// Writes the build manifest that `state` describes.
    fn write_cargo_toml(&mut self, state: &ContextState) -> Result<(), Error>;

    /// The contents of a file of the user's configuration directory, where it
    /// exists.
    fn config_file(&self, name: &str) -> Result<Option<String>, Error>;

    /// A monotonic clock, in milliseconds.
    fn clock_millis(&self) -> u64;
}

/// One completion candidate.
#[derive(Clone, Debug)]
pub struct Completion {
    pub code: String,
}

/// Completion candidates for the range `start_offset..end_offset`.
#[derive(Clone, Debug)]
pub struct Completions {
    pub completions: Vec<Completion>,
    pub start_offset: usize,
    pub end_offset: usize,
}

/// The version reported by `:version`.
pub const VERSION: &'static str = "0.17.0";

/// How deeply configuration replays may nest inside one another.
pub const MAX_CONFIG_DEPTH: usize = 4;

/// A boolean as it is shown.
pub open spec fn bool_text(b: bool) -> Seq<char> {
    if b {
        "true"@
    } else {
        "false"@
    }
}

fn bool_str(b: bool) -> (r: &'static str)
    ensures
        r@ == bool_text(b),
{
    if b {
        "true"
    } else {
        "false"
    }
}

/// Plain-text outputs `label` followed by `value` and a line break.
pub open spec fn shown(label: Seq<char>, value: Seq<char>) -> Map<Seq<char>, Seq<char>> {
    map![text_plain() => (label + value).push('\n')]
}

/// `text_output` of `label` followed by `value`.
fn labelled(label: &str, value: &str) -> (r: EvalOutputs)
    ensures
        r@ == shown(label@, value@),
        r.timing is None,
{
    let mut s = String::from_str(label);
    s.append(value);
    text_output(s)
}

/// The level `:opt` sets: its argument, or else `"0"` from `"2"` and `"2"`
/// from anything else.
pub open spec fn opt_target(current: Seq<char>, args: Option<Seq<char>>) -> Seq<char> {
    match args {
        Some(a) => a,
        None => if current == "2"@ {
            "0"@
        } else {
            "2"@
        },
    }
}

/// Whether an optional argument is exactly `v`.
pub open spec fn arg_is(a: Option<String>, v: Seq<char>) -> bool {
    a is Some && a.unwrap()@ == v
}

/// The diagnostic span of a failed directive on segment `seg`: from its
/// argument (or the line start) to the end of the line.
pub open spec fn failure_span(seg: Segment) -> Span {
    Span {
        start_line: seg.line,
        start_column: failure_start_column(line_body(seg.code@)) as usize,
        end_line: seg.line,
        end_column: line_body(seg.code@).len() as usize,
    }
}

/// The diagnostic span of an unrecognised directive: its name.
pub open spec fn unknown_span(seg: Segment, call: CommandCall) -> Span {
    Span {
        start_line: seg.line,
        start_column: 1,
        end_line: seg.line,
        end_column: if call.command@.len() < usize::MAX {
            (call.command@.len() + 1) as usize
        } else {
            usize::MAX
        },
    }
}

/// The messages of `v`, one per line.
pub open spec fn joined_messages(v: Seq<CompilationError>) -> Seq<char>
    decreases v.len(),
{
    if v.len() == 0 {
        Seq::empty()
    } else if v.len() == 1 {
        v[0].message@
    } else {
        joined_messages(v.drop_last()) + "\n"@ + v.last().message@
    }
}

/// The text of an error, as a directive failure reports it.
pub open spec fn error_text_of(e: Error) -> Seq<char> {
    match e {
        Error::Message(m) => m@,
        Error::Quit => "quit requested"@,
        Error::CompilationErrors(v) => joined_messages(v@),
    }
}

/// The text of an error, as a directive failure reports it.
pub fn error_text(e: &Error) -> (r: String)
    ensures
        r@ == error_text_of(*e),
{
    match e {
        Error::Message(m) => m.clone(),
        Error::Quit => String::from_str("quit requested"),
        Error::CompilationErrors(v) => {
            let mut out = String::new();
            let mut i: usize = 0;
            while i < v.len()
                invariant
                    i <= v@.len(),
                    out@ == joined_messages(v@.subrange(0, i as int)),
                decreases v@.len() - i,
            {
                assert(v@.subrange(0, i + 1).drop_last() =~= v@.subrange(0, i as int));
                if i > 0 {
                    out.append("\n");
                }
                out.append(v[i].message.as_str());
                i += 1;
            }
            assert(v@.subrange(0, v@.len() as int) =~= v@);
            out
        },
    }
}

/// A line without its line break and a carriage return before it.
pub open spec fn line_text_of(l: Seq<char>) -> Seq<char> {
    let b = line_body(l);
    if b.len() > 0 && b.last() == '\r' {
        b.drop_last()
    } else {
        b
    }
}

fn line_text(code: &String) -> (r: String)
    ensures
        r@ == line_text_of(code@),
{
    let v = chars_of(code.as_str());
    let mut end: usize = v.len();
    if end > 0 && v[end - 1] == '\n' {
        end -= 1;
    }
    if end > 0 && v[end - 1] == '\r' {
        end -= 1;
    }
    string_of(&v, 0, end)
}

/// The lines of `text`, without their line breaks.
pub fn text_lines(text: &str) -> (r: Vec<String>)
    ensures
        exists|s: Seq<Segment>|
            segments_of(text@, s) && r@.len() == s.len() && forall|k: int|
                0 <= k < s.len() ==> (#[trigger] r@[k])@ == line_text_of(s[k].code@),
{
    let segs = segment(text);
    let mut out: Vec<String> = Vec::new();
    let mut i: usize = 0;
    while i < segs.len()
        invariant
            i <= segs@.len(),
            out@.len() == i,
            forall|k: int| 0 <= k < i ==> (#[trigger] out@[k])@ == line_text_of(segs@[k].code@),
        decreases segs@.len() - i,
    {
        out.push(line_text(&segs[i].code));
        i += 1;
    }
    out
}

/// `l` is what replaying the configuration runs, in order: one interaction
/// per line of the startup file `init`, then the prelude; nothing where
/// neither file exists.
pub open spec fn interactions_of(init: Option<String>, prelude: Option<String>, l: Seq<Seq<char>>) -> bool {
    &&& init is None ==> l.len() == (if prelude is Some { 1int } else { 0 })
    &&& init is Some ==> exists|s: Seq<Segment>|
        segments_of(init.unwrap()@, s) && l.len() == s.len() + (if prelude is Some {
            1int
        } else {
            0
        }) && forall|k: int| 0 <= k < s.len() ==> #[trigger] l[k] == line_text_of(s[k].code@)
    &&& prelude is Some ==> l.len() > 0 && l.last() == prelude.unwrap()@
}

/// What replaying the configuration runs, in order: one interaction per line
/// of the startup file, then the prelude as one interaction.
pub fn config_interactions(init: &Option<String>, prelude: &Option<String>) -> (r: Vec<String>)
    ensures
        interactions_of(*init, *prelude, r@.map_values(|x: String| x@)),
{
    let mut r: Vec<String> = match init {
        Some(contents) => text_lines(contents.as_str()),
        None => Vec::new(),
    };
    let ghost lines = r@;
    if let Some(p) = prelude {
        r.push(p.clone());
        assert(r@.drop_last() == lines);
    }
    assert(r@.map_values(|x: String| x@).len() == r@.len());
    r
}

/// `r` is the single diagnostic of the unrecognised directive on `seg`.
pub open spec fn unrecognised(r: Result<EvalOutputs, Error>, seg: Segment) -> bool {
    r matches Err(Error::CompilationErrors(v)) && v@.len() == 1 && v@[0].message@
        == "Unrecognised command "@ + seg.kind->Command_0.command@ && v@[0].span == unknown_span(
        seg,
        seg.kind->Command_0,
    )
}

/// Where segment `k` of `s` starts in the input.
pub open spec fn seg_start(s: Seq<Segment>, k: int) -> int {
    flatten(s.subrange(0, k)).len() as int
}

/// A cursor at `position` lies in directive segment `k` of `s`, its line
/// break excluded.
pub open spec fn completes_directive(s: Seq<Segment>, k: int, position: int) -> bool {
    &&& 0 <= k < s.len()
    &&& s[k].kind is Command
    &&& seg_start(s, k) <= position <= seg_start(s, k) + line_body(s[k].code@).len()
}

/// Segment `k` is the first directive segment of `s` that holds `position`.
pub open spec fn first_completing(s: Seq<Segment>, k: int, position: int) -> bool {
    &&& completes_directive(s, k, position)
    &&& forall|j: int| 0 <= j < k ==> !completes_directive(s, j, position)
}

proof fn lemma_flatten_prefix_len(s: Seq<Segment>, i: int)
    requires
        0 <= i <= s.len(),
    ensures
        flatten(s.subrange(0, i)).len() <= flatten(s).len(),
    decreases s.len() - i,
{
    if i < s.len() {
        lemma_flatten_prefix_len(s, i + 1);
        assert(s.subrange(0, i + 1).drop_last() =~= s.subrange(0, i));
    } else {
        assert(s.subrange(0, i) =~= s);
    }
}

/// What directive `kind` does, applied with argument `args` to session `c0`
/// and state `s0`: `c1` and `s1` are the session and the state after it, and
/// `r` its result. In analysis mode a directive without a variant of its own
/// has its primary effect; `:quit` and `:load_config` do nothing there, and
/// `:clear` gives the cleared state without clearing the engine.
pub open spec fn command_contract<E>(
    kind: CommandKind,
    c0: CommandContext<E>,
    c1: CommandContext<E>,
    s0: ContextState,
    s1: ContextState,
    args: Option<String>,
    analysis: bool,
    depth: usize,
    r: Result<EvalOutputs, Error>,
) -> bool {
    &&& (analysis && kind != CommandKind::Timing ==> c1 == c0)
    &&& (analysis ==> !(r matches Err(Error::Quit)))
    &&& (kind != CommandKind::LoadConfig ==> c1.last_errors@ == c0.last_errors@)
    &&& (kind != CommandKind::Timing && kind != CommandKind::LoadConfig && kind
!= CommandKind::Clear ==> c1.print_timings == c0.print_timings)
    &&& (kind == CommandKind::Quit ==> (if analysis {
                r is Ok && r.unwrap()@ == Map::<Seq<char>, Seq<char>>::empty() && s1
                    == s0
} else {
                r matches Err(Error::Quit)
}))
    &&& (kind == CommandKind::LoadConfig && analysis ==> r is Ok && r.unwrap()@ == Map::<
Seq<char>,
Seq<char>,
>::empty() && s1 == s0)
    &&& (kind == CommandKind::Clear && analysis ==> r is Ok && r.unwrap()@ == Map::<
Seq<char>,
Seq<char>,
>::empty())
    &&& (kind == CommandKind::Opt ==> ((r is Ok <==> opt_target(
                s0.opt_level@,
                opt_view(args),
).len() > 0) && (r is Ok ==> s1.opt_level@ == opt_target(
                s0.opt_level@,
                opt_view(args),
) && s1 == (ContextState { opt_level: s1.opt_level, ..s0 })
                && r.unwrap()@ == shown(
                "Optimization: "@,
                opt_target(s0.opt_level@, opt_view(args)),
)) && (r is Err ==> s1 == s0)))
    &&& (kind == CommandKind::Dep ==> ((r is Ok <==> (args is Some && dep_grammar(
                args.unwrap()@,
) is Some)) && (r is Ok ==> s1.dep_map() == s0.dep_map().insert(
                dep_grammar(args.unwrap()@).unwrap().0,
                dep_grammar(args.unwrap()@).unwrap().1,
) && r.unwrap()@ == Map::<Seq<char>, Seq<char>>::empty()) && (r is Err ==> s1 == s0 && (r matches Err(Error::Message(_))))))
    &&& (kind == CommandKind::Fmt ==> r is Ok && s1.output_format@ == (match args {
                Some(a) => a@,
                None => "{:?}"@
}) && r.unwrap()@ == shown("Output format: "@, s1.output_format@))
    &&& (kind == CommandKind::Efmt ==> ((r is Ok <==> (args is None || error_format_trait_of(
                args.unwrap()@,
) is Some)) && (r is Ok && args is Some ==> s1.error_format@
                == args.unwrap()@) && (args is None ==> s1 == s0) && (r is Ok
                ==> r.unwrap()@ == shown(
                "Error format: "@,
                s1.error_format@ + " (errors must implement "@
                    + s1.error_format_trait@ + ")"@,
))))
    &&& (kind == CommandKind::Vars ==> s1 == s0 && r is Ok && exists|
v: Seq<(Seq<char>, Seq<char>)>
|
r.unwrap()@ == map![text_plain() => vars_text(v), crate::outputs::text_html() => vars_html(v)])
    &&& (kind == CommandKind::Toolchain ==> r is Ok && s1.toolchain@ == (match args {
                Some(a) => a@,
                None => s0.toolchain@
}) && r.unwrap()@ == shown("Toolchain: "@, s1.toolchain@))
    &&& (kind == CommandKind::Linker ==> r is Ok && s1.linker@ == (match args {
                Some(a) => a@,
                None => s0.linker@
}) && r.unwrap()@ == shown("linker: "@, s1.linker@))
    &&& (kind == CommandKind::Offline ==> r is Ok && s1 == (ContextState {
                offline_mode: arg_is(args, "1"@),
                ..s0
}) && r.unwrap()@ == shown("Offline mode: "@, bool_text(arg_is(args, "1"@))))
    &&& (kind == CommandKind::PreserveVarsOnPanic ==> r is Ok && s1 == (ContextState {
                preserve_vars_on_panic: arg_is(args, "1"@),
                ..s0
}) && r.unwrap()@ == shown("Preserve vars on panic: "@, bool_text(arg_is(args, "1"@))))
    &&& (kind == CommandKind::Sccache ==> ((r is Ok <==> (arg_is(args, "0"@)
                || s0.sccache_available)) && (r is Ok ==> s1 == (ContextState {
                sccache: !arg_is(args, "0"@),
                ..s0
}) && r.unwrap()@ == shown("sccache: "@, bool_text(!arg_is(args, "0"@))))))
    &&& (kind == CommandKind::InternalDebug ==> r is Ok && s1 == (ContextState {
                debug_mode: !s0.debug_mode,
                ..s0
}) && r.unwrap()@ == shown("Internals debugging: "@, bool_text(!s0.debug_mode)))
    &&& (kind == CommandKind::TimePasses ==> r is Ok && s1 == (ContextState {
                time_passes: !s0.time_passes,
                ..s0
}) && r.unwrap()@ == shown("Time passes: "@, bool_text(!s0.time_passes)))
    &&& (kind == CommandKind::Timing ==> r is Ok && s1 == s0 && r.unwrap()@
== shown("Timing: "@, bool_text(!c0.print_timings)) && (true
                ==> c1.print_timings == !c0.print_timings))
    &&& (kind == CommandKind::Explain ==> s1 == s0 && (if c0.last_errors@.len() == 0 {
                r matches Err(Error::Message(m)) && m@ == "No last error to explain"@
} else if explanations(c0.last_errors@) is None {
                r matches Err(Error::Message(m)) && m@ == "Sorry, last error has no explanation"@
} else {
                r is Ok && r.unwrap()@ == map![
                    text_plain() => explanations(c0.last_errors@).unwrap().push('\n'),
                ]
}))
    &&& (kind == CommandKind::LastErrorJson ==> s1 == s0 && (r matches Err(
                Error::Message(m),
) && m@ == payloads(c0.last_errors@)))
    &&& (kind == CommandKind::Help ==> s1 == s0 && r is Ok && r.unwrap()@
== map![text_plain() => help_text_of(catalog()), crate::outputs::text_html() => help_html_of(catalog())])
    &&& (kind == CommandKind::Version ==> s1 == s0 && r is Ok && r.unwrap()@
== shown(""@, VERSION@))
    &&& (kind == CommandKind::Timing && analysis ==> c1 == (CommandContext { print_timings: !c0.print_timings, ..c0 }))
    &&& (kind == CommandKind::LoadConfig && !analysis && depth == 0 ==> (r matches Err(Error::Message(m)) && m@ == "Configuration files load each other too deeply"@))
    &&& (kind == CommandKind::Clear && !analysis ==> (r is Ok ==> r.unwrap()@ == Map::<Seq<char>, Seq<char>>::empty()))
    &&& (kind == CommandKind::Fmt ==> s1 == (ContextState { output_format: s1.output_format, ..s0 }))
    &&& (kind == CommandKind::Toolchain ==> s1 == (ContextState { toolchain: s1.toolchain, ..s0 }))
    &&& (kind == CommandKind::Linker ==> s1 == (ContextState { linker: s1.linker, ..s0 }))
    &&& (kind == CommandKind::LastCompileDir ==> s1 == s0 && r is Ok && (r.unwrap()@ == shown(""@, "None"@)
        || exists|d: Seq<char>| r.unwrap()@ == shown(""@, "Some(\""@ + d + "\")"@)))
}

/// `r` is what a directive whose effect gave `r0` reports: its outputs, a
/// request to quit, or one diagnostic holding the error's text and placed
/// by the span rule.
pub open spec fn wrapped(r0: Result<EvalOutputs, Error>, r: Result<EvalOutputs, Error>, seg: Segment) -> bool {
    match r0 {
        Ok(o) => r == Ok::<EvalOutputs, Error>(o),
        Err(Error::Quit) => r matches Err(Error::Quit),
        Err(e) => (r matches Err(Error::CompilationErrors(v)) && v@.len() == 1 && v@[0].message@
            == error_text_of(e) && v@[0].span == failure_span(seg) && v@[0].explanation is None),
    }
}

/// One directive segment `seg` applied to session `c0` and state `s0`: an
/// unknown name yields its diagnostic and changes nothing; a known one has
/// the effect `command_contract` gives, reported as `wrapped` says.
pub open spec fn directive_step<E>(
    seg: Segment,
    c0: CommandContext<E>,
    c1: CommandContext<E>,
    s0: ContextState,
    s1: ContextState,
    analysis: bool,
    depth: usize,
    r: Result<EvalOutputs, Error>,
) -> bool {
    match lookup(seg.kind->Command_0.command@) {
        None => s1 == s0 && c1 == c0 && unrecognised(r, seg),
        Some(k) => exists|r0: Result<EvalOutputs, Error>|
            command_contract(k, c0, c1, s0, s1, seg.kind->Command_0.args, analysis, depth, r0)
                && wrapped(r0, r, seg),
    }
}

/// One step of a directive pass: a code segment changes nothing and gives
/// empty outputs; a directive segment is a `directive_step`.
pub open spec fn step_ok<E>(
    seg: Segment,
    c0: CommandContext<E>,
    c1: CommandContext<E>,
    s0: ContextState,
    s1: ContextState,
    r: Result<EvalOutputs, Error>,
    analysis: bool,
    depth: usize,
) -> bool {
    if seg.kind is Code {
        c1 == c0 && s1 == s0 && r is Ok && r.unwrap()@ == Map::<Seq<char>, Seq<char>>::empty()
    } else {
        directive_step(seg, c0, c1, s0, s1, analysis, depth, r)
    }
}

/// The first `j` segments of `s` were processed in order: `cs` and `sts`
/// hold the session and the state before and after each, `rs` the result of
/// each.
pub open spec fn pass_trace<E>(
    s: Seq<Segment>,
    analysis: bool,
    depth: usize,
    cs: Seq<CommandContext<E>>,
    sts: Seq<ContextState>,
    rs: Seq<Result<EvalOutputs, Error>>,
    j: int,
) -> bool {
    &&& 0 <= j <= s.len()
    &&& cs.len() == j + 1
    &&& sts.len() == j + 1
    &&& rs.len() == j
    &&& forall|k: int|
        0 <= k < j ==> #[trigger] step_ok(s[k], cs[k], cs[k + 1], sts[k], sts[k + 1], rs[k], analysis, depth)
}

/// The outputs of the successful steps `rs`, merged in order.
pub open spec fn merged_outputs(rs: Seq<Result<EvalOutputs, Error>>) -> Map<Seq<char>, Seq<char>>
    decreases rs.len(),
{
    if rs.len() == 0 {
        Map::empty()
    } else {
        merged_outputs(rs.drop_last()).union_prefer_right(
            if rs.last() is Ok {
                rs.last().unwrap()@
            } else {
                Map::empty()
            },
        )
    }
}

/// The diagnostics of the failed steps `rs`, in order.
pub open spec fn collected_errors(rs: Seq<Result<EvalOutputs, Error>>) -> Seq<CompilationError>
    decreases rs.len(),
{
    if rs.len() == 0 {
        Seq::empty()
    } else {
        collected_errors(rs.drop_last()) + match rs.last() {
            Err(Error::CompilationErrors(v)) => v@,
            _ => Seq::empty(),
        }
    }
}

/// What a real-mode directive pass over `text` from `c0` and `state_in`,
/// witnessed by segments `s` and trace `cs`, `sts`, `rs` of `j` steps,
/// returns: on success every step succeeded, and the result is the gathered
/// code, the last state and the merged outputs; on failure the last step
/// failed with that error and all before it succeeded.
pub open spec fn pass_facts<E>(
    c0: CommandContext<E>,
    c1: CommandContext<E>,
    text: Seq<char>,
    state_in: ContextState,
    depth: usize,
    r: Result<(String, ContextState, EvalOutputs), Error>,
    s: Seq<Segment>,
    cs: Seq<CommandContext<E>>,
    sts: Seq<ContextState>,
    rs: Seq<Result<EvalOutputs, Error>>,
    j: int,
) -> bool {
    &&& segments_of(text, s)
    &&& pass_trace(s, false, depth, cs, sts, rs, j)
    &&& cs[0] == c0
    &&& sts[0] == state_in
    &&& c1 == cs[j]
    &&& r is Ok ==> {
        &&& j == s.len()
        &&& forall|k: int| 0 <= k < j ==> (#[trigger] rs[k]) is Ok
        &&& r.unwrap().0@ == code_of(s)
        &&& r.unwrap().1 == sts[j]
        &&& r.unwrap().2@ == merged_outputs(rs)
    }
    &&& r is Err ==> {
        &&& j > 0
        &&& rs[j - 1] == Err::<EvalOutputs, Error>(r->Err_0)
        &&& forall|k: int| 0 <= k < j - 1 ==> (#[trigger] rs[k]) is Ok
    }
}

/// A real-mode directive pass, as `pass_facts` describes it for some trace.
pub open spec fn real_pass<E>(
    c0: CommandContext<E>,
    c1: CommandContext<E>,
    text: Seq<char>,
    state_in: ContextState,
    depth: usize,
    r: Result<(String, ContextState, EvalOutputs), Error>,
) -> bool {
    exists|s: Seq<Segment>, cs: Seq<CommandContext<E>>, sts: Seq<ContextState>, rs: Seq<Result<EvalOutputs, Error>>, j: int|
        pass_facts(c0, c1, text, state_in, depth, r, s, cs, sts, rs, j)
}

/// What an analysis-mode pass over `text` returns, witnessed by segments `s`
/// and a trace over all of them: every directive was attempted; on success
/// the result is the gathered code, the last state and the diagnostics of
/// the failing directives in order. Only the engine may change after the
/// last step.
pub open spec fn analysis_facts<E>(
    c0: CommandContext<E>,
    c1: CommandContext<E>,
    text: Seq<char>,
    state_in: ContextState,
    r: Result<(String, ContextState, Vec<CompilationError>), Error>,
    s: Seq<Segment>,
    cs: Seq<CommandContext<E>>,
    sts: Seq<ContextState>,
    rs: Seq<Result<EvalOutputs, Error>>,
) -> bool {
    &&& segments_of(text, s)
    &&& pass_trace(s, true, MAX_CONFIG_DEPTH, cs, sts, rs, s.len() as int)
    &&& cs[0] == c0
    &&& sts[0] == state_in
    &&& c1 == (CommandContext { eval_context: c1.eval_context, ..cs[s.len() as int] })
    &&& r is Ok ==> {
        &&& r.unwrap().0@ == code_of(s)
        &&& r.unwrap().1 == sts[s.len() as int]
        &&& r.unwrap().2@ == collected_errors(rs)
    }
}

/// An analysis-mode pass, as `analysis_facts` describes it for some trace.
pub open spec fn analysis_pass<E>(
    c0: CommandContext<E>,
    c1: CommandContext<E>,
    text: Seq<char>,
    state_in: ContextState,
    r: Result<(String, ContextState, Vec<CompilationError>), Error>,
) -> bool {
    exists|s: Seq<Segment>, cs: Seq<CommandContext<E>>, sts: Seq<ContextState>, rs: Seq<Result<EvalOutputs, Error>>|
        analysis_facts(c0, c1, text, state_in, r, s, cs, sts, rs)
}

/// The result that `finish_interaction` makes from directive outputs
/// `outputs` and engine result `er`, from session `c0` to `c1`.
pub open spec fn finish_contract<E>(
    c0: CommandContext<E>,
    outputs: EvalOutputs,
    er: Result<EvalOutputs, Error>,
    elapsed: u64,
    r: Result<EvalOutputs, Error>,
    c1: CommandContext<E>,
) -> bool {
    match er {
        Ok(m) => {
            &&& r is Ok
            &&& r.unwrap()@ == outputs@.union_prefer_right(m@)
            &&& c0.print_timings ==> r.unwrap().timing == Some(elapsed)
            &&& !c0.print_timings ==> r.unwrap().timing == (if m.timing is Some { m.timing } else { outputs.timing })
            &&& c1 == c0
        },
        Err(Error::CompilationErrors(v)) => {
            &&& r matches Err(Error::CompilationErrors(w)) && w@.len() == v@.len()
            &&& c1 == (CommandContext { last_errors: v, ..c0 })
        },
        Err(e) => r == Err::<EvalOutputs, Error>(e) && c1 == c0,
    }
}

/// From the end of a successful directive pass `c_mid`, the engine ran
/// (changing only itself, to `c_eval`), returned `er`, and the result was
/// finished from the pass's outputs.
pub open spec fn after_engine<E>(
    c_mid: CommandContext<E>,
    c_eval: CommandContext<E>,
    outputs: EvalOutputs,
    er: Result<EvalOutputs, Error>,
    elapsed: u64,
    r: Result<EvalOutputs, Error>,
    c1: CommandContext<E>,
) -> bool {
    &&& c_eval == (CommandContext { eval_context: c_eval.eval_context, ..c_mid })
    &&& finish_contract(c_eval, outputs, er, elapsed, r, c1)
}

/// One real-mode interaction over `text` from `c0` to `c1` with result `r`:
/// a directive pass from the engine's state; its error, where it failed;
/// else the engine's result on the gathered code, finished.
pub open spec fn interaction<E>(
    c0: CommandContext<E>,
    c1: CommandContext<E>,
    text: Seq<char>,
    depth: usize,
    r: Result<EvalOutputs, Error>,
) -> bool {
    exists|state_in: ContextState, c_mid: CommandContext<E>, pr: Result<(String, ContextState, EvalOutputs), Error>|
        real_pass(c0, c_mid, text, state_in, depth, pr) && (pr matches Err(e) ==> r == Err::<
            EvalOutputs,
            Error,
        >(e) && c1 == c_mid) && (pr is Ok ==> exists|
            c_eval: CommandContext<E>,
            er: Result<EvalOutputs, Error>,
            elapsed: u64,
        | after_engine(c_mid, c_eval, pr.unwrap().2, er, elapsed, r, c1))
}

proof fn lemma_analysis_step_reports<E>(
    seg: Segment,
    c0: CommandContext<E>,
    c1: CommandContext<E>,
    s0: ContextState,
    s1: ContextState,
    r: Result<EvalOutputs, Error>,
)
    requires
        seg.kind is Command,
        directive_step(seg, c0, c1, s0, s1, true, MAX_CONFIG_DEPTH, r),
    ensures
        !(r is Err) || r matches Err(Error::CompilationErrors(_)),
{
}

/// Interactions `l` replayed in order from session `c0` to `c1`: `cs`
/// holds the session between them and `rs` their results, `j` of them
/// run. On success all ran and their outputs are merged in order; on
/// failure the last one run failed with that error and the rest did not run.
pub open spec fn replay_facts<E>(
    c0: CommandContext<E>,
    c1: CommandContext<E>,
    l: Seq<Seq<char>>,
    depth: usize,
    r: Result<EvalOutputs, Error>,
    cs: Seq<CommandContext<E>>,
    rs: Seq<Result<EvalOutputs, Error>>,
    j: int,
) -> bool {
    &&& 0 <= j <= l.len()
    &&& cs.len() == j + 1
    &&& rs.len() == j
    &&& cs[0] == c0
    &&& c1 == cs[j]
    &&& forall|k: int| 0 <= k < j ==> #[trigger] interaction(cs[k], cs[k + 1], l[k], depth, rs[k])
    &&& r is Ok ==> j == l.len() && (forall|k: int| 0 <= k < j ==> (#[trigger] rs[k]) is Ok)
        && r.unwrap()@ == merged_outputs(rs)
    &&& r is Err ==> j > 0 && rs[j - 1] == r && forall|k: int| 0 <= k < j - 1 ==> (#[trigger] rs[k]) is Ok
}

/// `replay_facts` for some trace.
pub open spec fn replayed<E>(
    c0: CommandContext<E>,
    c1: CommandContext<E>,
    l: Seq<Seq<char>>,
    depth: usize,
    r: Result<EvalOutputs, Error>,
) -> bool {
    exists|cs: Seq<CommandContext<E>>, rs: Seq<Result<EvalOutputs, Error>>, j: int|
        replay_facts(c0, c1, l, depth, r, cs, rs, j)
}

/// Reloading the configuration from `c0`: reading a file failed, with
/// nothing changed; or the files gave interactions `l`, replayed in order
/// one level deeper.
pub open spec fn config_reload<E>(
    c0: CommandContext<E>,
    c1: CommandContext<E>,
    depth: usize,
    r: Result<EvalOutputs, Error>,
) -> bool {
    (r is Err && c1 == c0) || exists|init: Option<String>, prelude: Option<String>, l: Seq<Seq<char>>|
        interactions_of(init, prelude, l) && replayed(c0, c1, l, (depth - 1) as usize, r)
}

/// A session: the engine, whether timings are shown, and the diagnostics of
/// the last failed compilation.
pub struct CommandContext<E> {
    pub print_timings: bool,
    pub eval_context: E,
    pub last_errors: Vec<CompilationError>,
}

impl<E: EvalEngine> CommandContext<E> {
    /// A session over a freshly started engine.
    pub fn new(eval_context: E) -> (r: CommandContext<E>)
        ensures
            !r.print_timings,
            r.eval_context == eval_context,
            r.last_errors@.len() == 0,
    {
        CommandContext::with_eval_context(eval_context)
    }

    /// A session over `eval_context`, with timings off and no retained
    /// diagnostics.
    pub fn with_eval_context(eval_context: E) -> (r: CommandContext<E>)
        ensures
            !r.print_timings,
            r.eval_context == eval_context,
            r.last_errors@.len() == 0,
    {
        CommandContext { print_timings: false, eval_context, last_errors: Vec::new() }
    }

    /// Runs one interaction: directives in order, then the gathered code.
    /// A failing directive ends it with that directive's result; otherwise
    /// the gathered code and the resulting state go to the engine, and
    /// `finish_interaction` makes the result out of what it returned.
    pub fn execute(&mut self, to_run: &str) -> (r: Result<EvalOutputs, Error>)
        ensures
            interaction(*old(self), *final(self), to_run@, MAX_CONFIG_DEPTH, r),
    {
        self.execute_at_depth(to_run, MAX_CONFIG_DEPTH)
    }

    /// Runs one interaction in which configuration may still be replayed
    /// `depth` levels deep.
    fn execute_at_depth(&mut self, to_run: &str, depth: usize) -> (r: Result<EvalOutputs, Error>)
        ensures
            interaction(*old(self), *final(self), to_run@, depth, r),
        decreases depth, 4nat,
    {
        let start = self.eval_context.clock_millis();
        let state = self.eval_context.state();
        let ghost state_in = state;
        let pass = self.run_directives(to_run, state, depth);
        let ghost c_mid = *self;
        let ghost pass0 = pass;
        match pass {
            Err(e) => Err(e),
            Ok((code, state, outputs)) => {
                let result = self.eval_context.eval(code, state);
                let ghost c_eval = *self;
                let ghost result0 = result;
                let end = self.eval_context.clock_millis();
                let elapsed = if end >= start {
                    end - start
                } else {
                    0
                };
                let r = self.finish_interaction(outputs, result, elapsed);
                assert(after_engine(c_mid, c_eval, pass0.unwrap().2, result0, elapsed, r, *self));
                r
            },
        }
    }

    /// The directive pass of one real-mode interaction, starting from
    /// `state`: each directive is applied in order and the code between them
    /// is gathered. The first failing directive ends the pass with its
    /// result.
    pub fn run_directives(&mut self, to_run: &str, initial: ContextState, depth: usize) -> (r: Result<
        (String, ContextState, EvalOutputs),
        Error,
    >)
        ensures
            real_pass(*old(self), *final(self), to_run@, initial, depth, r),
        decreases depth, 3nat,
    {
        let mut state = initial;
        let ghost state_in = state;
        let mut outputs = EvalOutputs::new();
        let segs = segment(to_run);
        let mut code = String::new();
        let ghost mut cs: Seq<CommandContext<E>> = seq![*self];
        let ghost mut sts: Seq<ContextState> = seq![state];
        let ghost mut rs: Seq<Result<EvalOutputs, Error>> = Seq::empty();
        let mut i: usize = 0;
        while i < segs.len()
            invariant
                i <= segs@.len(),
                segments_of(to_run@, segs@),
                pass_trace(segs@, false, depth, cs, sts, rs, i as int),
                cs[0] == *old(self),
                sts[0] == initial,
                cs.last() == *self,
                sts.last() == state,
                forall|k: int| 0 <= k < i ==> (#[trigger] rs[k]) is Ok,
                outputs@ == merged_outputs(rs),
                code@ == code_of(segs@.subrange(0, i as int)),
            decreases segs@.len() - i,
        {
            let ghost cs0 = cs;
            let ghost sts0 = sts;
            let ghost rs0 = rs;
            let res = match &segs[i].kind {
                CodeKind::Command(call) => self.process_command(call, &segs[i], &mut state, false, depth),
                CodeKind::Code => {
                    code.append(segs[i].code.as_str());
                    Ok(EvalOutputs::new())
                },
            };
            proof {
                cs = cs.push(*self);
                sts = sts.push(state);
                rs = rs.push(res);
                assert forall|k: int| 0 <= k < i + 1 implies #[trigger] step_ok(
                    segs@[k],
                    cs[k],
                    cs[k + 1],
                    sts[k],
                    sts[k + 1],
                    rs[k],
                    false,
                    depth,
                ) by {
                    if k < i {
                        assert(step_ok(segs@[k], cs0[k], cs0[k + 1], sts0[k], sts0[k + 1], rs0[k], false, depth));
                    }
                }
                assert(segs@.subrange(0, i + 1).drop_last() =~= segs@.subrange(0, i as int));
                assert(rs.drop_last() =~= rs0);
            }
            match res {
                Ok(o) => outputs.merge(o),
                Err(e) => {
                    let r: Result<(String, ContextState, EvalOutputs), Error> = Err(e);
                    proof {
                        assert(rs[i as int] == Err::<EvalOutputs, Error>(e));
                        assert forall|k: int| 0 <= k < i implies (#[trigger] rs[k]) is Ok by {
                            assert(rs[k] == rs0[k]);
                        }
                        assert(cs[0] == cs0[0]);
                        assert(sts[0] == sts0[0]);
                        assert(pass_trace(segs@, false, depth, cs, sts, rs, i + 1));
                        assert(segments_of(to_run@, segs@));
                        assert(*self == cs[i + 1]);
                        assert(pass_facts(*old(self), *self, to_run@, initial, depth, r, segs@, cs, sts, rs, i + 1));
                        assert(real_pass(*old(self), *self, to_run@, initial, depth, r));
                    }
                    return r;
                },
            }
            i += 1;
        }
        assert(segs@.subrange(0, segs@.len() as int) =~= segs@);
        let r = Ok((code, state, outputs));
        assert(pass_facts(*old(self), *self, to_run@, state_in, depth, r, segs@, cs, sts, rs, i as int));
        r
    }

    /// Makes an interaction's result from the outputs of its directives and
    /// what the engine returned: on success the engine's outputs are merged
    /// after the directives' and, with timing display on, `elapsed` is
    /// attached; engine diagnostics replace the retained ones and are
    /// returned; any other error is returned as it is.
    pub fn finish_interaction(
        &mut self,
        outputs: EvalOutputs,
        result: Result<EvalOutputs, Error>,
        elapsed: u64,
    ) -> (r: Result<EvalOutputs, Error>)
        ensures
            finish_contract(*old(self), outputs, result, elapsed, r, *final(self)),
    {
        match result {
            Ok(m) => {
                let mut outputs = outputs;
                outputs.merge(m);
                if self.print_timings {
                    outputs.timing = Some(elapsed);
                }
                Ok(outputs)
            },
            Err(Error::CompilationErrors(errors)) => {
                self.last_errors = errors;
                Err(Error::CompilationErrors(self.last_errors.clone()))
            },
            Err(e) => Err(e),
        }
    }

    /// Diagnostics for `code` without running it. Directives are applied in
    /// their analysis variants; where any of them fails, their diagnostics
    /// are the result and the code is not checked.
    pub fn check(&mut self, code: &str) -> (r: Result<Vec<CompilationError>, Error>)
        ensures
            exists|c_mid: CommandContext<E>, state_in: ContextState, pr: Result<
                (String, ContextState, Vec<CompilationError>),
                Error,
            >|
                analysis_pass(*old(self), c_mid, code@, state_in, pr) && (pr matches Err(e) ==> r
                    == Err::<Vec<CompilationError>, Error>(e) && *final(self) == c_mid) && (pr is Ok
                    && pr.unwrap().2@.len() > 0 ==> r is Ok && r.unwrap()@ == pr.unwrap().2@
                    && *final(self) == c_mid),
    {
        let state = self.eval_context.state();
        let ghost state_in = state;
        let pr = self.prepare_for_analysis(code, state);
        let ghost c_mid = *self;
        let ghost pr0 = pr;
        match pr {
            Err(e) => Err(e),
            Ok((non_command_code, state, errors)) => {
                if errors.len() > 0 {
                    return Ok(errors);
                }
                self.eval_context.check(non_command_code, state)
            },
        }
    }

    /// Applies the directives of `text` in analysis mode, starting from
    /// `state`, collecting the diagnostic of every failing one, and gathers
    /// the code between them; the resulting state then goes to the engine's
    /// manifest writer.
    pub fn prepare_for_analysis(&mut self, text: &str, initial: ContextState) -> (r: Result<
        (String, ContextState, Vec<CompilationError>),
        Error,
    >)
        ensures
            analysis_pass(*old(self), *final(self), text@, initial, r),
    {
        let mut state = initial;
        let ghost state_in = state;
        let segs = segment(text);
        let mut non_command_code = String::new();
        let mut errors: Vec<CompilationError> = Vec::new();
        let ghost mut cs: Seq<CommandContext<E>> = seq![*self];
        let ghost mut sts: Seq<ContextState> = seq![state];
        let ghost mut rs: Seq<Result<EvalOutputs, Error>> = Seq::empty();
        let mut i: usize = 0;
        while i < segs.len()
            invariant
                i <= segs@.len(),
                segments_of(text@, segs@),
                pass_trace(segs@, true, MAX_CONFIG_DEPTH, cs, sts, rs, i as int),
                cs[0] == *old(self),
                sts[0] == initial,
                cs.last() == *self,
                sts.last() == state,
                errors@ == collected_errors(rs),
                non_command_code@ == code_of(segs@.subrange(0, i as int)),
            decreases segs@.len() - i,
        {
            let ghost cs0 = cs;
            let ghost sts0 = sts;
            let ghost rs0 = rs;
            let res = match &segs[i].kind {
                CodeKind::Command(call) => self.process_command(
                    call,
                    &segs[i],
                    &mut state,
                    true,
                    MAX_CONFIG_DEPTH,
                ),
                CodeKind::Code => {
                    non_command_code.append(segs[i].code.as_str());
                    Ok(EvalOutputs::new())
                },
            };
            proof {
                cs = cs.push(*self);
                sts = sts.push(state);
                rs = rs.push(res);
                assert forall|k: int| 0 <= k < i + 1 implies #[trigger] step_ok(
                    segs@[k],
                    cs[k],
                    cs[k + 1],
                    sts[k],
                    sts[k + 1],
                    rs[k],
                    true,
                    MAX_CONFIG_DEPTH,
                ) by {
                    if k < i {
                        assert(step_ok(segs@[k], cs0[k], cs0[k + 1], sts0[k], sts0[k + 1], rs0[k], true, MAX_CONFIG_DEPTH));
                    }
                }
                assert(segs@.subrange(0, i + 1).drop_last() =~= segs@.subrange(0, i as int));
                assert(rs.drop_last() =~= rs0);
            }
            match res {
                Ok(_) => {},
                Err(Error::CompilationErrors(v)) => {
                    let mut v = v;
                    errors.append(&mut v);
                },
                Err(e) => {
                    errors.push(
                        CompilationError::new(
                            error_text(&e),
                            crate::segment::segment_span(&segs[i]),
                        ),
                    );
                    proof {
                        lemma_analysis_step_reports(segs@[i as int], cs0.last(), *self, sts0.last(), state, rs.last());
                    }
                },
            }
            i += 1;
        }
        assert(segs@.subrange(0, segs@.len() as int) =~= segs@);
        let ghost c_pass = *self;
        let ghost st_pass = state;
        let ghost errs = errors@;
        let r = match self.eval_context.write_cargo_toml(&state) {
            Ok(()) => Ok((non_command_code, state, errors)),
            Err(e) => Err(e),
        };
        assert(analysis_facts(*old(self), *self, text@, state_in, r, segs@, cs, sts, rs));
        r
    }

    /// Completions within `src` at character offset `position`: directive
    /// names where the position lies in a directive, else the engine's.
    /// Nothing of the session is changed.
    pub fn completions(&mut self, src: &str, position: usize) -> (r: Result<Completions, Error>)
        ensures
            exists|s: Seq<Segment>|
                segments_of(src@, s) && forall|k: int|
                    first_completing(s, k, position as int) && src@.len() < usize::MAX ==> (r is Ok
                        && *final(self) == *old(self)
                        && r.unwrap().end_offset == position && r.unwrap().start_offset
                        == seg_start(s, k) && r.unwrap().completions@.map_values(
                        |c: Completion| c.code@,
                    ) == names_with_prefix(
                        catalog(),
                        line_body((#[trigger] s[k]).code@).subrange(0, position - seg_start(s, k)),
                    )),
    {
        let segs = segment(src);
        let mut start: usize = 0;
        let mut i: usize = 0;
        while i < segs.len()
            invariant
                i <= segs@.len(),
                self == old(self),
                segments_of(src@, segs@),
                start == seg_start(segs@, i as int),
                forall|j: int| 0 <= j < i ==> !completes_directive(segs@, j, position as int),
            ensures
                forall|k: int| first_completing(segs@, k, position as int) ==> src@.len() >= usize::MAX,
            decreases segs@.len() - i,
        {
            let len = segs[i].code.unicode_len();
            let body_len = if len > 0 && segs[i].code.as_str().get_char(len - 1) == '\n' {
                len - 1
            } else {
                len
            };
            assert(body_len == line_body(segs@[i as int].code@).len());
            if let CodeKind::Command(_) = &segs[i].kind {
                if start <= position && position - start <= body_len {
                    let c = command_completions(segs[i].code.as_str(), position - start, position);
                    proof {
                        assert forall|k: int| first_completing(segs@, k, position as int) implies k
                            == i by {
                            if k > i {
                                assert(completes_directive(segs@, i as int, position as int));
                            }
                        }
                        assert(segs@[i as int].code@.subrange(0, position - start) =~= line_body(
                            segs@[i as int].code@,
                        ).subrange(0, position - start));
                    }
                    return Ok(c);
                }
            }
            proof {
                assert(segs@.subrange(0, i + 1).drop_last() =~= segs@.subrange(0, i as int));
                lemma_flatten_prefix_len(segs@, i + 1);
            }
            if len > usize::MAX - start {
                proof {
                    assert forall|k: int| first_completing(segs@, k, position as int) implies src@.len()
                        >= usize::MAX by {}
                }
                break;
            }
            start = start + len;
            i += 1;
        }
        match self.prepare_for_analysis(src, self.eval_context.state()) {
            Err(e) => Err(e),
            Ok((non_command_code, state, _errors)) => self.eval_context.completions(
                non_command_code,
                state,
                position,
            ),
        }
    }

    /// Bound variables and their types.
    pub fn variables_and_types(&self) -> Vec<(String, String)> {
        self.eval_context.variables_and_types()
    }

    /// Restores the engine's configuration to its defaults.
    pub fn reset_config(&mut self)
        ensures
            *final(self) == (CommandContext { eval_context: final(self).eval_context, ..*old(self) }),
    {
        self.eval_context.reset_config()
    }

    /// Names of the items defined so far.
    pub fn defined_item_names(&self) -> Vec<String> {
        self.eval_context.defined_item_names()
    }

    /// Sets the engine's committed optimisation level.
    pub fn set_opt_level(&mut self, level: &str) -> (r: Result<(), Error>)
        ensures
            *final(self) == (CommandContext { eval_context: final(self).eval_context, ..*old(self) }),
    {
        self.eval_context.set_opt_level(level)
    }

    /// The source last handed to the compiler.
    pub fn last_source(&self) -> Result<String, Error> {
        self.eval_context.last_source()
    }

    /// Resolves and applies one directive. An unknown name, or a failing
    /// directive, yields one diagnostic placed by the span rules.
    fn process_command(
        &mut self,
        command_call: &CommandCall,
        seg: &Segment,
        state: &mut ContextState,
        analysis_mode: bool,
        depth: usize,
    ) -> (r: Result<EvalOutputs, Error>)
        requires
            seg.kind == CodeKind::Command(*command_call),
        ensures
            directive_step(*seg, *old(self), *final(self), *old(state), *final(state), analysis_mode, depth, r),
        decreases depth, 2nat,
    {
        match find_command(command_call.command.as_str()) {
            None => {
                let mut message = String::from_str("Unrecognised command ");
                message.append(command_call.command.as_str());
                let n = command_call.command.unicode_len();
                let span = Span {
                    start_line: seg.line,
                    start_column: 1,
                    end_line: seg.line,
                    end_column: if n < usize::MAX {
                        n + 1
                    } else {
                        usize::MAX
                    },
                };
                let mut errs: Vec<CompilationError> = Vec::new();
                errs.push(CompilationError::new(message, span));
                Err(Error::CompilationErrors(errs))
            },
            Some(kind) => {
                let res = self.run_command(kind, state, &command_call.args, analysis_mode, depth);
                let ghost res0 = res;
                let out = match res {
                    Ok(o) => Ok(o),
                    Err(Error::Quit) => Err(Error::Quit),
                    Err(e) => {
                        let text = error_text(&e);
                        let v = chars_of(seg.code.as_str());
                        let mut end: usize = v.len();
                        if end > 0 && v[end - 1] == '\n' {
                            end -= 1;
                        }
                        let body = crate::text::vec_range(&v, 0, end);
                        assert(body@ =~= line_body(seg.code@));
                        let span = Span {
                            start_line: seg.line,
                            start_column: failure_column(&body),
                            end_line: seg.line,
                            end_column: end,
                        };
                        let mut errs: Vec<CompilationError> = Vec::new();
                        errs.push(CompilationError::new(text, span));
                        Err(Error::CompilationErrors(errs))
                    },
                };
                assert(wrapped(res0, out, *seg));
                out
            },
        }
    }

    /// Applies directive `kind` to `state`: its analysis variant where
    /// `analysis_mode` holds, else its primary effect.
    fn run_command(
        &mut self,
        kind: CommandKind,
        state: &mut ContextState,
        args: &Option<String>,
        analysis_mode: bool,
        depth: usize,
    ) -> (r: Result<EvalOutputs, Error>)
        ensures
            command_contract(
                kind,
                *old(self),
                *final(self),
                *old(state),
                *final(state),
                *args,
                analysis_mode,
                depth,
                r,
            ),
            kind == CommandKind::LoadConfig && !analysis_mode && depth > 0 ==> config_reload(
                *old(self),
                *final(self),
                depth,
                r,
            ),
        decreases depth, 1nat,
    {
        proof {
            reveal_strlit("1");
            reveal_strlit("0");
        }
        match kind {
            CommandKind::InternalDebug => {
                state.debug_mode = !state.debug_mode;
                Ok(labelled("Internals debugging: ", bool_str(state.debug_mode)))
            },
            CommandKind::LoadConfig => {
                if analysis_mode {
                    return Ok(EvalOutputs::new());
                }
                let result = if depth > 0 {
                    self.load_config(depth)
                } else {
                    Err(Error::Message(String::from_str("Configuration files load each other too deeply")))
                };
                *state = self.eval_context.state();
                result
            },
            CommandKind::Version => Ok(labelled("", VERSION)),
            CommandKind::Vars => {
                let vars = self.eval_context.variables_and_types();
                let out = EvalOutputs::text_html(vars_as_text(&vars), vars_as_html(&vars));
                assert(out@ == map![text_plain() => vars_text(pairs_view(vars@)), crate::outputs::text_html() => vars_html(pairs_view(vars@))]);
                Ok(out)
            },
            CommandKind::PreserveVarsOnPanic => {
                let on = match args {
                    Some(a) => str_eq(a.as_str(), "1"),
                    None => false,
                };
                state.preserve_vars_on_panic = on;
                Ok(labelled("Preserve vars on panic: ", bool_str(on)))
            },
            CommandKind::Clear => {
                if analysis_mode {
                    *state = self.eval_context.cleared_state();
                    return Ok(EvalOutputs::new());
                }
                match self.eval_context.clear() {
                    Ok(()) => {
                        *state = self.eval_context.state();
                        Ok(EvalOutputs::new())
                    },
                    Err(e) => Err(e),
                }
            },
            CommandKind::Dep => match args {
                None => Err(Error::Message(String::from_str(":dep requires arguments"))),
                Some(a) => match parse_dep(a.as_str()) {
                    Some((name, requirement)) => {
                        state.add_dep(name.as_str(), requirement.as_str());
                        Ok(EvalOutputs::new())
                    },
                    None => Err(
                        Error::Message(
                            String::from_str(
                                "Invalid :dep command. Expected: name = ... or just name",
                            ),
                        ),
                    ),
                },
            },
            CommandKind::LastCompileDir => {
                let dir = self.eval_context.last_compile_dir();
                match dir {
                    Some(d) => {
                        let mut text = String::from_str("Some(\"");
                        text.append(d.as_str());
                        text.append("\")");
                        let out = labelled("", text.as_str());
                        assert(out@ == shown(""@, "Some(\""@ + d@ + "\")"@));
                        Ok(out)
                    },
                    None => Ok(labelled("", "None")),
                }
            },
            CommandKind::Opt => {
                proof {
                    reveal_strlit("2");
                }
                let new_level: String = match args {
                    Some(n) => n.clone(),
                    None => if str_eq(state.opt_level.as_str(), "2") {
                        String::from_str("0")
                    } else {
                        String::from_str("2")
                    },
                };
                match state.set_opt_level(new_level.as_str()) {
                    Ok(()) => Ok(labelled("Optimization: ", state.opt_level.as_str())),
                    Err(m) => Err(Error::Message(m)),
                }
            },
            CommandKind::Fmt => {
                let new_format: String = match args {
                    Some(f) => f.clone(),
                    None => String::from_str("{:?}"),
                };
                state.output_format = new_format;
                Ok(labelled("Output format: ", state.output_format.as_str()))
            },
            CommandKind::Efmt => {
                if let Some(f) = args {
                    if let Err(m) = state.set_error_format(f.as_str()) {
                        return Err(Error::Message(m));
                    }
                }
                let mut text = String::from_str(state.error_format.as_str());
                text.append(" (errors must implement ");
                text.append(state.error_format_trait.as_str());
                text.append(")");
                Ok(labelled("Error format: ", text.as_str()))
            },
            CommandKind::Toolchain => {
                if let Some(t) = args {
                    state.toolchain = t.clone();
                }
                Ok(labelled("Toolchain: ", state.toolchain.as_str()))
            },
            CommandKind::Offline => {
                let on = match args {
                    Some(a) => str_eq(a.as_str(), "1"),
                    None => false,
                };
                state.offline_mode = on;
                Ok(labelled("Offline mode: ", bool_str(on)))
            },
            CommandKind::Quit => {
                if analysis_mode {
                    Ok(EvalOutputs::new())
                } else {
                    Err(Error::Quit)
                }
            },
            CommandKind::Timing => {
                let on = !self.print_timings;
                self.print_timings = on;
                Ok(labelled("Timing: ", bool_str(on)))
            },
            CommandKind::TimePasses => {
                state.time_passes = !state.time_passes;
                Ok(labelled("Time passes: ", bool_str(state.time_passes)))
            },
            CommandKind::Sccache => {
                let off = match args {
                    Some(a) => str_eq(a.as_str(), "0"),
                    None => false,
                };
                match state.set_sccache(!off) {
                    Ok(()) => Ok(labelled("sccache: ", bool_str(!off))),
                    Err(m) => Err(Error::Message(m)),
                }
            },
            CommandKind::Linker => {
                if let Some(l) = args {
                    state.linker = l.clone();
                }
                Ok(labelled("linker: ", state.linker.as_str()))
            },
            CommandKind::Explain => {
                if self.last_errors.len() == 0 {
                    return Err(Error::Message(String::from_str("No last error to explain")));
                }
                match collect_explanations(&self.last_errors) {
                    Some(all) => Ok(text_output(all)),
                    None => Err(Error::Message(String::from_str("Sorry, last error has no explanation"))),
                }
            },
            CommandKind::LastErrorJson => Err(Error::Message(collect_payloads(&self.last_errors))),
            CommandKind::Help => Ok(EvalOutputs::text_html(help_text(), help_html())),
        }
    }

    /// Replays the configuration files in the order `config_interactions`
    /// gives: each line of the startup file, then the prelude. The first
    /// failure ends the replay.
    fn load_config(&mut self, depth: usize) -> (r: Result<EvalOutputs, Error>)
        requires
            depth > 0,
        ensures
            config_reload(*old(self), *final(self), depth, r),
        decreases depth, 0nat,
    {
        let init = match self.eval_context.config_file("init") {
            Ok(f) => f,
            Err(e) => {
                return Err(e);
            },
        };
        let prelude = match self.eval_context.config_file("prelude") {
            Ok(f) => f,
            Err(e) => {
                return Err(e);
            },
        };
        let interactions = config_interactions(&init, &prelude);
        let r = self.replay(&interactions, depth - 1);
        assert(interactions_of(init, prelude, interactions@.map_values(|x: String| x@)));
        r
    }

    /// Runs `interactions` in order, `depth` levels of configuration replay
    /// still allowed; the first failure ends the run. An empty list gives
    /// empty outputs and changes nothing.
    pub fn replay(&mut self, interactions: &Vec<String>, depth: usize) -> (r: Result<EvalOutputs, Error>)
        ensures
            replayed(*old(self), *final(self), interactions@.map_values(|x: String| x@), depth, r),
            interactions@.len() == 0 ==> r is Ok && r.unwrap()@ == Map::<Seq<char>, Seq<char>>::empty()
                && *final(self) == *old(self),
        decreases depth, 5nat,
    {
        let ghost l = interactions@.map_values(|x: String| x@);
        let mut outputs = EvalOutputs::new();
        let ghost mut cs: Seq<CommandContext<E>> = seq![*self];
        let ghost mut rs: Seq<Result<EvalOutputs, Error>> = Seq::empty();
        let mut i: usize = 0;
        while i < interactions.len()
            invariant
                i <= interactions@.len(),
                l == interactions@.map_values(|x: String| x@),
                cs.len() == i + 1,
                rs.len() == i,
                cs[0] == *old(self),
                cs.last() == *self,
                forall|k: int| 0 <= k < i ==> #[trigger] interaction(cs[k], cs[k + 1], l[k], depth, rs[k]),
                forall|k: int| 0 <= k < i ==> (#[trigger] rs[k]) is Ok,
                outputs@ == merged_outputs(rs),
            decreases interactions@.len() - i,
        {
            let ghost cs0 = cs;
            let ghost rs0 = rs;
            let res = self.execute_at_depth(interactions[i].as_str(), depth);
            proof {
                cs = cs.push(*self);
                rs = rs.push(res);
                assert forall|k: int| 0 <= k < i + 1 implies #[trigger] interaction(
                    cs[k],
                    cs[k + 1],
                    l[k],
                    depth,
                    rs[k],
                ) by {
                    if k < i {
                        assert(interaction(cs0[k], cs0[k + 1], l[k], depth, rs0[k]));
                    }
                }
                assert(rs.drop_last() =~= rs0);
                assert(cs[0] == cs0[0]);
            }
            match res {
                Ok(o) => outputs.merge(o),
                Err(e) => {
                    let r: Result<EvalOutputs, Error> = Err(e);
                    proof {
                        assert forall|k: int| 0 <= k < i implies (#[trigger] rs[k]) is Ok by {
                            assert(rs[k] == rs0[k]);
                        }
                        assert(replay_facts(*old(self), *self, l, depth, r, cs, rs, i + 1));
                    }
                    return r;
                },
            }
            proof {
                assert forall|k: int| 0 <= k < i + 1 implies (#[trigger] rs[k]) is Ok by {
                    if k < i {
                        assert(rs[k] == rs0[k]);
                    }
                }
            }
            i += 1;
        }
        let r: Result<EvalOutputs, Error> = Ok(outputs);
        assert(replay_facts(*old(self), *self, l, depth, r, cs, rs, i as int));
        r
    }
}

/// The directive names that complete the first `offset` characters of
/// directive line `code`, for a cursor at `full_position`.
pub fn command_completions(code: &str, offset: usize, full_position: usize) -> (r: Completions)
    requires
        offset <= code@.len(),
        offset <= full_position,
    ensures
        r.start_offset == full_position - offset,
        r.end_offset == full_position,
        r.completions@.map_values(|c: Completion| c.code@) == names_with_prefix(
            catalog(),
            code@.subrange(0, offset as int),
        ),
{
    let v = chars_of(code);
    let existing = string_of(&v, 0, offset);
    let names = commands_with_prefix(existing.as_str());
    let mut completions: Vec<Completion> = Vec::new();
    let mut i: usize = 0;
    while i < names.len()
        invariant
            i <= names@.len(),
            completions@.len() == i,
            forall|k: int| 0 <= k < i ==> (#[trigger] completions@[k]).code@ == names@[k]@,
        decreases names@.len() - i,
    {
        completions.push(Completion { code: names[i].clone() });
        i += 1;
    }
    assert(completions@.map_values(|c: Completion| c.code@) =~= names@.map_values(|x: String| x@));
    Completions { completions, start_offset: full_position - offset, end_offset: full_position }
}

proof fn lemma_code_steps_keep<E>(
    s: Seq<Segment>,
    analysis: bool,
    depth: usize,
    cs: Seq<CommandContext<E>>,
    sts: Seq<ContextState>,
    rs: Seq<Result<EvalOutputs, Error>>,
    j: int,
    k: int,
)
    requires
        pass_trace(s, analysis, depth, cs, sts, rs, j),
        forall|m: int| 0 <= m < s.len() ==> (#[trigger] s[m]).kind is Code,
        0 <= k <= j,
    ensures
        cs[k] == cs[0],
        sts[k] == sts[0],
        merged_outputs(rs.subrange(0, k)) == Map::<Seq<char>, Seq<char>>::empty(),
        forall|m: int| 0 <= m < k ==> (#[trigger] rs[m]) is Ok,
    decreases k,
{
    if k > 0 {
        lemma_code_steps_keep(s, analysis, depth, cs, sts, rs, j, k - 1);
        let m = k - 1;
        assert(step_ok(s[m], cs[m], cs[m + 1], sts[m], sts[m + 1], rs[m], analysis, depth));
        assert(rs.subrange(0, k).drop_last() =~= rs.subrange(0, k - 1));
        assert(merged_outputs(rs.subrange(0, k)) =~= Map::<Seq<char>, Seq<char>>::empty());
    }
}

/// Input in which no line starts with `:` runs no directive: the pass
/// succeeds, gathers the whole input unchanged as the code, keeps the state
/// it started from, leaves the session as it was and reports nothing.
pub proof fn lemma_plain_input_pass<E>(
    c0: CommandContext<E>,
    c1: CommandContext<E>,
    text: Seq<char>,
    state_in: ContextState,
    depth: usize,
    r: Result<(String, ContextState, EvalOutputs), Error>,
)
    requires
        no_directive_marker(text),
        real_pass(c0, c1, text, state_in, depth, r),
    ensures
        r is Ok,
        r.unwrap().0@ == text,
        r.unwrap().1 == state_in,
        r.unwrap().2@ == Map::<Seq<char>, Seq<char>>::empty(),
        c1 == c0,
{
    let (s, cs, sts, rs, j) = choose|
        s: Seq<Segment>,
        cs: Seq<CommandContext<E>>,
        sts: Seq<ContextState>,
        rs: Seq<Result<EvalOutputs, Error>>,
        j: int,
    | pass_facts(c0, c1, text, state_in, depth, r, s, cs, sts, rs, j);
    lemma_plain_code_forwarded(text, s);
    lemma_code_steps_keep(s, false, depth, cs, sts, rs, j, j);
    assert(rs.subrange(0, j) =~= rs);
    if r is Err {
        assert(rs[j - 1] is Ok);
    }
}

/// In an analysis-mode pass every failing step fails with exactly one
/// diagnostic, never a request to quit; so the diagnostics collected are one
/// per failing directive, in order, and there are none only where no
/// directive failed.
pub proof fn lemma_analysis_failures_report_once<E>(
    s: Seq<Segment>,
    cs: Seq<CommandContext<E>>,
    sts: Seq<ContextState>,
    rs: Seq<Result<EvalOutputs, Error>>,
    j: int,
)
    requires
        pass_trace(s, true, MAX_CONFIG_DEPTH, cs, sts, rs, j),
    ensures
        forall|k: int|
            0 <= k < j && (#[trigger] rs[k]) is Err ==> (rs[k] matches Err(
                Error::CompilationErrors(v),
            ) && v@.len() == 1),
        (collected_errors(rs).len() == 0) <==> (forall|k: int| 0 <= k < j ==> (#[trigger] rs[k]) is Ok),
    decreases j,
{
    assert forall|k: int| 0 <= k < j && (#[trigger] rs[k]) is Err implies (rs[k] matches Err(
        Error::CompilationErrors(v),
    ) && v@.len() == 1) by {
        assert(step_ok(s[k], cs[k], cs[k + 1], sts[k], sts[k + 1], rs[k], true, MAX_CONFIG_DEPTH));
        if s[k].kind is Command {
            if lookup(s[k].kind->Command_0.command@) is Some {
                let r0 = choose|r0: Result<EvalOutputs, Error>|
                    command_contract(
                        lookup(s[k].kind->Command_0.command@).unwrap(),
                        cs[k],
                        cs[k + 1],
                        sts[k],
                        sts[k + 1],
                        s[k].kind->Command_0.args,
                        true,
                        MAX_CONFIG_DEPTH,
                        r0,
                    ) && wrapped(r0, rs[k], s[k]);
            }
        }
    }
    if j > 0 {
        let p = rs.drop_last();
        assert(pass_trace(s, true, MAX_CONFIG_DEPTH, cs.drop_last(), sts.drop_last(), p, j - 1)) by {
            assert forall|k: int| 0 <= k < j - 1 implies #[trigger] step_ok(
                s[k],
                cs.drop_last()[k],
                cs.drop_last()[k + 1],
                sts.drop_last()[k],
                sts.drop_last()[k + 1],
                p[k],
                true,
                MAX_CONFIG_DEPTH,
            ) by {
                assert(step_ok(s[k], cs[k], cs[k + 1], sts[k], sts[k + 1], rs[k], true, MAX_CONFIG_DEPTH));
            }
        }
        lemma_analysis_failures_report_once(s, cs.drop_last(), sts.drop_last(), p, j - 1);
        assert forall|k: int| 0 <= k < j - 1 implies p[k] == rs[k] by {}
        if rs[j - 1] is Err {
            assert(rs[j - 1] matches Err(Error::CompilationErrors(v)) && v@.len() == 1);
        }
    }
}

/// `:opt` without an argument applied twice from level `"2"` sets `"0"`
/// and reports it, then sets `"2"` again and reports that.
pub proof fn lemma_opt_round_trip<E>(
    c0: CommandContext<E>,
    c1: CommandContext<E>,
    c2: CommandContext<E>,
    s0: ContextState,
    s1: ContextState,
    s2: ContextState,
    analysis: bool,
    depth: usize,
    r1: Result<EvalOutputs, Error>,
    r2: Result<EvalOutputs, Error>,
)
    requires
        s0.opt_level@ == "2"@,
        command_contract(CommandKind::Opt, c0, c1, s0, s1, None, analysis, depth, r1),
        command_contract(CommandKind::Opt, c1, c2, s1, s2, None, analysis, depth, r2),
    ensures
        s1.opt_level@ == "0"@,
        r1 is Ok && r1.unwrap()@ == shown("Optimization: "@, "0"@),
        s2.opt_level@ == "2"@,
        r2 is Ok && r2.unwrap()@ == shown("Optimization: "@, "2"@),
{
    reveal_strlit("0");
    reveal_strlit("2");
    assert("0"@ != "2"@) by {
        assert("0"@[0] != "2"@[0]);
    }
}

/// In analysis mode `:quit` reports nothing and changes neither the state
/// nor the session: it never asks to end the process.
pub proof fn lemma_quit_in_analysis<E>(
    c0: CommandContext<E>,
    c1: CommandContext<E>,
    s0: ContextState,
    s1: ContextState,
    args: Option<String>,
    depth: usize,
    r: Result<EvalOutputs, Error>,
)
    requires
        command_contract(CommandKind::Quit, c0, c1, s0, s1, args, true, depth, r),
    ensures
        r is Ok && r.unwrap()@ == Map::<Seq<char>, Seq<char>>::empty(),
        s1 == s0,
        c1 == c0,
{
}

/// `:explain` with no retained diagnostics fails with the message "No last
/// error to explain", in either mode, and changes no state.
pub proof fn lemma_explain_without_errors<E>(
    c0: CommandContext<E>,
    c1: CommandContext<E>,
    s0: ContextState,
    s1: ContextState,
    args: Option<String>,
    analysis: bool,
    depth: usize,
    r: Result<EvalOutputs, Error>,
)
    requires
        c0.last_errors@.len() == 0,
        command_contract(CommandKind::Explain, c0, c1, s0, s1, args, analysis, depth, r),
    ensures
        r matches Err(Error::Message(m)) && m@ == "No last error to explain"@,
        s1 == s0,
{
}

/// Replaying no interactions succeeds with empty outputs and changes
/// nothing; so does reloading when neither configuration file exists.
pub proof fn lemma_empty_replay<E>(
    c0: CommandContext<E>,
    c1: CommandContext<E>,
    l: Seq<Seq<char>>,
    depth: usize,
    r: Result<EvalOutputs, Error>,
)
    requires
        interactions_of(None, None, l),
        replayed(c0, c1, l, depth, r),
    ensures
        r is Ok && r.unwrap()@ == Map::<Seq<char>, Seq<char>>::empty(),
        c1 == c0,
{
    let (cs, rs, j) = choose|cs: Seq<CommandContext<E>>, rs: Seq<Result<EvalOutputs, Error>>, j: int|
        replay_facts(c0, c1, l, depth, r, cs, rs, j);
    assert(rs =~= Seq::<Result<EvalOutputs, Error>>::empty());
}

} // verus!
