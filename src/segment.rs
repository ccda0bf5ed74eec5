//! Splitting input into code and directive segments, and reading a
//! directive's name and argument.
use vstd::prelude::*;
use crate::text::{chars_of, string_of, vec_range};

verus! {

/// A directive: its name (the text up to the first space) and its raw
/// argument, if any.
#[derive(Clone, Debug)]
pub struct CommandCall {
    pub command: String,
    pub args: Option<String>,
}

/// What a segment holds.
#[derive(Clone, Debug)]
pub enum CodeKind {
    Code,
    Command(CommandCall),
}

/// One line of the input, with its line break, tagged as code or directive.
/// `line` counts from one.
#[derive(Clone, Debug)]
pub struct Segment {
    pub kind: CodeKind,
    pub code: String,
    pub line: usize,
}

/// The first index at or after `i` where `b` holds `c`, or `b.len()`.
pub open spec fn find_char(b: Seq<char>, c: char, i: int) -> int
    decreases b.len() - i,
{
    if i >= b.len() {
        b.len() as int
    } else if b[i] == c {
        i
    } else {
        find_char(b, c, i + 1)
    }
}

/// The first index at or after `i` where `b` holds something other than a
/// space, or `b.len()`.
pub open spec fn skip_spaces(b: Seq<char>, i: int) -> int
    decreases b.len() - i,
{
    if i >= b.len() {
        b.len() as int
    } else if b[i] != ' ' {
        i
    } else {
        skip_spaces(b, i + 1)
    }
}

/// A line without its line break.
pub open spec fn line_body(l: Seq<char>) -> Seq<char> {
    if l.len() > 0 && l.last() == '\n' {
        l.drop_last()
    } else {
        l
    }
}

/// The name of the directive on line body `b`: everything before the first
/// space.
pub open spec fn command_name(b: Seq<char>) -> Seq<char> {
    b.subrange(0, find_char(b, ' ', 0))
}

/// Where the argument of `b` starts: the first non-space character after
/// the first space, or `b.len()` where there is none.
pub open spec fn arg_start(b: Seq<char>) -> int {
    if find_char(b, ' ', 0) < b.len() {
        skip_spaces(b, find_char(b, ' ', 0) + 1)
    } else {
        b.len() as int
    }
}

/// The raw argument of `b`: from `arg_start` to the end.
pub open spec fn command_args(b: Seq<char>) -> Option<Seq<char>> {
    if arg_start(b) < b.len() {
        Some(b.subrange(arg_start(b), b.len() as int))
    } else {
        None
    }
}

/// The column (from one) where the span of a failed directive starts: at its
/// argument, or at the start of the line where it has none.
pub open spec fn failure_start_column(b: Seq<char>) -> int {
    if arg_start(b) < b.len() {
        arg_start(b) + 1
    } else {
        1
    }
}

/// Whether a line is a directive.
pub open spec fn is_command_line(l: Seq<char>) -> bool {
    l.len() > 0 && l[0] == ':'
}

/// The input text that a sequence of segments covers.
pub open spec fn flatten(s: Seq<Segment>) -> Seq<char>
    decreases s.len(),
{
    if s.len() == 0 {
        Seq::empty()
    } else {
        flatten(s.drop_last()) + s.last().code@
    }
}

/// The code segments of `s`, concatenated in order.
pub open spec fn code_of(s: Seq<Segment>) -> Seq<char>
    decreases s.len(),
{
    if s.len() == 0 {
        Seq::empty()
    } else {
        code_of(s.drop_last()) + (if s.last().kind is Code {
            s.last().code@
        } else {
            Seq::empty()
        })
    }
}

/// A segment whose kind and directive agree with its text.
pub open spec fn well_formed_segment(g: Segment) -> bool {
    &&& g.code@.len() > 0
    &&& forall|k: int| 0 <= k < g.code@.len() - 1 ==> g.code@[k] != '\n'
    &&& (g.kind is Command <==> is_command_line(g.code@))
    &&& match g.kind {
        CodeKind::Command(call) => {
            &&& call.command@ == command_name(line_body(g.code@))
            &&& (call.args is Some <==> command_args(line_body(g.code@)) is Some)
            &&& (call.args is Some ==> call.args.unwrap()@ == command_args(
                line_body(g.code@),
            ).unwrap())
        },
        CodeKind::Code => true,
    }
}

/// The segments of a text: its lines in order, each but the last ending in a
/// line break.
pub open spec fn segments_of(t: Seq<char>, s: Seq<Segment>) -> bool {
    &&& flatten(s) == t
    &&& forall|k: int| 0 <= k < s.len() ==> #[trigger] well_formed_segment(s[k])
    &&& forall|k: int| 0 <= k < s.len() ==> #[trigger] s[k].line == k + 1
    &&& forall|k: int| 0 <= k < s.len() - 1 ==> #[trigger] s[k].code@.last() == '\n'
}

pub(crate) proof fn lemma_find_char(b: Seq<char>, c: char, i: int)
    requires
        0 <= i <= b.len(),
    ensures
        i <= find_char(b, c, i) <= b.len(),
        find_char(b, c, i) < b.len() ==> b[find_char(b, c, i)] == c,
        forall|k: int| i <= k < find_char(b, c, i) ==> b[k] != c,
    decreases b.len() - i,
{
    if i < b.len() && b[i] != c {
        lemma_find_char(b, c, i + 1);
    }
}

proof fn lemma_skip_spaces(b: Seq<char>, i: int)
    requires
        0 <= i <= b.len(),
    ensures
        i <= skip_spaces(b, i) <= b.len(),
    decreases b.len() - i,
{
    if i < b.len() && b[i] == ' ' {
        lemma_skip_spaces(b, i + 1);
    }
}

/// The first index at or after `from` where `v` holds `c`, or its length.
pub fn find_char_from(v: &Vec<char>, c: char, from: usize) -> (r: usize)
    requires
        from <= v@.len(),
    ensures
        r == find_char(v@, c, from as int),
{
    let mut i: usize = from;
    while i < v.len() && v[i] != c
        invariant
            from <= i <= v@.len(),
            find_char(v@, c, from as int) == find_char(v@, c, i as int),
        decreases v@.len() - i,
    {
        i += 1;
    }
    i
}

/// The first index at or after `from` where `v` holds a non-space, or its
/// length.
pub fn skip_spaces_from(v: &Vec<char>, from: usize) -> (r: usize)
    requires
        from <= v@.len(),
    ensures
        r == skip_spaces(v@, from as int),
{
    let mut i: usize = from;
    while i < v.len() && v[i] == ' '
        invariant
            from <= i <= v@.len(),
            skip_spaces(v@, from as int) == skip_spaces(v@, i as int),
        decreases v@.len() - i,
    {
        i += 1;
    }
    i
}

/// Where the argument of line body `b` starts.
pub fn argument_start(b: &Vec<char>) -> (r: usize)
    ensures
        r == arg_start(b@),
        r <= b@.len(),
{
    let sp = find_char_from(b, ' ', 0);
    proof {
        lemma_find_char(b@, ' ', 0);
    }
    if sp < b.len() {
        proof {
            lemma_skip_spaces(b@, sp + 1);
        }
        skip_spaces_from(b, sp + 1)
    } else {
        sp
    }
}

/// The directive that line body `b` holds.
pub fn parse_command(b: &Vec<char>) -> (r: CommandCall)
    ensures
        r.command@ == command_name(b@),
        r.args is Some <==> command_args(b@) is Some,
        r.args is Some ==> r.args.unwrap()@ == command_args(b@).unwrap(),
{
    let sp = find_char_from(b, ' ', 0);
    proof {
        lemma_find_char(b@, ' ', 0);
    }
    let command = string_of(b, 0, sp);
    let start = argument_start(b);
    let args = if start < b.len() {
        Some(string_of(b, start, b.len()))
    } else {
        None
    };
    CommandCall { command, args }
}

/// The column (from one) where the span of a failed directive on line body
/// `b` starts.
pub fn failure_column(b: &Vec<char>) -> (r: usize)
    ensures
        r == failure_start_column(b@),
{
    let start = argument_start(b);
    if start < b.len() {
        start + 1
    } else {
        1
    }
}

/// Splits `text` into its lines; a line that starts with `:` is a directive.
pub fn segment(text: &str) -> (r: Vec<Segment>)
    ensures
        segments_of(text@, r@),
{
    let v = chars_of(text);
    let n = v.len();
    let mut segs: Vec<Segment> = Vec::new();
    let mut i: usize = 0;
    while i < n
        invariant
            n == v@.len(),
            v@ == text@,
            i <= n,
            flatten(segs@) == text@.subrange(0, i as int),
            forall|k: int| 0 <= k < segs@.len() ==> #[trigger] well_formed_segment(segs@[k]),
            forall|k: int| 0 <= k < segs@.len() ==> #[trigger] segs@[k].line == k + 1,
            forall|k: int|
                0 <= k < segs@.len() ==> #[trigger] segs@[k].code@.last() == '\n' || (k
                    == segs@.len() - 1 && i == n),
            segs@.len() <= i,
        decreases n - i,
    {
        let nl = find_char_from(&v, '\n', i);
        proof {
            lemma_find_char(v@, '\n', i as int);
        }
        let end = if nl < n { nl + 1 } else { n };
        let code = string_of(&v, i, end);
        let body_end = if nl < n { nl } else { n };
        let kind = if v[i] == ':' {
            let body = vec_range(&v, i, body_end);
            proof {
                assert(body@ =~= line_body(code@));
            }
            CodeKind::Command(parse_command(&body))
        } else {
            CodeKind::Code
        };
        let ghost prev = segs@;
        segs.push(Segment { kind, code, line: segs.len() + 1 });
        proof {
            assert(segs@.drop_last() =~= prev);
            assert(text@.subrange(0, end as int) =~= text@.subrange(0, i as int) + code@);
            assert forall|k: int| 0 <= k < segs@.len() implies #[trigger] well_formed_segment(segs@[k]) by {
                if k == segs@.len() - 1 {
                    assert(segs@[k].code@ == code@);
                }
            }
        }
        i = end;
    }
    assert(text@.subrange(0, n as int) =~= text@);
    segs
}

/// The span of a whole segment's line.
pub fn segment_span(seg: &Segment) -> (r: crate::errors::Span)
    ensures
        r.start_line == seg.line,
        r.end_line == seg.line,
        r.start_column == 1,
        r.end_column == seg.code@.len(),
{
    let n = seg.code.unicode_len();
    crate::errors::Span { start_line: seg.line, start_column: 1, end_line: seg.line, end_column: n }
}

/// Whether no line of `t` starts with the directive marker.
pub open spec fn no_directive_marker(t: Seq<char>) -> bool {
    forall|i: int| 0 <= i < t.len() && (i == 0 || t[i - 1] == '\n') ==> #[trigger] t[i] != ':'
}

proof fn lemma_flatten_last(s: Seq<Segment>)
    requires
        s.len() > 0,
        s.last().code@.len() > 0,
    ensures
        flatten(s).len() > 0,
        flatten(s).last() == s.last().code@.last(),
{
}

/// Input in which no line starts with `:` splits into code segments only,
/// and the code they gather is the whole input, unchanged.
#[verifier::spinoff_prover]
#[verifier::rlimit(60)]
pub proof fn lemma_plain_code_forwarded(t: Seq<char>, s: Seq<Segment>)
    requires
        segments_of(t, s),
        no_directive_marker(t),
    ensures
        forall|k: int| 0 <= k < s.len() ==> (#[trigger] s[k]).kind is Code,
        code_of(s) == t,
    decreases s.len(),
{
    if s.len() > 0 {
        let p = s.drop_last();
        let tp = flatten(p);
        assert(t == tp + s.last().code@);
        assert forall|k: int| 0 <= k < p.len() implies #[trigger] well_formed_segment(p[k]) by {
            assert(p[k] == s[k]);
            assert(well_formed_segment(s[k]));
        }
        assert forall|k: int| 0 <= k < p.len() implies #[trigger] p[k].line == k + 1 by {
            assert(p[k] == s[k]);
            assert(s[k].line == k + 1);
        }
        assert forall|k: int| 0 <= k < p.len() - 1 implies #[trigger] p[k].code@.last() == '\n' by {
            assert(p[k] == s[k]);
            assert(s[k].code@.last() == '\n');
        }
        assert forall|i: int| 0 <= i < tp.len() && (i == 0 || tp[i - 1] == '\n') implies #[trigger] tp[i]
            != ':' by {
            assert(t[i] == tp[i]);
            if i > 0 {
                assert(t[i - 1] == tp[i - 1]);
            }
        }
        lemma_plain_code_forwarded(tp, p);
        assert(well_formed_segment(s[s.len() - 1]));
        let st = tp.len() as int;
        if p.len() > 0 {
            assert(well_formed_segment(s[p.len() - 1]));
            assert(s[p.len() - 1].code@.last() == '\n');
            lemma_flatten_last(p);
            assert(t[st - 1] == '\n');
        }
        assert(t[st] == s.last().code@[0]);
        assert(!is_command_line(s.last().code@));
        assert forall|k: int| 0 <= k < s.len() implies (#[trigger] s[k]).kind is Code by {
            if k < p.len() {
                assert(p[k] == s[k]);
            }
        }
    }
}

} // verus!
