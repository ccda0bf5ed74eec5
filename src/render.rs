//! Plain-text and HTML renderings of variables, and the texts that
//! `:explain` and `:last_error_json` report.
use vstd::prelude::*;
use crate::text::{push_char, pairs_view};
use crate::outputs::{html_escape, escaped};
use crate::errors::CompilationError;

verus! {

/// The view of an optional string.
pub open spec fn opt_view(a: Option<String>) -> Option<Seq<char>> {
    match a {
        Some(s) => Some(s@),
        None => None,
    }
}

/// The explanations of `errs`, concatenated, where each has one.
pub open spec fn explanations(errs: Seq<CompilationError>) -> Option<Seq<char>>
    decreases errs.len(),
{
    if errs.len() == 0 {
        Some(Seq::empty())
    } else {
        match (explanations(errs.drop_last()), errs.last().explanation) {
            (Some(a), Some(e)) => Some(a + e@),
            _ => None,
        }
    }
}

/// The payloads of `errs`, each followed by a line break.
pub open spec fn payloads(errs: Seq<CompilationError>) -> Seq<char>
    decreases errs.len(),
{
    if errs.len() == 0 {
        Seq::empty()
    } else {
        payloads(errs.drop_last()) + errs.last().json@.push('\n')
    }
}

/// Variables as plain text: `name: type` per line.
pub open spec fn vars_text(vars: Seq<(Seq<char>, Seq<char>)>) -> Seq<char>
    decreases vars.len(),
{
    if vars.len() == 0 {
        Seq::empty()
    } else {
        vars_text(vars.drop_last()) + vars.last().0 + ": "@ + vars.last().1 + "\n"@
    }
}

/// Table rows of variables, names and types escaped.
pub open spec fn vars_rows(vars: Seq<(Seq<char>, Seq<char>)>) -> Seq<char>
    decreases vars.len(),
{
    if vars.len() == 0 {
        Seq::empty()
    } else {
        vars_rows(vars.drop_last()) + "<tr><td>"@ + escaped(vars.last().0) + "</td><td>"@
            + escaped(vars.last().1) + "</td><tr>"@
    }
}

/// Variables as an HTML table.
pub open spec fn vars_html(vars: Seq<(Seq<char>, Seq<char>)>) -> Seq<char> {
    "<table><tr><th>Variable</th><th>Type</th></tr>"@ + vars_rows(vars) + "</table>"@
}

/// Renders variables and types as plain text.
pub fn vars_as_text(vars: &Vec<(String, String)>) -> (r: String)
    ensures
        r@ == vars_text(pairs_view(vars@)),
{
    let mut out = String::new();
    let mut i: usize = 0;
    while i < vars.len()
        invariant
            i <= vars@.len(),
            out@ == vars_text(pairs_view(vars@.subrange(0, i as int))),
        decreases vars@.len() - i,
    {
        out.append(vars[i].0.as_str());
        out.append(": ");
        out.append(vars[i].1.as_str());
        out.append("\n");
        proof {
            assert(pairs_view(vars@.subrange(0, i + 1)).drop_last() =~= pairs_view(
                vars@.subrange(0, i as int),
            ));
        }
        i += 1;
    }
    assert(vars@.subrange(0, vars@.len() as int) =~= vars@);
    out
}

/// Renders variables and types as an HTML table.
pub fn vars_as_html(vars: &Vec<(String, String)>) -> (r: String)
    ensures
        r@ == vars_html(pairs_view(vars@)),
{
    let mut out = String::new();
    out.append("<table><tr><th>Variable</th><th>Type</th></tr>");
    let mut i: usize = 0;
    while i < vars.len()
        invariant
            i <= vars@.len(),
            out@ == "<table><tr><th>Variable</th><th>Type</th></tr>"@ + vars_rows(
                pairs_view(vars@.subrange(0, i as int)),
            ),
        decreases vars@.len() - i,
    {
        let ghost before = out@;
        out.append("<tr><td>");
        html_escape(vars[i].0.as_str(), &mut out);
        out.append("</td><td>");
        html_escape(vars[i].1.as_str(), &mut out);
        out.append("</td><tr>");
        proof {
            assert(pairs_view(vars@.subrange(0, i + 1)).drop_last() =~= pairs_view(
                vars@.subrange(0, i as int),
            ));
            assert(out@ =~= "<table><tr><th>Variable</th><th>Type</th></tr>"@ + vars_rows(
                pairs_view(vars@.subrange(0, i + 1)),
            ));
        }
        i += 1;
    }
    out.append("</table>");
    assert(vars@.subrange(0, vars@.len() as int) =~= vars@);
    out
}

/// The explanations of `errs` concatenated, or `None` where one lacks it.
pub fn collect_explanations(errs: &Vec<CompilationError>) -> (r: Option<String>)
    ensures
        opt_view(r) == explanations(errs@),
{
    let mut out = String::new();
    let mut i: usize = 0;
    while i < errs.len()
        invariant
            i <= errs@.len(),
            explanations(errs@.subrange(0, i as int)) == Some(out@),
        decreases errs@.len() - i,
    {
        assert(errs@.subrange(0, i + 1).drop_last() =~= errs@.subrange(0, i as int));
        match &errs[i].explanation {
            Some(e) => out.append(e.as_str()),
            None => {
                proof {
                    lemma_explanations_none(errs@, i as int + 1);
                }
                return None;
            },
        }
        i += 1;
    }
    assert(errs@.subrange(0, errs@.len() as int) =~= errs@);
    Some(out)
}

proof fn lemma_explanations_none(errs: Seq<CompilationError>, i: int)
    requires
        0 <= i <= errs.len(),
        explanations(errs.subrange(0, i)) is None,
    ensures
        explanations(errs) is None,
    decreases errs.len() - i,
{
    if i < errs.len() {
        assert(errs.subrange(0, i + 1).drop_last() =~= errs.subrange(0, i));
        lemma_explanations_none(errs, i + 1);
    } else {
        assert(errs.subrange(0, i) =~= errs);
    }
}

/// The payloads of `errs`, each followed by a line break.
pub fn collect_payloads(errs: &Vec<CompilationError>) -> (r: String)
    ensures
        r@ == payloads(errs@),
{
    let mut out = String::new();
    let mut i: usize = 0;
    while i < errs.len()
        invariant
            i <= errs@.len(),
            out@ == payloads(errs@.subrange(0, i as int)),
        decreases errs@.len() - i,
    {
        assert(errs@.subrange(0, i + 1).drop_last() =~= errs@.subrange(0, i as int));
        out.append(errs[i].json.as_str());
        push_char(&mut out, '\n');
        i += 1;
    }
    assert(errs@.subrange(0, errs@.len() as int) =~= errs@);
    out
}

} // verus!
