use evcxr::commands::{commands_with_prefix, help_html, help_text, parse_dep};
use evcxr::context::{command_completions, config_interactions, error_text, CommandContext};
use evcxr::render::{vars_as_html, vars_as_text};
use evcxr::errors::{CompilationError, Error, Span};
use evcxr::outputs::{html_escape, text_output, EvalOutputs};
use evcxr::segment::{segment, CodeKind};
use evcxr::state::ContextState;

fn plain(o: &EvalOutputs) -> String {
    o.get("text/plain").unwrap_or_default()
}

fn diagnostic(message: &str, explanation: Option<&str>, json: &str) -> CompilationError {
    CompilationError {
        message: message.to_string(),
        span: Span { start_line: 1, start_column: 1, end_line: 1, end_column: 2 },
        json: json.to_string(),
        explanation: explanation.map(|e| e.to_string()),
    }
}

#[test]
fn code_without_directives_is_forwarded_unchanged() {
    let mut ctx = CommandContext::new_for_testing();
    let input = "let x = 1;\nlet y = x + 1;\ny\n";
    let out = ctx.execute(input).unwrap();
    assert!(out.get("text/plain").is_none());
    assert_eq!(ctx.eval_context.evaluated.len(), 1);
    assert_eq!(ctx.eval_context.evaluated[0].0, input);
}

#[test]
fn directives_are_removed_from_the_code_buffer() {
    let mut ctx = CommandContext::new_for_testing();
    ctx.execute("let a = 1;\n:opt 1\nlet b = 2;\n").unwrap();
    assert_eq!(ctx.eval_context.evaluated[0].0, "let a = 1;\nlet b = 2;\n");
    assert_eq!(ctx.eval_context.evaluated[0].1.opt_level, "1");
}

#[test]
fn unknown_directive_is_reported_on_its_token() {
    let mut ctx = CommandContext::new_for_testing();
    match ctx.execute(":nosuch") {
        Err(Error::CompilationErrors(v)) => {
            assert_eq!(v.len(), 1);
            assert!(v[0].message.contains("Unrecognised"));
            assert!(v[0].message.contains(":nosuch"));
            assert_eq!(v[0].span, Span { start_line: 1, start_column: 1, end_line: 1, end_column: 8 });
        }
        _ => panic!("expected a diagnostic"),
    }
    assert!(ctx.eval_context.evaluated.is_empty());
}

#[test]
fn opt_toggles_between_zero_and_two() {
    let mut ctx = CommandContext::new_for_testing();
    assert_eq!(ctx.eval_context.committed.opt_level, "2");
    let first = ctx.execute(":opt").unwrap();
    assert_eq!(plain(&first), "Optimization: 0\n");
    assert_eq!(ctx.eval_context.committed.opt_level, "0");
    let second = ctx.execute(":opt").unwrap();
    assert_eq!(plain(&second), "Optimization: 2\n");
    assert_eq!(ctx.eval_context.committed.opt_level, "2");
    let explicit = ctx.execute(":opt 1").unwrap();
    assert_eq!(plain(&explicit), "Optimization: 1\n");
}

#[test]
fn dep_arguments_parse() {
    assert_eq!(
        parse_dep("foo = \"1.0\""),
        Some(("foo".to_string(), "\"1.0\"".to_string()))
    );
    assert_eq!(parse_dep("foo"), Some(("foo".to_string(), "\"*\"".to_string())));
    assert_eq!(parse_dep("foo   "), Some(("foo".to_string(), "\"*\"".to_string())));
    assert_eq!(
        parse_dep("regex={ version = \"1\" }"),
        Some(("regex".to_string(), "{ version = \"1\" }".to_string()))
    );
    assert_eq!(parse_dep("foo bar"), None);
    assert_eq!(parse_dep("= 1"), None);
    assert_eq!(parse_dep("foo ="), None);
}

#[test]
fn dep_directive_registers_and_reports_failures() {
    let mut ctx = CommandContext::new_for_testing();
    ctx.execute(":dep foo = \"1.0\"").unwrap();
    assert_eq!(
        ctx.eval_context.committed.deps,
        vec![("foo".to_string(), "\"1.0\"".to_string())]
    );
    match ctx.execute(":dep") {
        Err(Error::CompilationErrors(v)) => {
            assert_eq!(v[0].message, ":dep requires arguments");
            assert_eq!(v[0].span, Span { start_line: 1, start_column: 1, end_line: 1, end_column: 4 });
        }
        _ => panic!("expected a diagnostic"),
    }
    match ctx.execute(":dep  a b") {
        Err(Error::CompilationErrors(v)) => {
            assert!(v[0].message.starts_with("Invalid :dep command"));
            assert_eq!(v[0].span, Span { start_line: 1, start_column: 7, end_line: 1, end_column: 9 });
        }
        _ => panic!("expected a diagnostic"),
    }
}

#[test]
fn quit_in_analysis_is_a_no_op() {
    let mut ctx = CommandContext::new_for_testing();
    assert!(ctx.check(":quit").unwrap().is_empty());
    let c = ctx.completions(":quit\nle", 7).unwrap();
    assert!(c.completions.is_empty());
    assert!(matches!(ctx.execute(":quit"), Err(Error::Quit)));
}

#[test]
fn explain_without_errors_fails() {
    let mut ctx = CommandContext::new_for_testing();
    match ctx.execute(":explain") {
        Err(Error::CompilationErrors(v)) => {
            assert_eq!(v.len(), 1);
            assert_eq!(v[0].message, "No last error to explain");
        }
        _ => panic!("expected a diagnostic"),
    }
}

#[test]
fn explain_reports_retained_errors() {
    let mut ctx = CommandContext::new_for_testing();
    ctx.eval_context.next_errors = Some(vec![diagnostic("bad", Some("why it is bad"), "{}")]);
    assert!(matches!(ctx.execute("x"), Err(Error::CompilationErrors(_))));
    ctx.execute("y").unwrap();
    let out = ctx.execute(":explain").unwrap();
    assert_eq!(plain(&out), "why it is bad\n");
    match ctx.execute(":last_error_json") {
        Err(Error::CompilationErrors(v)) => assert_eq!(v[0].message, "{}\n"),
        _ => panic!("expected a diagnostic"),
    }
    ctx.eval_context.next_errors = Some(vec![diagnostic("worse", None, "[]")]);
    assert!(ctx.execute("z").is_err());
    match ctx.execute(":explain") {
        Err(Error::CompilationErrors(v)) => {
            assert_eq!(v[0].message, "Sorry, last error has no explanation")
        }
        _ => panic!("expected a diagnostic"),
    }
}

#[test]
fn load_config_without_files_is_empty() {
    let mut ctx = CommandContext::new_for_testing();
    let out = ctx.execute(":load_config").unwrap();
    assert!(out.get("text/plain").is_none());
}

#[test]
fn load_config_replays_init_before_prelude() {
    let mut ctx = CommandContext::new_for_testing();
    ctx.eval_context.init_file = Some(":dep foo = \"1\"\n:opt 0\n".to_string());
    ctx.eval_context.prelude_file = Some("use foo;\n".to_string());
    ctx.execute(":load_config").unwrap();
    let log = &ctx.eval_context.evaluated;
    let prelude = log.iter().position(|(code, _)| code == "use foo;\n").unwrap();
    assert_eq!(prelude, 2);
    assert_eq!(log[prelude].1.deps, vec![("foo".to_string(), "\"1\"".to_string())]);
    assert_eq!(log[prelude].1.opt_level, "0");
    assert_eq!(ctx.eval_context.committed.opt_level, "0");
}

#[test]
fn load_config_stops_at_first_failure() {
    let mut ctx = CommandContext::new_for_testing();
    ctx.eval_context.init_file = Some(":nosuch\n".to_string());
    ctx.eval_context.prelude_file = Some("use foo;\n".to_string());
    assert!(ctx.execute(":load_config").is_err());
    assert!(ctx.eval_context.evaluated.iter().all(|(code, _)| code != "use foo;\n"));
    assert!(ctx.check(":load_config").unwrap().is_empty());
}

#[test]
fn help_lists_every_directive_once_in_order() {
    let text = help_text();
    let html = help_html();
    let names: Vec<&str> = text.lines().map(|l| l.split(' ').next().unwrap()).collect();
    let mut sorted = names.clone();
    sorted.sort();
    sorted.dedup();
    assert_eq!(names, sorted);
    assert_eq!(names.len(), 21);
    let rows: Vec<&str> = html
        .lines()
        .filter(|l| l.starts_with("<tr><td>"))
        .map(|l| &l[8..l.find("</td>").unwrap()])
        .collect();
    assert_eq!(names, rows);
    assert!(text.starts_with(":clear            Clear all state, keeping compilation cache\n"));
    assert!(html.starts_with("<table>\n<tr><td>:clear</td>"));
    assert!(html.ends_with("</table>\n"));
    let mut ctx = CommandContext::new_for_testing();
    let out = ctx.execute(":help").unwrap();
    assert_eq!(plain(&out), text);
    assert_eq!(out.get("text/html").unwrap(), html);
}

#[test]
fn toggles_report_their_values() {
    let mut ctx = CommandContext::new_for_testing();
    assert_eq!(plain(&ctx.execute(":offline 1").unwrap()), "Offline mode: true\n");
    assert_eq!(plain(&ctx.execute(":offline").unwrap()), "Offline mode: false\n");
    assert_eq!(plain(&ctx.execute(":internal_debug").unwrap()), "Internals debugging: true\n");
    assert_eq!(plain(&ctx.execute(":time_passes").unwrap()), "Time passes: true\n");
    assert_eq!(
        plain(&ctx.execute(":preserve_vars_on_panic 1").unwrap()),
        "Preserve vars on panic: true\n"
    );
    assert_eq!(plain(&ctx.execute(":sccache 0").unwrap()), "sccache: false\n");
    assert!(ctx.execute(":sccache").is_err());
    assert_eq!(plain(&ctx.execute(":timing").unwrap()), "Timing: true\n");
    assert!(ctx.print_timings);
    assert_eq!(ctx.execute("1").unwrap().timing, Some(0));
}

#[test]
fn setting_directives_report_their_values() {
    let mut ctx = CommandContext::new_for_testing();
    assert_eq!(plain(&ctx.execute(":fmt {:#?}").unwrap()), "Output format: {:#?}\n");
    assert_eq!(plain(&ctx.execute(":fmt").unwrap()), "Output format: {:?}\n");
    assert_eq!(
        plain(&ctx.execute(":efmt {}").unwrap()),
        "Error format: {} (errors must implement std::fmt::Display)\n"
    );
    match ctx.execute(":efmt {x}") {
        Err(Error::CompilationErrors(v)) => {
            assert!(v[0].message.starts_with("Unsupported error format"));
            assert_eq!(v[0].span, Span { start_line: 1, start_column: 7, end_line: 1, end_column: 9 });
        }
        _ => panic!("expected a diagnostic"),
    }
    assert_eq!(plain(&ctx.execute(":toolchain nightly").unwrap()), "Toolchain: nightly\n");
    assert_eq!(plain(&ctx.execute(":toolchain").unwrap()), "Toolchain: nightly\n");
    assert_eq!(plain(&ctx.execute(":linker").unwrap()), "linker: system\n");
    assert_eq!(plain(&ctx.execute(":linker lld").unwrap()), "linker: lld\n");
    assert!(!plain(&ctx.execute(":version").unwrap()).is_empty());
}

#[test]
fn clear_resets_in_real_mode_only() {
    let mut ctx = CommandContext::new_for_testing();
    ctx.eval_context.variables = vec![("x".to_string(), "i32".to_string())];
    assert!(ctx.check(":clear").unwrap().is_empty());
    assert_eq!(ctx.eval_context.clears, 0);
    ctx.execute(":clear").unwrap();
    assert_eq!(ctx.eval_context.clears, 1);
    assert!(ctx.variables_and_types().is_empty());
}

#[test]
fn analysis_collects_every_directive_error() {
    let mut ctx = CommandContext::new_for_testing();
    let errors = ctx.check(":dep\nlet x = 1;\n:nosuch\n").unwrap();
    assert_eq!(errors.len(), 2);
    assert_eq!(errors[0].message, ":dep requires arguments");
    assert_eq!(errors[1].span.start_line, 3);
    assert!(ctx.eval_context.evaluated.is_empty());
}

#[test]
fn vars_render_as_text_and_html() {
    let vars = vec![("v".to_string(), "Vec<i32>".to_string())];
    assert_eq!(vars_as_text(&vars), "v: Vec<i32>\n");
    assert_eq!(
        vars_as_html(&vars),
        "<table><tr><th>Variable</th><th>Type</th></tr><tr><td>v</td><td>Vec&lt;i32&gt;</td><tr></table>"
    );
    let mut ctx = CommandContext::new_for_testing();
    ctx.eval_context.variables = vars;
    let out = ctx.execute(":vars").unwrap();
    assert_eq!(plain(&out), "v: Vec<i32>\n");
}

#[test]
fn outputs_merge_last_write_wins() {
    let mut a = text_output("one".to_string());
    let b = EvalOutputs::text_html("two".to_string(), "<b>".to_string());
    a.merge(b);
    assert_eq!(a.get("text/plain").unwrap(), "two");
    assert_eq!(a.get("text/html").unwrap(), "<b>");
    let mut out = String::from("x");
    html_escape("<a>&", &mut out);
    assert_eq!(out, "x&lt;a&gt;&");
}

#[test]
fn completions_of_directive_names() {
    let c = command_completions(":ti", 3, 10);
    let names: Vec<&str> = c.completions.iter().map(|c| c.code.as_str()).collect();
    assert_eq!(names, vec![":time_passes", ":timing"]);
    assert_eq!((c.start_offset, c.end_offset), (7, 10));
    assert_eq!(commands_with_prefix(":last").len(), 2);
    let mut ctx = CommandContext::new_for_testing();
    let c = ctx.completions("let x = 1;\n:ve", 14).unwrap();
    let names: Vec<&str> = c.completions.iter().map(|c| c.code.as_str()).collect();
    assert_eq!(names, vec![":version"]);
}

#[test]
fn segments_split_lines() {
    let segs = segment("a\n:opt  2 \nb");
    assert_eq!(segs.len(), 3);
    assert!(matches!(segs[0].kind, CodeKind::Code));
    match &segs[1].kind {
        CodeKind::Command(call) => {
            assert_eq!(call.command, ":opt");
            assert_eq!(call.args.as_deref(), Some("2 "));
        }
        _ => panic!("expected a directive"),
    }
    assert_eq!(segs[2].code, "b");
    assert_eq!(segs[2].line, 3);
}

#[test]
fn state_setters_validate() {
    let mut s = ContextState::new();
    assert!(s.set_opt_level("").is_err());
    assert_eq!(s.opt_level, "2");
    assert!(s.set_error_format("{:#?}").is_ok());
    assert_eq!(s.error_format_trait, "std::fmt::Debug");
    assert!(s.set_sccache(true).is_err());
    s.add_dep("a", "1");
    s.add_dep("a", "2");
    assert_eq!(s.deps.last().unwrap().1, "2");
}

#[test]
fn config_interactions_put_prelude_last() {
    assert!(config_interactions(&None, &None).is_empty());
    let r = config_interactions(&Some(":dep foo\r\n:opt 0\n".to_string()), &Some("use foo;".to_string()));
    assert_eq!(r, vec![":dep foo".to_string(), ":opt 0".to_string(), "use foo;".to_string()]);
    let r = config_interactions(&None, &Some("p".to_string()));
    assert_eq!(r, vec!["p".to_string()]);
}

#[test]
fn engine_messages_pass_through() {
    let mut ctx = CommandContext::new_for_testing();
    assert!(matches!(ctx.last_source(), Err(Error::Message(_))));
    assert!(ctx.set_opt_level("").is_err());
    ctx.set_opt_level("1").unwrap();
    assert_eq!(ctx.eval_context.committed.opt_level, "1");
    ctx.reset_config();
    assert_eq!(ctx.eval_context.committed.opt_level, "2");
    assert!(ctx.defined_item_names().is_empty());
}

#[test]
fn directive_pass_gathers_code_state_and_outputs() {
    let mut ctx = CommandContext::new_for_testing();
    let (code, state, outputs) = ctx
        .run_directives("a\n:opt\nb\n:toolchain nightly\n", ContextState::new(), 4)
        .unwrap();
    assert_eq!(code, "a\nb\n");
    assert_eq!(state.opt_level, "0");
    assert_eq!(state.toolchain, "nightly");
    assert_eq!(plain(&outputs), "Toolchain: nightly\n");
    assert!(ctx.eval_context.evaluated.is_empty());
    match ctx.run_directives(":opt 1\n:dep\n:opt 2\n", ContextState::new(), 4) {
        Err(Error::CompilationErrors(v)) => {
            assert_eq!(v.len(), 1);
            assert_eq!(v[0].span.start_line, 2);
        }
        _ => panic!("expected a diagnostic"),
    }
}

#[test]
fn finishing_merges_engine_outputs_after_directives() {
    let mut ctx = CommandContext::new_for_testing();
    let directives = text_output("from directive".to_string());
    let engine = EvalOutputs::text_html("from engine".to_string(), "<i>".to_string());
    let out = ctx.finish_interaction(directives, Ok(engine), 7).unwrap();
    assert_eq!(plain(&out), "from engine");
    assert_eq!(out.get("text/html").unwrap(), "<i>");
    assert_eq!(out.timing, None);
    ctx.print_timings = true;
    let out = ctx.finish_interaction(EvalOutputs::new(), Ok(EvalOutputs::new()), 7).unwrap();
    assert_eq!(out.timing, Some(7));
    let errs = vec![diagnostic("e", None, "j")];
    assert!(matches!(
        ctx.finish_interaction(EvalOutputs::new(), Err(Error::CompilationErrors(errs)), 0),
        Err(Error::CompilationErrors(_))
    ));
    assert_eq!(ctx.last_errors.len(), 1);
    assert!(matches!(
        ctx.finish_interaction(EvalOutputs::new(), Err(Error::Message("m".to_string())), 0),
        Err(Error::Message(_))
    ));
    assert_eq!(ctx.last_errors.len(), 1);
}

#[test]
fn replay_runs_in_order_and_stops_at_failure() {
    let mut ctx = CommandContext::new_for_testing();
    let out = ctx.replay(&vec![], 3).unwrap();
    assert!(out.get("text/plain").is_none());
    let out = ctx
        .replay(&vec![":opt".to_string(), ":opt".to_string(), "x".to_string()], 3)
        .unwrap();
    assert_eq!(plain(&out), "Optimization: 2\n");
    assert_eq!(ctx.eval_context.evaluated.len(), 3);
    assert!(ctx
        .replay(&vec![":nosuch".to_string(), "never".to_string()], 3)
        .is_err());
    assert!(ctx.eval_context.evaluated.iter().all(|(c, _)| c != "never"));
}

#[test]
fn timing_toggles_in_analysis_too() {
    let mut ctx = CommandContext::new_for_testing();
    assert!(ctx.check(":timing").unwrap().is_empty());
    assert!(ctx.print_timings);
}

#[test]
fn error_text_and_compile_dir() {

    let e = Error::CompilationErrors(vec![diagnostic("a", None, ""), diagnostic("b", None, "")]);
    assert_eq!(error_text(&e), "a\nb");
    assert_eq!(error_text(&Error::Quit), "quit requested");
    let mut ctx = CommandContext::new_for_testing();
    assert_eq!(plain(&ctx.execute(":last_compile_dir").unwrap()), "None\n");
}
