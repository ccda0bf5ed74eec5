//! An engine that compiles nothing: it commits the state it is handed and
//! records each piece of code it receives. Sessions over it exercise the
//! dispatcher on its own.
use vstd::prelude::*;
use crate::state::ContextState;
use crate::outputs::EvalOutputs;
use crate::errors::{CompilationError, Error};
use crate::context::{CommandContext, Completions, EvalEngine};
use crate::text::str_eq;

verus! {

/// A recording engine. `evaluated` holds each code buffer handed to `eval`
/// with the state it came with; `next_errors`, where set, is what the next
/// `eval` fails with.
pub struct TestEngine {
    pub committed: ContextState,
    pub variables: Vec<(String, String)>,
    pub items: Vec<String>,
    pub evaluated: Vec<(String, ContextState)>,
    pub init_file: Option<String>,
    pub prelude_file: Option<String>,
    pub next_errors: Option<Vec<CompilationError>>,
    pub clears: usize,
    pub time: u64,
}

impl TestEngine {
    /// An engine with the default configuration and nothing recorded.
    pub fn new() -> (r: TestEngine)
        ensures
            r.evaluated@.len() == 0,
            r.next_errors is None,
            r.init_file is None,
            r.prelude_file is None,
    {
        TestEngine {
            committed: ContextState::new(),
            variables: Vec::new(),
            items: Vec::new(),
            evaluated: Vec::new(),
            init_file: None,
            prelude_file: None,
            next_errors: None,
            clears: 0,
            time: 0,
        }
    }
}

impl EvalEngine for TestEngine {
    fn state(&self) -> ContextState {
        self.committed.clone()
    }

    fn cleared_state(&self) -> ContextState {
        ContextState::new()
    }

    fn clear(&mut self) -> Result<(), Error> {
        self.variables = Vec::new();
        self.committed = ContextState::new();
        if self.clears < usize::MAX {
            self.clears = self.clears + 1;
        }
        Ok(())
    }

    fn eval(&mut self, code: String, state: ContextState) -> Result<EvalOutputs, Error> {
        match &self.next_errors {
            Some(errs) => {
                let e = errs.clone();
                self.next_errors = None;
                return Err(Error::CompilationErrors(e));
            },
            None => {},
        }
        self.evaluated.push((code, state.clone()));
        self.committed = state;
        Ok(EvalOutputs::new())
    }

    fn check(&mut self, code: String, state: ContextState) -> Result<Vec<CompilationError>, Error> {
        Ok(Vec::new())
    }

    fn completions(&mut self, code: String, state: ContextState, position: usize) -> Result<
        Completions,
        Error,
    > {
        Ok(Completions { completions: Vec::new(), start_offset: position, end_offset: position })
    }

    fn variables_and_types(&self) -> Vec<(String, String)> {
        self.variables.clone()
    }

    fn defined_item_names(&self) -> Vec<String> {
        self.items.clone()
    }

    fn last_compile_dir(&self) -> Option<String> {
        None
    }

    fn last_source(&self) -> Result<String, Error> {
        Err(Error::Message(String::from_str("nothing has been compiled")))
    }

    fn set_opt_level(&mut self, level: &str) -> Result<(), Error> {
        match self.committed.set_opt_level(level) {
            Ok(()) => Ok(()),
            Err(m) => Err(Error::Message(m)),
        }
    }

    fn reset_config(&mut self) {
        let deps = self.committed.deps.clone();
        self.committed = ContextState::new();
        self.committed.deps = deps;
    }

    fn write_cargo_toml(&mut self, state: &ContextState) -> Result<(), Error> {
        Ok(())
    }

    fn config_file(&self, name: &str) -> Result<Option<String>, Error> {
        if str_eq(name, "init") {
            Ok(self.init_file.clone())
        } else if str_eq(name, "prelude") {
            Ok(self.prelude_file.clone())
        } else {
            Ok(None)
        }
    }

    fn clock_millis(&self) -> u64 {
        self.time
    }
}

impl CommandContext<TestEngine> {
    /// A session over a `TestEngine`.
    pub fn new_for_testing() -> (r: CommandContext<TestEngine>)
        ensures
            !r.print_timings,
            r.last_errors@.len() == 0,
            r.eval_context.evaluated@.len() == 0,
    {
        CommandContext::with_eval_context(TestEngine::new())
    }
}

} // verus!
