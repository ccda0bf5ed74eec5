//! The per-interaction session configuration that directives read and change.
use vstd::prelude::*;
use crate::text::{pairs_map, pairs_view, str_eq};

verus! {

/// Session configuration: optimisation level, formatters, toolchain, linker,
/// switches, and the registered build dependencies.
#[derive(Clone, Debug)]
pub struct ContextState {
    pub opt_level: String,
    pub output_format: String,
    pub error_format: String,
    pub error_format_trait: String,
    pub toolchain: String,
    pub linker: String,
    pub offline_mode: bool,
    pub debug_mode: bool,
    pub sccache: bool,
    /// Whether the sccache wrapper can be used on this machine.
    pub sccache_available: bool,
    pub preserve_vars_on_panic: bool,
    pub time_passes: bool,
    /// Dependencies in the order they were added; a later entry replaces an
    /// earlier one of the same name.
    pub deps: Vec<(String, String)>,
}

/// The trait that values must implement to be shown with the error format `f`.
pub open spec fn error_format_trait_of(f: Seq<char>) -> Option<Seq<char>> {
    if f == "{}"@ {
        Some("std::fmt::Display"@)
    } else if f == "{:?}"@ || f == "{:#?}"@ {
        Some("std::fmt::Debug"@)
    } else {
        None
    }
}

impl ContextState {
    /// The dependencies as a map from crate name to requirement.
    pub open spec fn dep_map(&self) -> Map<Seq<char>, Seq<char>> {
        pairs_map(pairs_view(self.deps@))
    }

    /// The configuration a fresh session starts with.
    pub fn new() -> (r: ContextState)
        ensures
            r.opt_level@ == "2"@,
            r.output_format@ == "{:?}"@,
            r.error_format@ == "{:?}"@,
            r.error_format_trait@ == "std::fmt::Debug"@,
            r.toolchain@ == ""@,
            r.linker@ == "system"@,
            !r.offline_mode && !r.debug_mode && !r.sccache && !r.sccache_available,
            !r.preserve_vars_on_panic && !r.time_passes,
            r.deps@.len() == 0,
    {
        ContextState {
            opt_level: String::from_str("2"),
            output_format: String::from_str("{:?}"),
            error_format: String::from_str("{:?}"),
            error_format_trait: String::from_str("std::fmt::Debug"),
            toolchain: String::from_str(""),
            linker: String::from_str("system"),
            offline_mode: false,
            debug_mode: false,
            sccache: false,
            sccache_available: false,
            preserve_vars_on_panic: false,
            time_passes: false,
            deps: Vec::new(),
        }
    }

    /// Sets the optimisation level; an empty level is refused.
    pub fn set_opt_level(&mut self, level: &str) -> (r: Result<(), String>)
        ensures
            r is Ok <==> level@.len() > 0,
            r is Ok ==> *final(self) == (ContextState { opt_level: final(self).opt_level, ..*old(self) }),
            r is Ok ==> final(self).opt_level@ == level@,
            r is Err ==> *final(self) == *old(self),
    {
        if level.unicode_len() == 0 {
            return Err(String::from_str("Optimization level cannot be empty"));
        }
        self.opt_level = String::from_str(level);
        Ok(())
    }

    /// Sets the error format, which must be one of the known format strings;
    /// the matching trait is recorded beside it.
    pub fn set_error_format(&mut self, format: &str) -> (r: Result<(), String>)
        ensures
            r is Ok <==> error_format_trait_of(format@) is Some,
            r is Ok ==> final(self).error_format@ == format@
                && final(self).error_format_trait@ == error_format_trait_of(format@).unwrap()
                && *final(self) == (ContextState {
                    error_format: final(self).error_format,
                    error_format_trait: final(self).error_format_trait,
                    ..*old(self)
                }),
            r is Err ==> *final(self) == *old(self),
    {
        proof {
            reveal_strlit("{}");
            reveal_strlit("{:?}");
            reveal_strlit("{:#?}");
        }
        let display = str_eq(format, "{}");
        let debug = str_eq(format, "{:?}") || str_eq(format, "{:#?}");
        if display {
            self.error_format = String::from_str(format);
            self.error_format_trait = String::from_str("std::fmt::Display");
            Ok(())
        } else if debug {
            self.error_format = String::from_str(format);
            self.error_format_trait = String::from_str("std::fmt::Debug");
            Ok(())
        } else {
            Err(String::from_str("Unsupported error format string. Available options: {}, {:?}, {:#?}"))
        }
    }

    /// Turns the sccache wrapper on or off; turning it on fails where it
    /// cannot be used.
    pub fn set_sccache(&mut self, enabled: bool) -> (r: Result<(), String>)
        ensures
            r is Ok <==> (!enabled || old(self).sccache_available),
            r is Ok ==> *final(self) == (ContextState { sccache: enabled, ..*old(self) }),
            r is Err ==> *final(self) == *old(self),
    {
        if enabled && !self.sccache_available {
            return Err(String::from_str("Couldn't find sccache. Try running `cargo install sccache`."));
        }
        self.sccache = enabled;
        Ok(())
    }

    /// Registers a dependency, replacing any earlier one of the same name.
    pub fn add_dep(&mut self, name: &str, requirement: &str)
        ensures
            final(self).dep_map() == old(self).dep_map().insert(name@, requirement@),
            *final(self) == (ContextState { deps: final(self).deps, ..*old(self) }),
    {
        self.deps.push((String::from_str(name), String::from_str(requirement)));
        proof {
            let s = pairs_view(self.deps@);
            assert(s.drop_last() =~= pairs_view(old(self).deps@));
        }
    }
}

} // verus!
