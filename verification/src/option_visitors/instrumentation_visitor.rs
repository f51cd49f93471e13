//! Function-instrumentation stage: when enabled by configuration, appends
//! the function-entry/exit instrumentation flag.

use vstd::prelude::*;
use crate::compiler_option::{CompilerOption, OptionManagement, OptionView, spec_plain};
use crate::error::{ErrorView, RewriteError};
use super::OptionVisitor;

verus! {

pub struct InstrumentationVisitor {
    pub enabled: bool,
}

/// The collection with the instrumentation flag appended when enabled.
pub open spec fn spec_instrumentation_stage(enabled: bool, s: Seq<OptionView>) -> Seq<OptionView> {
    if enabled {
        s.push(spec_plain("-finstrument-functions"@))
    } else {
        s
    }
}

impl InstrumentationVisitor {
    /// `enabled` comes from the configuration's function-instrumentation
    /// switch.
    pub fn new(enabled: bool) -> (r: Self)
        ensures
            r.enabled == enabled,
    {
        InstrumentationVisitor { enabled }
    }
}

impl OptionVisitor for InstrumentationVisitor {
    open spec fn ready(&self, s: Seq<OptionView>) -> bool {
        true
    }

    open spec fn outcome(&self, s: Seq<OptionView>) -> Result<Seq<OptionView>, ErrorView> {
        Ok(spec_instrumentation_stage(self.enabled, s))
    }

    fn visit(&mut self, options: &mut Vec<CompilerOption>) -> (r: Result<(), RewriteError>) {
        if !self.enabled {
            return Ok(());
        }
        options.add_option(&CompilerOption::new("-finstrument-functions"));
        Ok(())
    }
}

} // verus!
