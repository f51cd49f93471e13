//! Profiling stage: unconditionally appends the instrumentation-profile and
//! coverage-mapping flags.

use vstd::prelude::*;
use crate::compiler_option::{CompilerOption, OptionManagement, OptionView, spec_plain};
use crate::error::{ErrorView, RewriteError};
use super::OptionVisitor;

verus! {

pub struct ProfileVisitor {}

/// The collection with the two profiling flags appended.
pub open spec fn spec_profile_stage(s: Seq<OptionView>) -> Seq<OptionView> {
    s.push(spec_plain("-fprofile-instr-generate"@)).push(spec_plain("-fcoverage-mapping"@))
}

impl ProfileVisitor {
    pub fn new() -> (r: Self) {
        ProfileVisitor {  }
    }
}

impl OptionVisitor for ProfileVisitor {
    open spec fn ready(&self, s: Seq<OptionView>) -> bool {
        true
    }

    open spec fn outcome(&self, s: Seq<OptionView>) -> Result<Seq<OptionView>, ErrorView> {
        Ok(spec_profile_stage(s))
    }

    fn visit(&mut self, options: &mut Vec<CompilerOption>) -> (r: Result<(), RewriteError>) {
        options.add_option(&CompilerOption::new("-fprofile-instr-generate"));
        options.add_option(&CompilerOption::new("-fcoverage-mapping"));
        Ok(())
    }
}

} // verus!
