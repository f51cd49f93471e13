//! Language-override cleanup: when any `-x <lang>` flag is present, a
//! trailing `-x none` pair resets the override for later positional
//! arguments.

use vstd::prelude::*;
use crate::compiler_option::{CompilerOption, OptionManagement, OptionView, spec_from_arg,
    spec_has_enabled};
use crate::error::{ErrorView, RewriteError};
use super::OptionVisitor;

verus! {

pub struct XVisitor {}

/// The collection with the trailing `-x none` pair appended when an `-x`
/// flag is enabled.
pub open spec fn spec_x_stage(s: Seq<OptionView>) -> Seq<OptionView> {
    if spec_has_enabled(s, "-x"@) {
        s.push(spec_from_arg("-x"@)).push(spec_from_arg("none"@))
    } else {
        s
    }
}

/// The cleanup pair never adds an ill-formed `-fsanitize` record.
pub proof fn lemma_x_preserves_wf(s: Seq<OptionView>)
    requires
        crate::compiler_option::spec_values_wf(s, "-fsanitize"@),
    ensures
        crate::compiler_option::spec_values_wf(spec_x_stage(s), "-fsanitize"@),
{
    reveal_strlit("-x");
    reveal_strlit("none");
    reveal_strlit("-fsanitize");
    assert("-x"@.len() == 2);
    assert("none"@.len() == 4);
    assert("-fsanitize"@.len() == 10);
    crate::compiler_option::lemma_from_arg_wf("-x"@, "-fsanitize"@);
    crate::compiler_option::lemma_from_arg_wf("none"@, "-fsanitize"@);
}

impl XVisitor {
    pub fn new() -> (r: Self) {
        XVisitor {  }
    }
}

impl OptionVisitor for XVisitor {
    open spec fn ready(&self, s: Seq<OptionView>) -> bool {
        true
    }

    open spec fn outcome(&self, s: Seq<OptionView>) -> Result<Seq<OptionView>, ErrorView> {
        Ok(spec_x_stage(s))
    }

    fn visit(&mut self, options: &mut Vec<CompilerOption>) -> (r: Result<(), RewriteError>) {
        if options.has_enabled("-x") {
            options.add_option(&CompilerOption::from_arg("-x"));
            options.add_option(&CompilerOption::from_arg("none"));
        }
        Ok(())
    }
}

} // verus!
