//! Runtime linkage stage: attaches the fuzzing runtime object at link time
//! only, together with the system libraries it needs, using dedup-merge
//! semantics so repeated invocation never duplicates `-l` flags.

use vstd::prelude::*;
use crate::compiler_option::{CompilerOption, OptionManagement, OptionView, spec_add_or_mix,
    spec_add_or_modify, spec_mode_skip, spec_plain};
use crate::error::{ErrorView, RewriteError};
use crate::object::ResolvedObject;
use super::OptionVisitor;

verus! {

pub struct RuntimeVisitor {
    /// The resolved fuzzing runtime object.
    pub runtime: ResolvedObject,
}

/// The whole runtime-linkage stage: skipped for compile-only,
/// preprocess-only and checking invocations; a runtime the resolver could
/// not locate is fatal.
pub open spec fn spec_runtime_stage(v: RuntimeVisitor, s: Seq<OptionView>) -> Result<
    Seq<OptionView>,
    ErrorView,
> {
    if spec_mode_skip(s) {
        Ok(s)
    } else {
        match v.runtime.path {
            Some(p) => {
                let s1 = spec_add_or_modify(s, spec_plain(p@));
                let s2 = spec_add_or_mix(s1, spec_plain("-lpthread"@));
                let s3 = spec_add_or_mix(s2, spec_plain("-ldl"@));
                Ok(spec_add_or_mix(s3, spec_plain("-lgcc"@)))
            },
            None => Err(ErrorView::ObjectNotFound(v.runtime.name@)),
        }
    }
}

/// Mode classification gates linkage: on an invocation that is
/// compile-only, preprocess-only or checking (every token flag-shaped), the
/// runtime-linkage stage leaves the collection unchanged.
pub proof fn lemma_runtime_skips_checking(v: RuntimeVisitor, s: Seq<OptionView>)
    requires
        spec_mode_skip(s),
    ensures
        spec_runtime_stage(v, s) == Ok::<Seq<OptionView>, ErrorView>(s),
{
}

impl RuntimeVisitor {
    /// The runtime object, as the resolver located it.
    pub fn new(runtime: ResolvedObject) -> (r: Self)
        ensures
            r.runtime == runtime,
    {
        RuntimeVisitor { runtime }
    }
}

impl OptionVisitor for RuntimeVisitor {
    open spec fn ready(&self, s: Seq<OptionView>) -> bool {
        true
    }

    open spec fn outcome(&self, s: Seq<OptionView>) -> Result<Seq<OptionView>, ErrorView> {
        spec_runtime_stage(*self, s)
    }

    fn visit(&mut self, options: &mut Vec<CompilerOption>) -> (r: Result<(), RewriteError>) {
        if options.is_compiling() || options.is_preprocessor() || options.is_checking() {
            return Ok(());
        }
        match &self.runtime.path {
            Some(p) => {
                options.add_or_modify(&CompilerOption::new(p.as_str()));
                options.add_or_mix(&CompilerOption::new("-lpthread"));
                options.add_or_mix(&CompilerOption::new("-ldl"));
                options.add_or_mix(&CompilerOption::new("-lgcc"));
                Ok(())
            },
            None => Err(RewriteError::ObjectNotFound(self.runtime.name.clone())),
        }
    }
}

} // verus!
