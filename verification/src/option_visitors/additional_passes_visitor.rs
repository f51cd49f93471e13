//! Additional-passes stage: injects a configured list of extra pass
//! objects, each through the version-dependent pass-loading mechanism.

use vstd::prelude::*;
use crate::compiler_option::{CompilerOption, OptionView};
use crate::error::{ErrorView, RewriteError};
use crate::object::ResolvedObject;
use super::OptionVisitor;
use super::pass_visitor::{LLVMPassManager, spec_add_llvm_pass};

verus! {

pub struct AdditionalPassesVisitor {
    pub llvm_version: u32,
    /// The configured passes, as the resolver located them.
    pub passes: Vec<ResolvedObject>,
}

/// Each configured pass injected in turn; the first fatal condition aborts.
pub open spec fn spec_add_passes(
    version: u32,
    passes: Seq<ResolvedObject>,
    s: Seq<OptionView>,
) -> Result<Seq<OptionView>, ErrorView>
    decreases passes.len(),
{
    if passes.len() == 0 {
        Ok(s)
    } else {
        match spec_add_llvm_pass(version, passes[0], s) {
            Err(e) => Err(e),
            Ok(s1) => spec_add_passes(version, passes.drop_first(), s1),
        }
    }
}

impl AdditionalPassesVisitor {
    /// The configured pass list, already split and resolved.
    pub fn new(llvm_version: u32, passes: Vec<ResolvedObject>) -> (r: Self)
        ensures
            r.llvm_version == llvm_version,
            r.passes == passes,
    {
        AdditionalPassesVisitor { llvm_version, passes }
    }
}

impl OptionVisitor for AdditionalPassesVisitor {
    open spec fn ready(&self, s: Seq<OptionView>) -> bool {
        true
    }

    open spec fn outcome(&self, s: Seq<OptionView>) -> Result<Seq<OptionView>, ErrorView> {
        spec_add_passes(self.llvm_version, self.passes@, s)
    }

    fn visit(&mut self, options: &mut Vec<CompilerOption>) -> (r: Result<(), RewriteError>) {
        let pass_manager = LLVMPassManager::new(self.llvm_version);
        let ghost ps = self.passes@;
        let ghost target = spec_add_passes(self.llvm_version, ps, options.deep_view());
        let mut j: usize = 0;
        proof {
            assert(ps.skip(0) =~= ps);
        }
        while j < self.passes.len()
            invariant
                j <= ps.len(),
                ps == self.passes@,
                pass_manager.llvm_version == self.llvm_version,
                target == spec_add_passes(
                    self.llvm_version,
                    ps.skip(j as int),
                    options.deep_view(),
                ),
            decreases ps.len() - j,
        {
            proof {
                assert(ps.skip(j as int).drop_first() =~= ps.skip(j as int + 1));
                assert(ps.skip(j as int)[0] == ps[j as int]);
            }
            match pass_manager.add_llvm_pass(options, &self.passes[j]) {
                Err(e) => {
                    return Err(e);
                },
                Ok(()) => {},
            }
            j = j + 1;
        }
        proof {
            assert(ps.skip(ps.len() as int) =~= Seq::<ResolvedObject>::empty());
        }
        Ok(())
    }
}

} // verus!
