//! The rewrite stages ("visitors"). Each stage is one independent policy
//! applied in sequence to the full flag collection by the pipeline driver.

use vstd::prelude::*;
use crate::compiler_option::{CompilerOption, OptionView};
use crate::error::{ErrorView, RewriteError};

pub mod additional_objects_visitor;
pub mod additional_passes_visitor;
pub mod asan_visitor;
pub mod default_optimization_visitor;
pub mod default_parameters_visitor;
pub mod instrumentation_visitor;
pub mod libfuzzer_visitor;
pub mod pass_visitor;
pub mod profile_visitor;
pub mod runtime_visitor;
pub mod sanitizer_visitor;
pub mod x_visitor;

pub use additional_objects_visitor::AdditionalObjectsVisitor;
pub use additional_passes_visitor::AdditionalPassesVisitor;
pub use asan_visitor::AsanVisitor;
pub use default_optimization_visitor::DefaultOptimizationVisitor;
pub use default_parameters_visitor::DefaultParametersVisitor;
pub use instrumentation_visitor::InstrumentationVisitor;
pub use libfuzzer_visitor::LibfuzzerVisitor;
pub use pass_visitor::{CMDFuzzVisitor, LLVMPassManager, TTRFuzzVisitor};
pub use profile_visitor::ProfileVisitor;
pub use runtime_visitor::RuntimeVisitor;
pub use sanitizer_visitor::SanitizerVisitor;
pub use x_visitor::XVisitor;

verus! {

/// One rewrite stage. `outcome` is the stage's whole effect as a function of
/// the collection, so a stage is deterministic by construction; `ready`
/// names the collections the stage is defined on.
pub trait OptionVisitor {
    /// The collections this stage may be applied to.
    spec fn ready(&self, s: Seq<OptionView>) -> bool;

    /// The rewritten collection, or the fatal condition the stage ends in.
    spec fn outcome(&self, s: Seq<OptionView>) -> Result<Seq<OptionView>, ErrorView>;

    /// Applies the stage to the collection.
    fn visit(&mut self, options: &mut Vec<CompilerOption>) -> (r: Result<(), RewriteError>)
        requires
            old(self).ready(old(options).deep_view()),
        ensures
            match r {
                Ok(()) => old(self).outcome(old(options).deep_view()) == Ok::<
                    Seq<OptionView>,
                    ErrorView,
                >(final(options).deep_view()),
                Err(e) => old(self).outcome(old(options).deep_view()) == Err::<
                    Seq<OptionView>,
                    ErrorView,
                >(e@),
            },
    ;
}

} // verus!
