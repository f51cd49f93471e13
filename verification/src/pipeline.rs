//! The pipeline driver: applies the rewrite stages in their fixed,
//! order-significant sequence, drops disabled records between stages, and
//! reports the first fatal condition to the caller. Configuration is
//! collected once into an immutable settings structure instead of ambient
//! environment reads scattered across stages.

use vstd::prelude::*;
use crate::compiler_option::{CompilerOption, OptionManagement, OptionView, opt_matches,
    spec_values_wf};
use crate::error::{ErrorView, RewriteError};
use crate::object::ResolvedObject;
use crate::option_manager::{CompilerOptionManager, spec_cleanup, lemma_cleanup_preserves_wf};
use crate::option_visitors::{AdditionalObjectsVisitor, AdditionalPassesVisitor, CMDFuzzVisitor,
    DefaultOptimizationVisitor, DefaultParametersVisitor, InstrumentationVisitor,
    LibfuzzerVisitor, OptionVisitor, ProfileVisitor, RuntimeVisitor, SanitizerVisitor,
    TTRFuzzVisitor, XVisitor};
use crate::option_visitors::additional_objects_visitor::spec_add_objects;
use crate::option_visitors::additional_passes_visitor::spec_add_passes;
use crate::option_visitors::default_optimization_visitor::{spec_optimization_stage,
    lemma_optimization_preserves_wf};
use crate::option_visitors::default_parameters_visitor::{spec_default_parameters,
    lemma_default_parameters_preserves_wf};
use crate::option_visitors::instrumentation_visitor::spec_instrumentation_stage;
use crate::option_visitors::libfuzzer_visitor::spec_libfuzzer_stage;
use crate::option_visitors::pass_visitor::{spec_cmdfuzz_stage, spec_ttrfuzz_stage};
use crate::option_visitors::profile_visitor::spec_profile_stage;
use crate::option_visitors::runtime_visitor::spec_runtime_stage;
use crate::option_visitors::sanitizer_visitor::{spec_sanitizer_stage,
    lemma_sanitizer_preserves_wf};
use crate::option_visitors::x_visitor::{spec_x_stage, lemma_x_preserves_wf};
use crate::text;
use crate::toolchain::ToolchainInfo;

verus! {

/// The configuration switches, read once at process start.
pub struct PipelineSettings {
    /// Replace fuzzing-driver meta-tokens with the resolved driver object.
    pub add_driver: bool,
    /// Attach the fuzzing runtime object on linking invocations.
    pub add_runtime: bool,
    /// Append the profiling flags.
    pub profiling: bool,
    /// Append the function-entry/exit instrumentation flag.
    pub instrumentation: bool,
    /// Inject the argument-fuzzing pass and its companion runtime.
    pub cmdfuzz: bool,
    /// Inject the time-to-reach pass.
    pub ttrfuzz: bool,
    /// Inject the configured additional passes.
    pub additional_passes: bool,
    /// Merge the configured additional objects.
    pub additional_objects: bool,
    /// Optimization-level override, already parsed and range-checked.
    pub opt_level: Option<u8>,
    /// Disable all sanitizers.
    pub nosanitizer: bool,
    pub enable_asan: bool,
    pub enable_msan: bool,
    pub enable_ubsan: bool,
    pub enable_cov: bool,
}

/// Every object the enabled stages may need, resolved up front.
pub struct PipelineObjects {
    pub driver: ResolvedObject,
    pub libcxx_driver: ResolvedObject,
    pub runtime: ResolvedObject,
    pub cmdfuzz_pass: ResolvedObject,
    pub cmdfuzz_runtime: ResolvedObject,
    pub ttr_pass: ResolvedObject,
    pub additional_passes: Vec<ResolvedObject>,
    pub additional_objects: Vec<String>,
}

/// The sanitizer stage the settings select.
pub open spec fn spec_sanitizer_of(settings: PipelineSettings) -> SanitizerVisitor {
    SanitizerVisitor {
        use_asan: false,
        use_msan: false,
        use_ubsan: false,
        use_cov: false,
        env_nosan: settings.nosanitizer,
        env_asan: settings.enable_asan,
        env_msan: settings.enable_msan,
        env_ubsan: settings.enable_ubsan,
        env_cov: settings.enable_cov,
    }
}

/// One optional stage applied to an intermediate outcome, with cleanup
/// after it when it ran.
pub open spec fn spec_step(
    r: Result<Seq<OptionView>, ErrorView>,
    enabled: bool,
    out: Result<Seq<OptionView>, ErrorView>,
) -> Result<Seq<OptionView>, ErrorView> {
    match r {
        Err(e) => Err(e),
        Ok(s) => {
            if enabled {
                match out {
                    Err(e) => Err(e),
                    Ok(t) => Ok(spec_cleanup(t)),
                }
            } else {
                Ok(s)
            }
        },
    }
}

/// The driver-substitution step of the pipeline.
pub open spec fn spec_step_driver(
    settings: PipelineSettings,
    objects: PipelineObjects,
    r: Result<Seq<OptionView>, ErrorView>,
) -> Result<Seq<OptionView>, ErrorView> {
    match r {
        Err(e) => Err(e),
        Ok(s) => spec_step(
            r,
            settings.add_driver,
            spec_libfuzzer_stage(
                LibfuzzerVisitor { driver: objects.driver, libcxx_driver: objects.libcxx_driver },
                s,
            ),
        ),
    }
}

/// The runtime-linkage step of the pipeline.
pub open spec fn spec_step_runtime(
    settings: PipelineSettings,
    objects: PipelineObjects,
    r: Result<Seq<OptionView>, ErrorView>,
) -> Result<Seq<OptionView>, ErrorView> {
    match r {
        Err(e) => Err(e),
        Ok(s) => spec_step(
            r,
            settings.add_runtime,
            spec_runtime_stage(RuntimeVisitor { runtime: objects.runtime }, s),
        ),
    }
}

/// The profiling step of the pipeline.
pub open spec fn spec_step_profile(
    settings: PipelineSettings,
    r: Result<Seq<OptionView>, ErrorView>,
) -> Result<Seq<OptionView>, ErrorView> {
    match r {
        Err(e) => Err(e),
        Ok(s) => spec_step(r, settings.profiling, Ok(spec_profile_stage(s))),
    }
}

/// The function-instrumentation step of the pipeline.
pub open spec fn spec_step_instrumentation(
    settings: PipelineSettings,
    r: Result<Seq<OptionView>, ErrorView>,
) -> Result<Seq<OptionView>, ErrorView> {
    match r {
        Err(e) => Err(e),
        Ok(s) => spec_step(r, settings.instrumentation, Ok(spec_instrumentation_stage(true, s))),
    }
}

/// The argument-fuzzing step of the pipeline.
pub open spec fn spec_step_cmdfuzz(
    settings: PipelineSettings,
    version: u32,
    objects: PipelineObjects,
    r: Result<Seq<OptionView>, ErrorView>,
) -> Result<Seq<OptionView>, ErrorView> {
    match r {
        Err(e) => Err(e),
        Ok(s) => spec_step(
            r,
            settings.cmdfuzz,
            spec_cmdfuzz_stage(
                CMDFuzzVisitor {
                    pass_manager: crate::option_visitors::LLVMPassManager { llvm_version: version },
                    enabled: true,
                    pass: objects.cmdfuzz_pass,
                    runtime: objects.cmdfuzz_runtime,
                },
                s,
            ),
        ),
    }
}

/// The time-to-reach step of the pipeline.
pub open spec fn spec_step_ttrfuzz(
    settings: PipelineSettings,
    version: u32,
    objects: PipelineObjects,
    r: Result<Seq<OptionView>, ErrorView>,
) -> Result<Seq<OptionView>, ErrorView> {
    match r {
        Err(e) => Err(e),
        Ok(s) => spec_step(
            r,
            settings.ttrfuzz,
            spec_ttrfuzz_stage(
                TTRFuzzVisitor {
                    pass_manager: crate::option_visitors::LLVMPassManager { llvm_version: version },
                    enabled: true,
                    pass: objects.ttr_pass,
                },
                s,
            ),
        ),
    }
}

/// The additional-passes step of the pipeline.
pub open spec fn spec_step_passes(
    settings: PipelineSettings,
    version: u32,
    objects: PipelineObjects,
    r: Result<Seq<OptionView>, ErrorView>,
) -> Result<Seq<OptionView>, ErrorView> {
    match r {
        Err(e) => Err(e),
        Ok(s) => spec_step(
            r,
            settings.additional_passes,
            spec_add_passes(version, objects.additional_passes@, s),
        ),
    }
}

/// The additional-objects step of the pipeline.
pub open spec fn spec_step_objects(
    settings: PipelineSettings,
    objects: PipelineObjects,
    r: Result<Seq<OptionView>, ErrorView>,
) -> Result<Seq<OptionView>, ErrorView> {
    match r {
        Err(e) => Err(e),
        Ok(s) => spec_step(
            r,
            settings.additional_objects,
            Ok(spec_add_objects(s, objects.additional_objects.deep_view())),
        ),
    }
}

/// The whole pipeline: the four mandatory stages, then the optional stages
/// in their fixed order, with cleanup after every stage that ran.
pub open spec fn spec_run_pipeline(
    settings: PipelineSettings,
    libdir: Seq<char>,
    version: u32,
    objects: PipelineObjects,
    s: Seq<OptionView>,
) -> Result<Seq<OptionView>, ErrorView> {
    let s1 = spec_cleanup(spec_default_parameters(libdir, s));
    let s2 = spec_cleanup(spec_optimization_stage(settings.opt_level, s1));
    let s3 = spec_cleanup(spec_sanitizer_stage(spec_sanitizer_of(settings), s2));
    let s4 = spec_cleanup(spec_x_stage(s3));
    let r = spec_step_driver(settings, objects, Ok(s4));
    let r = spec_step_runtime(settings, objects, r);
    let r = spec_step_profile(settings, r);
    let r = spec_step_instrumentation(settings, r);
    let r = spec_step_cmdfuzz(settings, version, objects, r);
    let r = spec_step_ttrfuzz(settings, version, objects, r);
    let r = spec_step_passes(settings, version, objects, r);
    spec_step_objects(settings, objects, r)
}

/// Whether value removal is defined on every enabled `-fsanitize` record of
/// the parsed invocation. The unverified caller tests this before running
/// the pipeline and aborts on a violation, which is a programming error
/// rather than a runtime-recoverable condition.
pub fn fsanitize_records_wf(options: &Vec<CompilerOption>) -> (r: bool)
    ensures
        r == spec_values_wf(options.deep_view(), "-fsanitize"@),
{
    let ghost s = options.deep_view();
    let mut i: usize = 0;
    while i < options.len()
        invariant
            i <= s.len(),
            s == options.deep_view(),
            forall|j: int| 0 <= j < i && opt_matches(s[j], "-fsanitize"@) ==> s[j].has_value,
        decreases s.len() - i,
    {
        proof {
            assert(options.deep_view()[i as int] == options@[i as int]@);
        }
        if options[i].is_enabled && text::string_eq(&options[i].name, "-fsanitize")
            && !options[i].has_value {
            proof {
                assert(opt_matches(s[i as int], "-fsanitize"@) && !s[i as int].has_value);
            }
            return false;
        }
        i = i + 1;
    }
    true
}

/// Applies the whole pipeline to the parsed invocation.
#[verifier::rlimit(100)]
#[verifier::spinoff_prover]
pub fn run_pipeline(
    manager: &mut CompilerOptionManager,
    settings: &PipelineSettings,
    toolchain: &ToolchainInfo,
    objects: &PipelineObjects,
) -> (r: Result<(), RewriteError>)
    requires
        spec_values_wf(old(manager).options.deep_view(), "-fsanitize"@),
    ensures
        match r {
            Ok(()) => spec_run_pipeline(
                *settings,
                toolchain.libdir@,
                toolchain.major_version,
                *objects,
                old(manager).options.deep_view(),
            ) == Ok::<Seq<OptionView>, ErrorView>(final(manager).options.deep_view()),
            Err(e) => spec_run_pipeline(
                *settings,
                toolchain.libdir@,
                toolchain.major_version,
                *objects,
                old(manager).options.deep_view(),
            ) == Err::<Seq<OptionView>, ErrorView>(e@),
        },
{
    let ghost s0 = old(manager).options.deep_view();
    let ghost libdir = toolchain.libdir@;
    let ghost version = toolchain.major_version;

    let mut v_params = DefaultParametersVisitor::new(toolchain.libdir.as_str());
    let r = v_params.visit(&mut manager.options);
    proof {
        lemma_default_parameters_preserves_wf(libdir, s0);
    }
    if let Err(e) = r {
        return Err(e);
    }
    manager.cleanup();
    let ghost s1 = manager.options.deep_view();
    proof {
        lemma_cleanup_preserves_wf(spec_default_parameters(libdir, s0), "-fsanitize"@);
    }

    let mut v_opt = DefaultOptimizationVisitor::with_env_level(settings.opt_level);
    let r = v_opt.visit(&mut manager.options);
    proof {
        lemma_optimization_preserves_wf(settings.opt_level, s1);
    }
    if let Err(e) = r {
        return Err(e);
    }
    manager.cleanup();
    let ghost s2 = manager.options.deep_view();
    proof {
        lemma_cleanup_preserves_wf(spec_optimization_stage(settings.opt_level, s1), "-fsanitize"@);
    }

    let mut v_san = SanitizerVisitor::with_env(
        settings.nosanitizer,
        settings.enable_asan,
        settings.enable_msan,
        settings.enable_ubsan,
        settings.enable_cov,
    );
    let r = v_san.visit(&mut manager.options);
    proof {
        lemma_sanitizer_preserves_wf(spec_sanitizer_of(*settings), s2);
    }
    if let Err(e) = r {
        return Err(e);
    }
    manager.cleanup();
    let ghost s3 = manager.options.deep_view();
    proof {
        lemma_cleanup_preserves_wf(
            spec_sanitizer_stage(spec_sanitizer_of(*settings), s2),
            "-fsanitize"@,
        );
    }

    let mut v_x = XVisitor::new();
    let r = v_x.visit(&mut manager.options);
    proof {
        lemma_x_preserves_wf(s3);
    }
    if let Err(e) = r {
        return Err(e);
    }
    manager.cleanup();
    let ghost s4 = manager.options.deep_view();
    proof {
        lemma_cleanup_preserves_wf(spec_x_stage(s3), "-fsanitize"@);
    }

    let ghost r4: Result<Seq<OptionView>, ErrorView> = Ok(s4);
    let ghost r5 = spec_step_driver(*settings, *objects, r4);
    if settings.add_driver {
        let mut v = LibfuzzerVisitor::new(objects.driver.clone(), objects.libcxx_driver.clone());
        if let Err(e) = v.visit(&mut manager.options) {
            return Err(e);
        }
        manager.cleanup();
    }
    proof {
        assert(r5 matches Ok(t) && t == manager.options.deep_view());
    }

    let ghost r6 = spec_step_runtime(*settings, *objects, r5);
    if settings.add_runtime {
        let mut v = RuntimeVisitor::new(objects.runtime.clone());
        if let Err(e) = v.visit(&mut manager.options) {
            return Err(e);
        }
        manager.cleanup();
    }
    proof {
        assert(r6 matches Ok(t) && t == manager.options.deep_view());
    }

    let ghost r7 = spec_step_profile(*settings, r6);
    if settings.profiling {
        let mut v = ProfileVisitor::new();
        if let Err(e) = v.visit(&mut manager.options) {
            return Err(e);
        }
        manager.cleanup();
    }
    proof {
        assert(r7 matches Ok(t) && t == manager.options.deep_view());
    }

    let ghost r8 = spec_step_instrumentation(*settings, r7);
    if settings.instrumentation {
        let mut v = InstrumentationVisitor::new(true);
        if let Err(e) = v.visit(&mut manager.options) {
            return Err(e);
        }
        manager.cleanup();
    }
    proof {
        assert(r8 matches Ok(t) && t == manager.options.deep_view());
    }

    let ghost r9 = spec_step_cmdfuzz(*settings, version, *objects, r8);
    if settings.cmdfuzz {
        let mut v = CMDFuzzVisitor::new(
            toolchain.major_version,
            true,
            objects.cmdfuzz_pass.clone(),
            objects.cmdfuzz_runtime.clone(),
        );
        if let Err(e) = v.visit(&mut manager.options) {
            return Err(e);
        }
        manager.cleanup();
    }
    proof {
        assert(r9 matches Ok(t) && t == manager.options.deep_view());
    }

    let ghost r10 = spec_step_ttrfuzz(*settings, version, *objects, r9);
    if settings.ttrfuzz {
        let mut v = TTRFuzzVisitor::new(toolchain.major_version, true, objects.ttr_pass.clone());
        if let Err(e) = v.visit(&mut manager.options) {
            return Err(e);
        }
        manager.cleanup();
    }
    proof {
        assert(r10 matches Ok(t) && t == manager.options.deep_view());
    }

    let ghost r11 = spec_step_passes(*settings, version, *objects, r10);
    if settings.additional_passes {
        let mut passes: Vec<ResolvedObject> = Vec::new();
        let mut k: usize = 0;
        while k < objects.additional_passes.len()
            invariant
                k <= objects.additional_passes@.len(),
                passes@ =~= objects.additional_passes@.take(k as int),
            decreases objects.additional_passes@.len() - k,
        {
            passes.push(objects.additional_passes[k].clone());
            proof {
                assert(passes@ =~= objects.additional_passes@.take(k as int + 1));
            }
            k = k + 1;
        }
        proof {
            assert(objects.additional_passes@.take(objects.additional_passes@.len() as int)
                =~= objects.additional_passes@);
        }
        let mut v = AdditionalPassesVisitor::new(toolchain.major_version, passes);
        if let Err(e) = v.visit(&mut manager.options) {
            return Err(e);
        }
        manager.cleanup();
    }
    proof {
        assert(r11 matches Ok(t) && t == manager.options.deep_view());
    }

    let ghost r12 = spec_step_objects(*settings, *objects, r11);
    if settings.additional_objects {
        let mut objs: Vec<String> = Vec::new();
        let mut k: usize = 0;
        while k < objects.additional_objects.len()
            invariant
                k <= objects.additional_objects@.len(),
                objs@ =~= objects.additional_objects@.take(k as int),
            decreases objects.additional_objects@.len() - k,
        {
            objs.push(objects.additional_objects[k].clone());
            proof {
                assert(objs@ =~= objects.additional_objects@.take(k as int + 1));
            }
            k = k + 1;
        }
        proof {
            assert(objects.additional_objects@.take(objects.additional_objects@.len() as int)
                =~= objects.additional_objects@);
        }
        let mut v = AdditionalObjectsVisitor::new(objs);
        if let Err(e) = v.visit(&mut manager.options) {
            return Err(e);
        }
        manager.cleanup();
    }
    proof {
        assert(r12 matches Ok(t) && t == manager.options.deep_view());
    }

    Ok(())
}

} // verus!
