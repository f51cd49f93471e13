//! Pass injection: loads a compiler instrumentation pass compiled as a
//! shared pass object, with a version-dependent flag shape, because the host
//! compiler's pass-loading mechanism changed across major releases.

use vstd::prelude::*;
use crate::compiler_option::{CompilerOption, OptionManagement, OptionView, spec_add_or_modify,
    spec_mode_skip, spec_plain, spec_valued};
use crate::error::{ErrorView, RewriteError};
use crate::object::ResolvedObject;
use super::OptionVisitor;

verus! {

/// Injects passes with the flag shape the toolchain's major version needs.
pub struct LLVMPassManager {
    pub llvm_version: u32,
}

/// One pass injected:
/// versions 1-10 use the legacy four-token `-Xclang -load -Xclang <path>`
/// sequence, whose adjacency must be preserved; versions 11-15 append the
/// experimental-pass-manager flag and replace-or-insert `-fpass-plugin=`;
/// versions 16-18 replace-or-insert `-fpass-plugin=` alone. Any other
/// version, and a pass the resolver could not locate, is fatal.
pub open spec fn spec_add_llvm_pass(version: u32, pass: ResolvedObject, s: Seq<OptionView>) -> Result<
    Seq<OptionView>,
    ErrorView,
> {
    match pass.path {
        None => Err(ErrorView::ObjectNotFound(pass.name@)),
        Some(p) => {
            if 1 <= version <= 10 {
                Ok(
                    s.push(spec_plain("-Xclang"@)).push(spec_plain("-load"@)).push(
                        spec_plain("-Xclang"@),
                    ).push(spec_plain(p@)),
                )
            } else if 11 <= version <= 15 {
                Ok(
                    spec_add_or_modify(
                        s.push(spec_plain("-fexperimental-new-pass-manager"@)),
                        spec_valued("-fpass-plugin"@, seq![p@]),
                    ),
                )
            } else if 16 <= version <= 18 {
                Ok(spec_add_or_modify(s, spec_valued("-fpass-plugin"@, seq![p@])))
            } else {
                Err(ErrorView::UnsupportedVersion(version))
            }
        },
    }
}

impl LLVMPassManager {
    /// The discovered toolchain major version.
    pub fn new(llvm_version: u32) -> (r: Self)
        ensures
            r.llvm_version == llvm_version,
    {
        LLVMPassManager { llvm_version }
    }

    /// Injects one resolved pass object.
    pub fn add_llvm_pass(&self, options: &mut Vec<CompilerOption>, pass: &ResolvedObject) -> (r:
        Result<(), RewriteError>)
        ensures
            match r {
                Ok(()) => spec_add_llvm_pass(self.llvm_version, *pass, old(options).deep_view())
                    == Ok::<Seq<OptionView>, ErrorView>(final(options).deep_view()),
                Err(e) => spec_add_llvm_pass(self.llvm_version, *pass, old(options).deep_view())
                    == Err::<Seq<OptionView>, ErrorView>(e@),
            },
    {
        match &pass.path {
            None => Err(RewriteError::ObjectNotFound(pass.name.clone())),
            Some(p) => {
                if 1 <= self.llvm_version && self.llvm_version <= 10 {
                    options.add_option(&CompilerOption::new("-Xclang"));
                    options.add_option(&CompilerOption::new("-load"));
                    options.add_option(&CompilerOption::new("-Xclang"));
                    options.add_option(&CompilerOption::new(p.as_str()));
                    Ok(())
                } else if 11 <= self.llvm_version && self.llvm_version <= 15 {
                    options.add_option(&CompilerOption::new("-fexperimental-new-pass-manager"));
                    let plugin = CompilerOption::new_with_value("-fpass-plugin", vec![p.as_str()]);
                    proof {
                        assert(plugin@.values =~~= seq![p@]);
                        assert(plugin@ =~~= spec_valued("-fpass-plugin"@, seq![p@]));
                    }
                    options.add_or_modify(&plugin);
                    Ok(())
                } else if 16 <= self.llvm_version && self.llvm_version <= 18 {
                    let plugin = CompilerOption::new_with_value("-fpass-plugin", vec![p.as_str()]);
                    proof {
                        assert(plugin@.values =~~= seq![p@]);
                        assert(plugin@ =~~= spec_valued("-fpass-plugin"@, seq![p@]));
                    }
                    options.add_or_modify(&plugin);
                    Ok(())
                } else {
                    Err(RewriteError::UnsupportedVersion(self.llvm_version))
                }
            },
        }
    }
}

/// Command/argument-fuzzing pass stage: injects the pass and, off
/// compile-only, preprocess-only and checking invocations, attaches its
/// companion runtime object.
pub struct CMDFuzzVisitor {
    pub pass_manager: LLVMPassManager,
    pub enabled: bool,
    /// The resolved argument-fuzzing pass object.
    pub pass: ResolvedObject,
    /// The resolved companion runtime object.
    pub runtime: ResolvedObject,
}

pub open spec fn spec_cmdfuzz_stage(v: CMDFuzzVisitor, s: Seq<OptionView>) -> Result<
    Seq<OptionView>,
    ErrorView,
> {
    if !v.enabled {
        Ok(s)
    } else {
        match spec_add_llvm_pass(v.pass_manager.llvm_version, v.pass, s) {
            Err(e) => Err(e),
            Ok(s1) => {
                if spec_mode_skip(s1) {
                    Ok(s1)
                } else {
                    match v.runtime.path {
                        Some(p) => Ok(spec_add_or_modify(s1, spec_plain(p@))),
                        None => Err(ErrorView::ObjectNotFound(v.runtime.name@)),
                    }
                }
            },
        }
    }
}

impl CMDFuzzVisitor {
    pub fn new(llvm_version: u32, enabled: bool, pass: ResolvedObject, runtime: ResolvedObject) -> (r:
        Self)
        ensures
            r.pass_manager.llvm_version == llvm_version,
            r.enabled == enabled,
            r.pass == pass,
            r.runtime == runtime,
    {
        CMDFuzzVisitor { pass_manager: LLVMPassManager::new(llvm_version), enabled, pass, runtime }
    }
}

impl OptionVisitor for CMDFuzzVisitor {
    open spec fn ready(&self, s: Seq<OptionView>) -> bool {
        true
    }

    open spec fn outcome(&self, s: Seq<OptionView>) -> Result<Seq<OptionView>, ErrorView> {
        spec_cmdfuzz_stage(*self, s)
    }

    fn visit(&mut self, options: &mut Vec<CompilerOption>) -> (r: Result<(), RewriteError>) {
        if !self.enabled {
            return Ok(());
        }
        match self.pass_manager.add_llvm_pass(options, &self.pass) {
            Err(e) => Err(e),
            Ok(()) => {
                if options.is_compiling() || options.is_preprocessor() || options.is_checking() {
                    return Ok(());
                }
                match &self.runtime.path {
                    Some(p) => {
                        options.add_or_modify(&CompilerOption::new(p.as_str()));
                        Ok(())
                    },
                    None => Err(RewriteError::ObjectNotFound(self.runtime.name.clone())),
                }
            },
        }
    }
}

/// Time-to-reach pass stage: injects the pass alone.
pub struct TTRFuzzVisitor {
    pub pass_manager: LLVMPassManager,
    pub enabled: bool,
    /// The resolved time-to-reach pass object.
    pub pass: ResolvedObject,
}

pub open spec fn spec_ttrfuzz_stage(v: TTRFuzzVisitor, s: Seq<OptionView>) -> Result<
    Seq<OptionView>,
    ErrorView,
> {
    if !v.enabled {
        Ok(s)
    } else {
        spec_add_llvm_pass(v.pass_manager.llvm_version, v.pass, s)
    }
}

impl TTRFuzzVisitor {
    pub fn new(llvm_version: u32, enabled: bool, pass: ResolvedObject) -> (r: Self)
        ensures
            r.pass_manager.llvm_version == llvm_version,
            r.enabled == enabled,
            r.pass == pass,
    {
        TTRFuzzVisitor { pass_manager: LLVMPassManager::new(llvm_version), enabled, pass }
    }
}

impl OptionVisitor for TTRFuzzVisitor {
    open spec fn ready(&self, s: Seq<OptionView>) -> bool {
        true
    }

    open spec fn outcome(&self, s: Seq<OptionView>) -> Result<Seq<OptionView>, ErrorView> {
        spec_ttrfuzz_stage(*self, s)
    }

    fn visit(&mut self, options: &mut Vec<CompilerOption>) -> (r: Result<(), RewriteError>) {
        if !self.enabled {
            return Ok(());
        }
        self.pass_manager.add_llvm_pass(options, &self.pass)
    }
}

} // verus!
