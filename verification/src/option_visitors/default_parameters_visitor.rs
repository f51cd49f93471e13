//! Baseline parameters stage: makes the invocation link-safe and debuggable
//! regardless of caller intent. Strict-linking flags are disabled because
//! later stages intentionally introduce symbols the target does not define
//! at compile time.

use vstd::prelude::*;
use vstd::string::StringExecFns;
use crate::compiler_option::{CompilerOption, OptionManagement, OptionView, spec_add_or_modify,
    spec_disable_matches, spec_disabled, spec_from_arg, spec_plain};
use crate::error::{ErrorView, RewriteError};
use crate::text;
use super::OptionVisitor;

verus! {

pub struct DefaultParametersVisitor {
    /// The discovered toolchain library directory.
    pub libdir: String,
}

pub open spec fn is_z_name(n: Seq<char>) -> bool {
    n == "-z"@ || n == "-Wl,-z"@
}

pub open spec fn is_defs_name(n: Seq<char>) -> bool {
    n == "defs"@ || n == "-Wl,defs"@
}

/// The left-to-right scan that disables adjacent `-z defs` spellings: a
/// loader-flag record followed by a `defs` record has both disabled, and the
/// scan resumes after the pair.
pub open spec fn spec_zdefs_scan(s: Seq<OptionView>, i: int) -> Seq<OptionView>
    decreases s.len() - i,
{
    if i < 0 || i + 1 >= s.len() {
        s
    } else if is_z_name(s[i].name) && is_defs_name(s[i + 1].name) {
        spec_zdefs_scan(
            s.update(i, spec_disabled(s[i])).update(i + 1, spec_disabled(s[i + 1])),
            i + 2,
        )
    } else {
        spec_zdefs_scan(s, i + 1)
    }
}

/// Every record that carries this value disabled.
pub open spec fn spec_disable_value_holders(s: Seq<OptionView>, lib: Seq<char>) -> Seq<OptionView> {
    Seq::new(
        s.len(),
        |i: int|
            if s[i].values.contains(lib) {
                spec_disabled(s[i])
            } else {
                s[i]
            },
    )
}

/// Strict-linking flags, two-token `-z defs` spellings, and stale runtime
/// libraries all disabled.
pub open spec fn spec_disable_unfriendly(s: Seq<OptionView>) -> Seq<OptionView> {
    let s1 = spec_disable_matches(s, "-Wl,-z,defs"@);
    let s2 = spec_disable_matches(s1, "-Wl,--no-undefined"@);
    let s3 = spec_disable_matches(s2, "-Wl,-no-undefined"@);
    let s4 = spec_disable_matches(s3, "--no-undefined"@);
    let s5 = spec_zdefs_scan(s4, 0);
    spec_disable_value_holders(spec_disable_value_holders(s5, "bf-rt.o"@), "bf-llvm_mode.o"@)
}

/// A runtime-library-path flag appended when the library directory lies
/// outside the default search paths.
pub open spec fn spec_add_llvm_lib(s: Seq<OptionView>, libdir: Seq<char>) -> Seq<OptionView> {
    if !(text::spec_starts_with(libdir, "/usr"@) || text::spec_starts_with(libdir, "/lib"@)) {
        s.push(spec_from_arg("-Wl,-rpath="@ + libdir))
    } else {
        s
    }
}

/// The whole baseline stage.
pub open spec fn spec_default_parameters(libdir: Seq<char>, s: Seq<OptionView>) -> Seq<OptionView> {
    let s1 = spec_disable_unfriendly(s);
    let s2 = spec_add_or_modify(s1, spec_plain("-Wno-unused-command-line-argument"@));
    let s3 = spec_add_llvm_lib(s2, libdir);
    let s4 = spec_add_or_modify(s3, spec_plain("-g"@));
    spec_add_or_modify(s4, spec_plain("-fPIC"@))
}

proof fn lemma_zdefs_preserves_wf(s: Seq<OptionView>, i: int, name: Seq<char>)
    requires
        crate::compiler_option::spec_values_wf(s, name),
    ensures
        crate::compiler_option::spec_values_wf(spec_zdefs_scan(s, i), name),
    decreases s.len() - i,
{
    if i < 0 || i + 1 >= s.len() {
    } else if is_z_name(s[i].name) && is_defs_name(s[i + 1].name) {
        let u = s.update(i, spec_disabled(s[i])).update(i + 1, spec_disabled(s[i + 1]));
        assert(crate::compiler_option::spec_values_wf(u, name));
        lemma_zdefs_preserves_wf(u, i + 2, name);
    } else {
        lemma_zdefs_preserves_wf(s, i + 1, name);
    }
}

proof fn lemma_holders_preserves_wf(s: Seq<OptionView>, lib: Seq<char>, name: Seq<char>)
    requires
        crate::compiler_option::spec_values_wf(s, name),
    ensures
        crate::compiler_option::spec_values_wf(spec_disable_value_holders(s, lib), name),
{
    let r = spec_disable_value_holders(s, lib);
    assert forall|i: int|
        0 <= i < r.len() && crate::compiler_option::opt_matches(r[i], name) implies r[i].has_value by {
        assert(r[i].has_value == s[i].has_value);
        assert(r[i].enabled ==> s[i].enabled);
        assert(r[i].name == s[i].name);
    }
}

/// The baseline stage never adds an ill-formed `-fsanitize` record.
pub proof fn lemma_default_parameters_preserves_wf(libdir: Seq<char>, s: Seq<OptionView>)
    requires
        crate::compiler_option::spec_values_wf(s, "-fsanitize"@),
    ensures
        crate::compiler_option::spec_values_wf(
            spec_default_parameters(libdir, s),
            "-fsanitize"@,
        ),
{
    reveal_strlit("-fsanitize");
    reveal_strlit("-Wno-unused-command-line-argument");
    reveal_strlit("-Wl,-rpath=");
    reveal_strlit("-g");
    reveal_strlit("-fPIC");
    assert("-fsanitize"@.len() == 10);
    assert("-Wno-unused-command-line-argument"@.len() == 33);
    assert("-Wl,-rpath="@.len() == 11);
    assert("-g"@.len() == 2);
    assert("-fPIC"@.len() == 5);
    let name = "-fsanitize"@;
    let s1 = spec_disable_matches(s, "-Wl,-z,defs"@);
    let s2 = spec_disable_matches(s1, "-Wl,--no-undefined"@);
    let s3 = spec_disable_matches(s2, "-Wl,-no-undefined"@);
    let s4 = spec_disable_matches(s3, "--no-undefined"@);
    crate::compiler_option::lemma_disable_preserves_wf(s, "-Wl,-z,defs"@, name);
    crate::compiler_option::lemma_disable_preserves_wf(s1, "-Wl,--no-undefined"@, name);
    crate::compiler_option::lemma_disable_preserves_wf(s2, "-Wl,-no-undefined"@, name);
    crate::compiler_option::lemma_disable_preserves_wf(s3, "--no-undefined"@, name);
    lemma_zdefs_preserves_wf(s4, 0, name);
    let s5 = spec_zdefs_scan(s4, 0);
    lemma_holders_preserves_wf(s5, "bf-rt.o"@, name);
    lemma_holders_preserves_wf(spec_disable_value_holders(s5, "bf-rt.o"@), "bf-llvm_mode.o"@, name);
    let u1 = spec_disable_unfriendly(s);
    crate::compiler_option::lemma_modify_preserves_wf(
        u1,
        spec_plain("-Wno-unused-command-line-argument"@),
        name,
    );
    let u2 = spec_add_or_modify(u1, spec_plain("-Wno-unused-command-line-argument"@));
    let u3 = spec_add_llvm_lib(u2, libdir);
    if !(text::spec_starts_with(libdir, "/usr"@) || text::spec_starts_with(libdir, "/lib"@)) {
        crate::compiler_option::lemma_from_arg_wf("-Wl,-rpath="@ + libdir, name);
        assert(("-Wl,-rpath="@ + libdir).len() >= 11);
        assert(crate::compiler_option::spec_values_wf(u3, name));
    }
    crate::compiler_option::lemma_modify_preserves_wf(u3, spec_plain("-g"@), name);
    let u4 = spec_add_or_modify(u3, spec_plain("-g"@));
    crate::compiler_option::lemma_modify_preserves_wf(u4, spec_plain("-fPIC"@), name);
}

fn disable_zdefs_pairs(options: &mut Vec<CompilerOption>)
    ensures
        final(options).deep_view() == spec_zdefs_scan(old(options).deep_view(), 0),
{
    let ghost target = spec_zdefs_scan(old(options).deep_view(), 0);
    let mut i: usize = 0;
    while i < options.len()
        invariant
            i <= options@.len(),
            options@.len() == old(options)@.len(),
            target == spec_zdefs_scan(options.deep_view(), i as int),
        decreases options@.len() - i,
    {
        let ghost pre = options.deep_view();
        let pair = i + 1 < options.len() && (text::string_eq(&options[i].name, "-z")
            || text::string_eq(&options[i].name, "-Wl,-z")) && (text::string_eq(
            &options[i + 1].name,
            "defs",
        ) || text::string_eq(&options[i + 1].name, "-Wl,defs"));
        proof {
            assert(pre[i as int] == options@[i as int]@);
            if i + 1 < options@.len() {
                assert(pre[i as int + 1] == options@[i as int + 1]@);
            }
            assert(pair == (i + 1 < pre.len() && is_z_name(pre[i as int].name) && is_defs_name(
                pre[i as int + 1].name,
            )));
        }
        if pair {
            let o = &mut options[i];
            o.disable();
            let ghost mid = options.deep_view();
            proof {
                assert(mid =~~= pre.update(i as int, spec_disabled(pre[i as int])));
            }
            let o2 = &mut options[i + 1];
            o2.disable();
            proof {
                assert(options.deep_view() =~~= pre.update(
                    i as int,
                    spec_disabled(pre[i as int]),
                ).update(i as int + 1, spec_disabled(pre[i as int + 1])));
            }
            i = i + 2;
        } else {
            i = i + 1;
        }
    }
    proof {
        assert(spec_zdefs_scan(options.deep_view(), i as int) == options.deep_view());
    }
}

fn disable_value_holders(options: &mut Vec<CompilerOption>, lib: &str)
    ensures
        final(options).deep_view() == spec_disable_value_holders(old(options).deep_view(), lib@),
{
    let ghost s = old(options).deep_view();
    let mut i: usize = 0;
    while i < options.len()
        invariant
            i <= s.len(),
            options@.len() == s.len(),
            forall|k: int|
                0 <= k < s.len() ==> options.deep_view()[k] == (if k < i && s[k].values.contains(
                    lib@,
                ) {
                    spec_disabled(s[k])
                } else {
                    s[k]
                }),
        decreases s.len() - i,
    {
        let ghost prev = options.deep_view();
        proof {
            assert(prev[i as int] == s[i as int]);
            assert(options.deep_view()[i as int] == options@[i as int]@);
        }
        let holds = options[i].contains(lib);
        proof {
            assert(holds == s[i as int].values.contains(lib@));
        }
        if holds {
            let o = &mut options[i];
            o.disable();
            proof {
                assert(options.deep_view()[i as int] == spec_disabled(s[i as int]));
                assert(forall|k: int|
                    0 <= k < s.len() && k != i ==> options.deep_view()[k] == prev[k]);
            }
        }
        proof {
            assert forall|k: int| 0 <= k < s.len() implies options.deep_view()[k] == (if k < i + 1
                && s[k].values.contains(lib@) {
                spec_disabled(s[k])
            } else {
                s[k]
            }) by {
                if k != i {
                    assert(options.deep_view()[k] == prev[k]);
                    assert(prev[k] == (if k < i && s[k].values.contains(lib@) {
                        spec_disabled(s[k])
                    } else {
                        s[k]
                    }));
                }
            }
        }
        i = i + 1;
    }
    proof {
        assert(options.deep_view() =~~= spec_disable_value_holders(s, lib@));
    }
}

/// Disables known strict-linking flags, adjacent `-z defs` pairs, and stale
/// runtime-library records.
pub fn disable_unfriendly_options(options: &mut Vec<CompilerOption>)
    ensures
        final(options).deep_view() == spec_disable_unfriendly(old(options).deep_view()),
{
    options.disable_matching("-Wl,-z,defs");
    options.disable_matching("-Wl,--no-undefined");
    options.disable_matching("-Wl,-no-undefined");
    options.disable_matching("--no-undefined");
    disable_zdefs_pairs(options);
    disable_value_holders(options, "bf-rt.o");
    disable_value_holders(options, "bf-llvm_mode.o");
}

/// Appends a `-Wl,-rpath=` record for the toolchain library directory when
/// it lies outside the default search paths.
pub fn add_llvm_lib(options: &mut Vec<CompilerOption>, libdir: &str)
    ensures
        final(options).deep_view() == spec_add_llvm_lib(old(options).deep_view(), libdir@),
{
    if !(text::str_starts_with(libdir, "/usr") || text::str_starts_with(libdir, "/lib")) {
        let mut s = String::from_str("-Wl,-rpath=");
        s.append(libdir);
        let o = CompilerOption::from_arg(s.as_str());
        options.push(o);
        proof {
            assert(options.deep_view() =~~= old(options).deep_view().push(
                spec_from_arg("-Wl,-rpath="@ + libdir@),
            ));
        }
    }
}

impl DefaultParametersVisitor {
    /// `libdir` is the discovered toolchain library directory.
    pub fn new(libdir: &str) -> (r: Self)
        ensures
            r.libdir@ == libdir@,
    {
        DefaultParametersVisitor { libdir: libdir.to_owned() }
    }
}

impl OptionVisitor for DefaultParametersVisitor {
    open spec fn ready(&self, s: Seq<OptionView>) -> bool {
        true
    }

    open spec fn outcome(&self, s: Seq<OptionView>) -> Result<Seq<OptionView>, ErrorView> {
        Ok(spec_default_parameters(self.libdir@, s))
    }

    fn visit(&mut self, options: &mut Vec<CompilerOption>) -> (r: Result<(), RewriteError>) {
        disable_unfriendly_options(options);
        options.add_or_modify(&CompilerOption::new("-Wno-unused-command-line-argument"));
        add_llvm_lib(options, self.libdir.as_str());
        options.add_or_modify(&CompilerOption::new("-g"));
        options.add_or_modify(&CompilerOption::new("-fPIC"));
        Ok(())
    }
}

} // verus!
