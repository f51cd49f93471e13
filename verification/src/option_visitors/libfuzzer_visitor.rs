//! Fuzzing-driver substitution stage: the meta-token `fuzzer` inside a
//! `-fsanitize=` value list is a request for a fuzzing driver, not a real
//! sanitizer, and must never reach the real compiler. When a removal
//! occurred and the invocation links, the resolved driver object is
//! attached, selecting the `libc++` variant when the collection asks for
//! that standard library.

use vstd::prelude::*;
use crate::compiler_option::{CompilerOption, OptionManagement, OptionView, opt_matches,
    spec_add_or_modify, spec_matches_seq, spec_mode_skip, spec_opt_remove_value, spec_plain,
    lemma_matches_seq_values};
use crate::error::{ErrorView, RewriteError};
use crate::object::ResolvedObject;
use crate::text;
use super::OptionVisitor;

verus! {

pub struct LibfuzzerVisitor {
    /// The resolved standard-library driver object.
    pub driver: ResolvedObject,
    /// The resolved `libc++` driver object.
    pub libcxx_driver: ResolvedObject,
}

/// Whether some enabled `-fsanitize` record carries the `fuzzer` token.
pub open spec fn spec_fuzzer_found(s: Seq<OptionView>) -> bool {
    exists|i: int|
        0 <= i < s.len() && opt_matches(s[i], "-fsanitize"@) && s[i].values.contains("fuzzer"@)
}

/// The `fuzzer` token stripped out of every enabled `-fsanitize` record.
pub open spec fn spec_remove_fuzzer(s: Seq<OptionView>) -> Seq<OptionView> {
    Seq::new(
        s.len(),
        |i: int|
            if opt_matches(s[i], "-fsanitize"@) && s[i].values.contains("fuzzer"@) {
                spec_opt_remove_value(s[i], "fuzzer"@)
            } else {
                s[i]
            },
    )
}

/// Every enabled `-fsanitize` record that carries `fuzzer` is value-bearing.
pub open spec fn spec_fuzzer_wf(s: Seq<OptionView>) -> bool {
    forall|i: int|
        0 <= i < s.len() && opt_matches(s[i], "-fsanitize"@) && s[i].values.contains("fuzzer"@)
            ==> s[i].has_value
}

/// Whether the collection selects the `libc++` standard library.
pub open spec fn spec_nonstd(s: Seq<OptionView>) -> bool {
    exists|i: int|
        0 <= i < s.len() && opt_matches(s[i], "-stdlib"@) && s[i].values.contains("libc++"@)
}

/// The driver-attachment step, applied after a removal on a linking
/// invocation.
pub open spec fn spec_add_driver(v: LibfuzzerVisitor, s: Seq<OptionView>) -> Result<
    Seq<OptionView>,
    ErrorView,
> {
    if spec_mode_skip(s) {
        Ok(s)
    } else {
        let nonstd = spec_nonstd(s);
        let d = if nonstd {
            v.libcxx_driver
        } else {
            v.driver
        };
        match d.path {
            Some(p) => {
                let s1 = spec_add_or_modify(s, spec_plain(p@));
                if !nonstd {
                    Ok(spec_add_or_modify(s1, spec_plain("-lstdc++"@)))
                } else {
                    Ok(s1)
                }
            },
            None => Err(ErrorView::ObjectNotFound(d.name@)),
        }
    }
}

/// The whole driver-substitution stage.
pub open spec fn spec_libfuzzer_stage(v: LibfuzzerVisitor, s: Seq<OptionView>) -> Result<
    Seq<OptionView>,
    ErrorView,
> {
    if spec_fuzzer_found(s) {
        spec_add_driver(v, spec_remove_fuzzer(s))
    } else {
        Ok(spec_remove_fuzzer(s))
    }
}

/// Mode classification gates attachment: on an invocation whose tokens are
/// all flag-shaped (the checking heuristic), the driver-substitution stage
/// only strips `fuzzer` tokens and attaches nothing; with no `fuzzer` token
/// present it leaves the collection unchanged.
pub proof fn lemma_driver_skips_checking(v: LibfuzzerVisitor, s: Seq<OptionView>)
    requires
        crate::compiler_option::spec_all_flag_shaped(s),
    ensures
        spec_libfuzzer_stage(v, s) == Ok::<Seq<OptionView>, ErrorView>(spec_remove_fuzzer(s)),
        !spec_fuzzer_found(s) ==> spec_libfuzzer_stage(v, s) == Ok::<Seq<OptionView>, ErrorView>(
            s,
        ),
{
    let r = spec_remove_fuzzer(s);
    assert(forall|i: int| 0 <= i < r.len() ==> r[i].name == s[i].name);
    assert(crate::compiler_option::spec_all_flag_shaped(r));
    assert(crate::compiler_option::spec_mode_skip(r));
    if !spec_fuzzer_found(s) {
        assert(r =~~= s);
    }
}

impl LibfuzzerVisitor {
    /// Both driver variants, as the resolver located them.
    pub fn new(driver: ResolvedObject, libcxx_driver: ResolvedObject) -> (r: Self)
        ensures
            r.driver == driver,
            r.libcxx_driver == libcxx_driver,
    {
        LibfuzzerVisitor { driver, libcxx_driver }
    }

    /// Removes the `fuzzer` token from every enabled `-fsanitize` record and
    /// reports whether any removal occurred.
    pub fn remove_fuzzer_sanitizer(&self, options: &mut Vec<CompilerOption>) -> (r: bool)
        requires
            spec_fuzzer_wf(old(options).deep_view()),
        ensures
            final(options).deep_view() == spec_remove_fuzzer(old(options).deep_view()),
            r == spec_fuzzer_found(old(options).deep_view()),
    {
        let ghost s = old(options).deep_view();
        let mut found = false;
        let mut i: usize = 0;
        while i < options.len()
            invariant
                i <= s.len(),
                options@.len() == s.len(),
                spec_fuzzer_wf(s),
                found == exists|j: int|
                    0 <= j < i && opt_matches(s[j], "-fsanitize"@) && s[j].values.contains(
                        "fuzzer"@,
                    ),
                forall|k: int|
                    0 <= k < s.len() ==> options.deep_view()[k] == (if k < i && opt_matches(
                        s[k],
                        "-fsanitize"@,
                    ) && s[k].values.contains("fuzzer"@) {
                        spec_opt_remove_value(s[k], "fuzzer"@)
                    } else {
                        s[k]
                    }),
            decreases s.len() - i,
        {
            let ghost prev = options.deep_view();
            proof {
                assert(prev[i as int] == s[i as int]);
                assert(options.deep_view()[i as int] == options@[i as int]@);
            }
            let matched = options[i].is_enabled && text::string_eq(&options[i].name, "-fsanitize")
                && options[i].contains("fuzzer");
            proof {
                assert(matched == (opt_matches(s[i as int], "-fsanitize"@) && s[i as int].values.contains(
                    "fuzzer"@,
                )));
            }
            if matched {
                let o = &mut options[i];
                o.remove_value("fuzzer");
                found = true;
                proof {
                    assert(options.deep_view()[i as int] == spec_opt_remove_value(
                        s[i as int],
                        "fuzzer"@,
                    ));
                    assert(forall|k: int|
                        0 <= k < s.len() && k != i ==> options.deep_view()[k] == prev[k]);
                }
            }
            proof {
                assert forall|k: int| 0 <= k < s.len() implies options.deep_view()[k] == (if k < i
                    + 1 && opt_matches(s[k], "-fsanitize"@) && s[k].values.contains("fuzzer"@) {
                    spec_opt_remove_value(s[k], "fuzzer"@)
                } else {
                    s[k]
                }) by {
                    if k != i {
                        assert(options.deep_view()[k] == prev[k]);
                        assert(prev[k] == (if k < i && opt_matches(s[k], "-fsanitize"@)
                            && s[k].values.contains("fuzzer"@) {
                            spec_opt_remove_value(s[k], "fuzzer"@)
                        } else {
                            s[k]
                        }));
                    }
                }
            }
            i = i + 1;
        }
        proof {
            assert(options.deep_view() =~~= spec_remove_fuzzer(s));
        }
        found
    }

    /// Attaches the appropriate driver object on linking invocations;
    /// a driver the resolver could not locate is fatal.
    pub fn add_driver_library(&self, options: &mut Vec<CompilerOption>) -> (r: Result<
        (),
        RewriteError,
    >)
        ensures
            match r {
                Ok(()) => spec_add_driver(*self, old(options).deep_view()) == Ok::<
                    Seq<OptionView>,
                    ErrorView,
                >(final(options).deep_view()),
                Err(e) => spec_add_driver(*self, old(options).deep_view()) == Err::<
                    Seq<OptionView>,
                    ErrorView,
                >(e@),
            },
    {
        let ghost s = options.deep_view();
        if options.is_compiling() || options.is_preprocessor() || options.is_checking() {
            return Ok(());
        }
        let stdlib_options = options.get_options("-stdlib");
        let mut nonstd = false;
        let ghost m = spec_matches_seq(s, "-stdlib"@);
        let mut k: usize = 0;
        while k < stdlib_options.len()
            invariant
                k <= m.len(),
                m == stdlib_options.deep_view(),
                nonstd == exists|j: int| 0 <= j < k && m[j].values.contains("libc++"@),
            decreases m.len() - k,
        {
            proof {
                assert(stdlib_options.deep_view()[k as int] == stdlib_options@[k as int]@);
            }
            if stdlib_options[k].contains("libc++") {
                nonstd = true;
            }
            k = k + 1;
        }
        proof {
            lemma_matches_seq_values(s, "-stdlib"@, "libc++"@);
            assert(nonstd == spec_nonstd(s));
        }
        let d = if nonstd {
            &self.libcxx_driver
        } else {
            &self.driver
        };
        match &d.path {
            Some(p) => {
                options.add_or_modify(&CompilerOption::new(p.as_str()));
                if !nonstd {
                    options.add_or_modify(&CompilerOption::new("-lstdc++"));
                }
                Ok(())
            },
            None => Err(RewriteError::ObjectNotFound(d.name.clone())),
        }
    }
}

impl OptionVisitor for LibfuzzerVisitor {
    open spec fn ready(&self, s: Seq<OptionView>) -> bool {
        spec_fuzzer_wf(s)
    }

    open spec fn outcome(&self, s: Seq<OptionView>) -> Result<Seq<OptionView>, ErrorView> {
        spec_libfuzzer_stage(*self, s)
    }

    fn visit(&mut self, options: &mut Vec<CompilerOption>) -> (r: Result<(), RewriteError>) {
        if self.remove_fuzzer_sanitizer(options) {
            self.add_driver_library(options)
        } else {
            Ok(())
        }
    }
}

} // verus!
