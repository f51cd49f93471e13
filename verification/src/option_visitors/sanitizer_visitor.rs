//! Sanitizer reconciliation stage: produces a consistent, duplicate-free
//! sanitizer and coverage configuration from intents sourced from the
//! collection itself and from configuration, with a global disable-all
//! override taking precedence for the three sanitizers (not for coverage).

use vstd::prelude::*;
use crate::compiler_option::{CompilerOption, OptionManagement, OptionView, opt_matches,
    spec_add_or_mix, spec_add_or_modify, spec_disable_matches, spec_from_arg,
    spec_remove_value_matches, spec_values_wf, lemma_from_arg_wf, lemma_mix_preserves_wf,
    lemma_remove_preserves_wf};
use crate::error::{ErrorView, RewriteError};
use crate::text;
use super::OptionVisitor;

verus! {

pub struct SanitizerVisitor {
    pub use_asan: bool,
    pub use_msan: bool,
    pub use_ubsan: bool,
    pub use_cov: bool,
    /// Configured global disable-all-sanitizers override.
    pub env_nosan: bool,
    /// Configured AddressSanitizer intent.
    pub env_asan: bool,
    /// Configured MemorySanitizer intent.
    pub env_msan: bool,
    /// Configured UndefinedBehaviorSanitizer intent.
    pub env_ubsan: bool,
    /// Configured coverage-instrumentation intent.
    pub env_cov: bool,
}

/// Whether some enabled `-fsanitize` record carries this value.
pub open spec fn spec_sanitize_has(s: Seq<OptionView>, v: Seq<char>) -> bool {
    exists|i: int|
        0 <= i < s.len() && opt_matches(s[i], "-fsanitize"@) && s[i].values.contains(v)
}

pub open spec fn spec_use_asan(v: SanitizerVisitor, s: Seq<OptionView>) -> bool {
    !v.env_nosan && (v.use_asan || spec_sanitize_has(s, "address"@) || v.env_asan)
}

pub open spec fn spec_use_msan(v: SanitizerVisitor, s: Seq<OptionView>) -> bool {
    !v.env_nosan && (v.use_msan || spec_sanitize_has(s, "memory"@) || v.env_msan)
}

pub open spec fn spec_use_ubsan(v: SanitizerVisitor, s: Seq<OptionView>) -> bool {
    !v.env_nosan && (v.use_ubsan || spec_sanitize_has(s, "undefined"@) || v.env_ubsan)
}

pub open spec fn spec_use_cov(v: SanitizerVisitor, s: Seq<OptionView>) -> bool {
    v.use_cov || spec_sanitize_has(s, "trace-pc-guard"@) || v.env_cov
}

/// Each flag merged in turn, parsed like a raw argument.
pub open spec fn spec_mix_flags(s: Seq<OptionView>, fs: Seq<Seq<char>>) -> Seq<OptionView>
    decreases fs.len(),
{
    if fs.len() == 0 {
        s
    } else {
        spec_mix_flags(spec_add_or_mix(s, spec_from_arg(fs[0])), fs.drop_first())
    }
}

/// One sanitizer intent applied: enabled intents merge the canonical flag
/// and its companions; disabled intents strip the flag's value token out of
/// every enabled `-fsanitize` record without touching sibling values.
pub open spec fn spec_toggle(
    s: Seq<OptionView>,
    enable: bool,
    flag: Seq<char>,
    additional: Seq<Seq<char>>,
) -> Seq<OptionView> {
    if enable {
        spec_mix_flags(spec_add_or_mix(s, spec_from_arg(flag)), additional)
    } else {
        spec_remove_value_matches(s, "-fsanitize"@, text::spec_split(flag, '=').last())
    }
}

/// The UBSan companion flags.
pub open spec fn spec_ubsan_companions() -> Seq<Seq<char>> {
    seq![
        "-fno-sanitize-recover=all"@,
        "-fsanitize-undefined-trap-on-error"@,
        "-fno-omit-frame-pointer"@,
    ]
}

/// The whole reconciliation stage, as a function of the visitor's intents.
pub open spec fn spec_sanitizer_stage(v: SanitizerVisitor, s: Seq<OptionView>) -> Seq<OptionView> {
    let s1 = spec_toggle(s, spec_use_asan(v, s), "-fsanitize=address"@, Seq::empty());
    let s2 = spec_toggle(s1, spec_use_msan(v, s), "-fsanitize=memory"@, Seq::empty());
    let s3 = spec_toggle(s2, spec_use_ubsan(v, s), "-fsanitize=undefined"@, spec_ubsan_companions());
    let s4 = spec_add_or_mix(s3, spec_from_arg("-U_FORTIFY_SOURCE"@));
    if spec_use_cov(v, s) {
        spec_add_or_modify(s4, spec_from_arg("-fsanitize-coverage=trace-pc-guard"@))
    } else {
        spec_disable_matches(s4, "-fsanitize-coverage"@)
    }
}

/// Applies one sanitizer intent to the collection.
pub fn toggle_sanitizer(
    options: &mut Vec<CompilerOption>,
    enable: bool,
    flag: &str,
    additional_flags: &Vec<&str>,
)
    requires
        !enable ==> spec_values_wf(old(options).deep_view(), "-fsanitize"@),
    ensures
        final(options).deep_view() == spec_toggle(
            old(options).deep_view(),
            enable,
            flag@,
            additional_flags.deep_view(),
        ),
{
    if enable {
        options.add_or_mix(&CompilerOption::from_arg(flag));
        let ghost fs = additional_flags.deep_view();
        let ghost target = spec_mix_flags(options.deep_view(), fs);
        let mut j: usize = 0;
        proof {
            assert(fs.skip(0) =~= fs);
        }
        while j < additional_flags.len()
            invariant
                j <= fs.len(),
                fs == additional_flags.deep_view(),
                target == spec_mix_flags(options.deep_view(), fs.skip(j as int)),
            decreases fs.len() - j,
        {
            proof {
                assert(fs.skip(j as int).drop_first() =~= fs.skip(j as int + 1));
                assert(fs.skip(j as int)[0] == fs[j as int]);
            }
            options.add_or_mix(&CompilerOption::from_arg(additional_flags[j]));
            j = j + 1;
        }
        proof {
            assert(fs.skip(fs.len() as int) =~= Seq::<Seq<char>>::empty());
        }
    } else {
        let parts = text::split_char(flag, '=');
        proof {
            text::lemma_split_len(flag@, '=');
            assert(parts.deep_view()[parts@.len() - 1] == parts@[parts@.len() - 1]@);
            assert(parts.deep_view().last() == text::spec_split(flag@, '=').last());
        }
        let token = &parts[parts.len() - 1];
        options.remove_value_matching("-fsanitize", token.as_str());
    }
}

impl SanitizerVisitor {
    /// A stage with no intents and no configured overrides.
    pub fn new() -> (r: Self)
        ensures
            !r.use_asan && !r.use_msan && !r.use_ubsan && !r.use_cov,
            !r.env_nosan && !r.env_asan && !r.env_msan && !r.env_ubsan && !r.env_cov,
    {
        SanitizerVisitor {
            use_asan: false,
            use_msan: false,
            use_ubsan: false,
            use_cov: false,
            env_nosan: false,
            env_asan: false,
            env_msan: false,
            env_ubsan: false,
            env_cov: false,
        }
    }

    /// A stage with the configured sanitizer switches.
    pub fn with_env(nosan: bool, asan: bool, msan: bool, ubsan: bool, cov: bool) -> (r: Self)
        ensures
            !r.use_asan && !r.use_msan && !r.use_ubsan && !r.use_cov,
            r.env_nosan == nosan,
            r.env_asan == asan,
            r.env_msan == msan,
            r.env_ubsan == ubsan,
            r.env_cov == cov,
    {
        SanitizerVisitor {
            use_asan: false,
            use_msan: false,
            use_ubsan: false,
            use_cov: false,
            env_nosan: nosan,
            env_asan: asan,
            env_msan: msan,
            env_ubsan: ubsan,
            env_cov: cov,
        }
    }

    /// Folds the sanitizer values already present in `-fsanitize` records
    /// into the intents.
    #[verifier::rlimit(60)]
    pub fn set_sanitizers_from_options(&mut self, options: &Vec<CompilerOption>)
        ensures
            final(self).use_asan == (old(self).use_asan || spec_sanitize_has(
                options.deep_view(),
                "address"@,
            )),
            final(self).use_msan == (old(self).use_msan || spec_sanitize_has(
                options.deep_view(),
                "memory"@,
            )),
            final(self).use_ubsan == (old(self).use_ubsan || spec_sanitize_has(
                options.deep_view(),
                "undefined"@,
            )),
            final(self).use_cov == (old(self).use_cov || spec_sanitize_has(
                options.deep_view(),
                "trace-pc-guard"@,
            )),
            final(self).env_nosan == old(self).env_nosan,
            final(self).env_asan == old(self).env_asan,
            final(self).env_msan == old(self).env_msan,
            final(self).env_ubsan == old(self).env_ubsan,
            final(self).env_cov == old(self).env_cov,
    {
        let ghost s = options.deep_view();
        let mut i: usize = 0;
        while i < options.len()
            invariant
                i <= s.len(),
                s == options.deep_view(),
                self.use_asan == (old(self).use_asan || exists|j: int|
                    0 <= j < i && opt_matches(s[j], "-fsanitize"@) && s[j].values.contains(
                        "address"@,
                    )),
                self.use_msan == (old(self).use_msan || exists|j: int|
                    0 <= j < i && opt_matches(s[j], "-fsanitize"@) && s[j].values.contains(
                        "memory"@,
                    )),
                self.use_ubsan == (old(self).use_ubsan || exists|j: int|
                    0 <= j < i && opt_matches(s[j], "-fsanitize"@) && s[j].values.contains(
                        "undefined"@,
                    )),
                self.use_cov == (old(self).use_cov || exists|j: int|
                    0 <= j < i && opt_matches(s[j], "-fsanitize"@) && s[j].values.contains(
                        "trace-pc-guard"@,
                    )),
                self.env_nosan == old(self).env_nosan,
                self.env_asan == old(self).env_asan,
                self.env_msan == old(self).env_msan,
                self.env_ubsan == old(self).env_ubsan,
                self.env_cov == old(self).env_cov,
            decreases s.len() - i,
        {
            proof {
                assert(options.deep_view()[i as int] == options@[i as int]@);
            }
            if options[i].is_enabled && text::string_eq(&options[i].name, "-fsanitize") {
                proof {
                    assert(opt_matches(s[i as int], "-fsanitize"@));
                }
                if options[i].contains("address") {
                    self.use_asan = true;
                }
                if options[i].contains("memory") {
                    self.use_msan = true;
                }
                if options[i].contains("undefined") {
                    self.use_ubsan = true;
                }
                if options[i].contains("trace-pc-guard") {
                    self.use_cov = true;
                }
            }
            i = i + 1;
        }
    }

    /// Applies the configured overrides: the global disable wins for the
    /// three sanitizers, then the individual enables are folded in;
    /// coverage is unaffected by the global disable.
    pub fn override_sanitizers_from_env(&mut self)
        ensures
            final(self).use_asan == (!old(self).env_nosan && (old(self).use_asan || old(
                self,
            ).env_asan)),
            final(self).use_msan == (!old(self).env_nosan && (old(self).use_msan || old(
                self,
            ).env_msan)),
            final(self).use_ubsan == (!old(self).env_nosan && (old(self).use_ubsan || old(
                self,
            ).env_ubsan)),
            final(self).use_cov == (old(self).use_cov || old(self).env_cov),
            final(self).env_nosan == old(self).env_nosan,
            final(self).env_asan == old(self).env_asan,
            final(self).env_msan == old(self).env_msan,
            final(self).env_ubsan == old(self).env_ubsan,
            final(self).env_cov == old(self).env_cov,
    {
        if self.env_nosan {
            self.use_asan = false;
            self.use_msan = false;
            self.use_ubsan = false;
        } else {
            self.use_asan = self.use_asan || self.env_asan;
            self.use_msan = self.use_msan || self.env_msan;
            self.use_ubsan = self.use_ubsan || self.env_ubsan;
        }
        self.use_cov = self.use_cov || self.env_cov;
    }

    /// Resolves the four intents from the collection and the configuration.
    pub fn init(&mut self, options: &Vec<CompilerOption>)
        ensures
            final(self).use_asan == (!old(self).env_nosan && (old(self).use_asan
                || spec_sanitize_has(options.deep_view(), "address"@) || old(self).env_asan)),
            final(self).use_msan == (!old(self).env_nosan && (old(self).use_msan
                || spec_sanitize_has(options.deep_view(), "memory"@) || old(self).env_msan)),
            final(self).use_ubsan == (!old(self).env_nosan && (old(self).use_ubsan
                || spec_sanitize_has(options.deep_view(), "undefined"@) || old(self).env_ubsan)),
            final(self).use_cov == (old(self).use_cov || spec_sanitize_has(
                options.deep_view(),
                "trace-pc-guard"@,
            ) || old(self).env_cov),
            final(self).env_nosan == old(self).env_nosan,
            final(self).env_asan == old(self).env_asan,
            final(self).env_msan == old(self).env_msan,
            final(self).env_ubsan == old(self).env_ubsan,
            final(self).env_cov == old(self).env_cov,
    {
        self.set_sanitizers_from_options(options);
        self.override_sanitizers_from_env();
    }
}

impl OptionVisitor for SanitizerVisitor {
    open spec fn ready(&self, s: Seq<OptionView>) -> bool {
        spec_values_wf(s, "-fsanitize"@)
    }

    open spec fn outcome(&self, s: Seq<OptionView>) -> Result<Seq<OptionView>, ErrorView> {
        Ok(spec_sanitizer_stage(*self, s))
    }

    fn visit(&mut self, options: &mut Vec<CompilerOption>) -> (r: Result<(), RewriteError>) {
        let ghost s0 = options.deep_view();
        self.init(options);
        let empty: Vec<&str> = Vec::new();
        proof {
            assert(empty.deep_view() =~~= Seq::<Seq<char>>::empty());
            reveal_strlit("-fsanitize");
            reveal_strlit("-fsanitize=address");
            reveal_strlit("-fsanitize=memory");
            reveal_strlit("-fsanitize=undefined");
            reveal_strlit("-fno-sanitize-recover=all");
            reveal_strlit("-fsanitize-undefined-trap-on-error");
            reveal_strlit("-fno-omit-frame-pointer");
        }
        let ghost s1 = spec_toggle(s0, self.use_asan, "-fsanitize=address"@, Seq::empty());
        let ghost s2 = spec_toggle(s1, self.use_msan, "-fsanitize=memory"@, Seq::empty());
        toggle_sanitizer(options, self.use_asan, "-fsanitize=address", &empty);
        proof {
            lemma_toggle_preserves_wf(s0, self.use_asan, "-fsanitize=address"@, Seq::empty());
            assert(options.deep_view() == s1);
        }
        toggle_sanitizer(options, self.use_msan, "-fsanitize=memory", &empty);
        proof {
            lemma_toggle_preserves_wf(s1, self.use_msan, "-fsanitize=memory"@, Seq::empty());
            assert(options.deep_view() == s2);
        }
        let ubsan_companions: Vec<&str> = vec![
            "-fno-sanitize-recover=all",
            "-fsanitize-undefined-trap-on-error",
            "-fno-omit-frame-pointer",
        ];
        proof {
            assert(ubsan_companions.deep_view() =~~= spec_ubsan_companions());
        }
        toggle_sanitizer(options, self.use_ubsan, "-fsanitize=undefined", &ubsan_companions);
        options.add_or_mix(&CompilerOption::from_arg("-U_FORTIFY_SOURCE"));
        if self.use_cov {
            options.add_or_modify(&CompilerOption::from_arg("-fsanitize-coverage=trace-pc-guard"));
        } else {
            options.disable_matching("-fsanitize-coverage");
        }
        proof {
            assert(spec_sanitizer_stage(*old(self), s0) =~~= options.deep_view());
        }
        Ok(())
    }
}

/// A toggle on a well-formed collection leaves it well-formed: every flag it
/// can insert either is not named `-fsanitize` or carries a value list.
pub proof fn lemma_toggle_preserves_wf(
    s: Seq<OptionView>,
    enable: bool,
    flag: Seq<char>,
    additional: Seq<Seq<char>>,
)
    requires
        spec_values_wf(s, "-fsanitize"@),
        flag != "-fsanitize"@,
        forall|k: int| 0 <= k < additional.len() ==> additional[k] != "-fsanitize"@,
    ensures
        spec_values_wf(spec_toggle(s, enable, flag, additional), "-fsanitize"@),
    decreases additional.len(),
{
    if enable {
        lemma_from_arg_wf(flag, "-fsanitize"@);
        lemma_mix_preserves_wf(s, spec_from_arg(flag), "-fsanitize"@);
        lemma_mix_flags_preserves_wf(spec_add_or_mix(s, spec_from_arg(flag)), additional);
    } else {
        lemma_remove_preserves_wf(s, "-fsanitize"@, text::spec_split(flag, '=').last(), "-fsanitize"@);
    }
}

/// The records the stage's flag literals parse to.
#[verifier::rlimit(100)]
#[verifier::spinoff_prover]
proof fn lemma_sanitizer_literal_records()
    ensures
        spec_from_arg("-fsanitize=address"@) == crate::compiler_option::spec_valued(
            "-fsanitize"@,
            seq!["address"@],
        ),
        spec_from_arg("-fsanitize=memory"@) == crate::compiler_option::spec_valued(
            "-fsanitize"@,
            seq!["memory"@],
        ),
        spec_from_arg("-fsanitize=undefined"@) == crate::compiler_option::spec_valued(
            "-fsanitize"@,
            seq!["undefined"@],
        ),
        spec_from_arg("-fno-sanitize-recover=all"@) == crate::compiler_option::spec_valued(
            "-fno-sanitize-recover"@,
            seq!["all"@],
        ),
        spec_from_arg("-fsanitize-undefined-trap-on-error"@)
            == crate::compiler_option::spec_plain("-fsanitize-undefined-trap-on-error"@),
        spec_from_arg("-fno-omit-frame-pointer"@) == crate::compiler_option::spec_plain(
            "-fno-omit-frame-pointer"@,
        ),
        spec_from_arg("-U_FORTIFY_SOURCE"@) == crate::compiler_option::spec_plain(
            "-U_FORTIFY_SOURCE"@,
        ),
        spec_from_arg("-fsanitize-coverage=trace-pc-guard"@)
            == crate::compiler_option::spec_valued("-fsanitize-coverage"@, seq!["trace-pc-guard"@]),
        text::spec_split("-fsanitize=address"@, '=').last() == "address"@,
        text::spec_split("-fsanitize=memory"@, '=').last() == "memory"@,
        text::spec_split("-fsanitize=undefined"@, '=').last() == "undefined"@,
{
    reveal_strlit("-fsanitize");
    reveal_strlit("-fsanitize=address");
    reveal_strlit("-fsanitize=memory");
    reveal_strlit("-fsanitize=undefined");
    reveal_strlit("-fno-sanitize-recover=all");
    reveal_strlit("-fno-sanitize-recover");
    reveal_strlit("-fsanitize-undefined-trap-on-error");
    reveal_strlit("-fno-omit-frame-pointer");
    reveal_strlit("-U_FORTIFY_SOURCE");
    reveal_strlit("-fsanitize-coverage=trace-pc-guard");
    reveal_strlit("-fsanitize-coverage");
    reveal_strlit("address");
    reveal_strlit("memory");
    reveal_strlit("undefined");
    reveal_strlit("all");
    reveal_strlit("trace-pc-guard");
    reveal_with_fuel(text::spec_split_once, 40);
    reveal_with_fuel(text::spec_split, 40);
    assert(spec_from_arg("-fsanitize=address"@) =~~= crate::compiler_option::spec_valued(
        "-fsanitize"@,
        seq!["address"@],
    ));
    assert(spec_from_arg("-fsanitize=memory"@) =~~= crate::compiler_option::spec_valued(
        "-fsanitize"@,
        seq!["memory"@],
    ));
    assert(spec_from_arg("-fsanitize=undefined"@) =~~= crate::compiler_option::spec_valued(
        "-fsanitize"@,
        seq!["undefined"@],
    ));
    assert(spec_from_arg("-fno-sanitize-recover=all"@) =~~= crate::compiler_option::spec_valued(
        "-fno-sanitize-recover"@,
        seq!["all"@],
    ));
    assert(spec_from_arg("-fsanitize-undefined-trap-on-error"@)
        =~~= crate::compiler_option::spec_plain("-fsanitize-undefined-trap-on-error"@));
    assert(spec_from_arg("-fno-omit-frame-pointer"@) =~~= crate::compiler_option::spec_plain(
        "-fno-omit-frame-pointer"@,
    ));
    assert(spec_from_arg("-U_FORTIFY_SOURCE"@) =~~= crate::compiler_option::spec_plain(
        "-U_FORTIFY_SOURCE"@,
    ));
    assert(spec_from_arg("-fsanitize-coverage=trace-pc-guard"@)
        =~~= crate::compiler_option::spec_valued("-fsanitize-coverage"@, seq!["trace-pc-guard"@]));
    assert(text::spec_split("-fsanitize=address"@, '=').last() =~= "address"@);
    assert(text::spec_split("-fsanitize=memory"@, '=').last() =~= "memory"@);
    assert(text::spec_split("-fsanitize=undefined"@, '=').last() =~= "undefined"@);
}

/// Every enabled `-fsanitize` record carries at least one value, so that a
/// later value removal cannot disable it spuriously.
pub open spec fn spec_fsan_nonempty(s: Seq<OptionView>) -> bool {
    forall|i: int|
        0 <= i < s.len() && opt_matches(s[i], "-fsanitize"@) ==> s[i].values.len() > 0
}

/// Merging a value-bearing `-fsanitize` record: exactly the record's values
/// join the shared value list.
proof fn lemma_mix_fsan_has(s: Seq<OptionView>, o: OptionView)
    requires
        o.name == "-fsanitize"@,
        o.enabled,
        o.has_value,
        o.values.len() > 0,
        crate::compiler_option::spec_count_matches(s, "-fsanitize"@) <= 1,
        spec_values_wf(s, "-fsanitize"@),
    ensures
        forall|val: Seq<char>|
            #![trigger spec_sanitize_has(spec_add_or_mix(s, o), val)]
            spec_sanitize_has(spec_add_or_mix(s, o), val) == (spec_sanitize_has(s, val)
                || o.values.contains(val)),
        crate::compiler_option::spec_count_matches(spec_add_or_mix(s, o), "-fsanitize"@) == 1,
        spec_fsan_nonempty(spec_add_or_mix(s, o)),
        spec_values_wf(spec_add_or_mix(s, o), "-fsanitize"@),
{
    let fsan = "-fsanitize"@;
    let r = spec_add_or_mix(s, o);
    crate::compiler_option::lemma_mix_count_one(s, o);
    crate::compiler_option::lemma_mix_preserves_wf(s, o, fsan);
    crate::compiler_option::lemma_unique_match(s, fsan);
    if crate::compiler_option::spec_count_matches(s, fsan) == 1 {
        crate::compiler_option::lemma_first_match_in_range(s, fsan);
        let i = crate::compiler_option::spec_first_match(s, fsan);
        assert(s[i].has_value);
        assert(r[i].values == crate::compiler_option::spec_merge_values(s[i].values, o.values));
        assert forall|val: Seq<char>|
            spec_sanitize_has(r, val) == (spec_sanitize_has(s, val) || o.values.contains(
                val,
            )) by {
            crate::compiler_option::lemma_merge_contains(s[i].values, o.values, val);
            if spec_sanitize_has(r, val) {
                let j = choose|j: int|
                    0 <= j < r.len() && opt_matches(r[j], fsan) && r[j].values.contains(val);
                if j != i {
                    assert(r[j] == s[j]);
                }
            }
            if spec_sanitize_has(s, val) {
                let j = choose|j: int|
                    0 <= j < s.len() && opt_matches(s[j], fsan) && s[j].values.contains(val);
                assert(j == i);
                assert(r[i].values.contains(val));
            }
            if o.values.contains(val) {
                assert(r[i].values.contains(val));
            }
        }
        assert forall|j: int|
            0 <= j < r.len() && opt_matches(r[j], fsan) implies r[j].values.len() > 0 by {
            if j == i {
                crate::compiler_option::lemma_merge_contains(s[i].values, o.values, o.values[0]);
                assert(r[i].values.contains(o.values[0]));
                let k = choose|k: int| 0 <= k < r[i].values.len() && r[i].values[k] == o.values[0];
            } else {
                assert(r[j] == s[j]);
                assert(opt_matches(s[j], fsan));
                assert(j == i);
            }
        }
    } else {
        crate::compiler_option::lemma_count_pos_exists(s, fsan);
        assert(r == s.push(o));
        assert(r[s.len() as int] == o);
        assert forall|val: Seq<char>|
            spec_sanitize_has(r, val) == (spec_sanitize_has(s, val) || o.values.contains(
                val,
            )) by {
            if spec_sanitize_has(r, val) {
                let j = choose|j: int|
                    0 <= j < r.len() && opt_matches(r[j], fsan) && r[j].values.contains(val);
                if j < s.len() {
                    assert(opt_matches(s[j], fsan));
                }
            }
            if spec_sanitize_has(s, val) {
                let j = choose|j: int|
                    0 <= j < s.len() && opt_matches(s[j], fsan) && s[j].values.contains(val);
                assert(opt_matches(s[j], fsan));
            }
            if o.values.contains(val) {
                assert(r[s.len() as int].values.contains(val));
            }
        }
        assert forall|j: int|
            0 <= j < r.len() && opt_matches(r[j], fsan) implies r[j].values.len() > 0 by {
            if j < s.len() {
                assert(opt_matches(s[j], fsan));
            }
        }
    }
}

/// Stripping one token: exactly that token leaves the shared value list,
/// and emptied records are disabled rather than kept.
proof fn lemma_remove_fsan_has(s: Seq<OptionView>, tok: Seq<char>)
    ensures
        forall|val: Seq<char>|
            #![trigger spec_sanitize_has(spec_remove_value_matches(s, "-fsanitize"@, tok), val)]
            spec_sanitize_has(spec_remove_value_matches(s, "-fsanitize"@, tok), val) == (val != tok
                && spec_sanitize_has(s, val)),
        spec_fsan_nonempty(spec_remove_value_matches(s, "-fsanitize"@, tok)),
{
    let fsan = "-fsanitize"@;
    let r = spec_remove_value_matches(s, fsan, tok);
    assert forall|val: Seq<char>|
        spec_sanitize_has(r, val) == (val != tok && spec_sanitize_has(s, val)) by {
        if spec_sanitize_has(r, val) {
            let j = choose|j: int|
                0 <= j < r.len() && opt_matches(r[j], fsan) && r[j].values.contains(val);
            if opt_matches(s[j], fsan) {
                crate::compiler_option::lemma_remove_val_contains(s[j].values, tok, val);
            } else {
                assert(r[j] == s[j]);
            }
        }
        if val != tok && spec_sanitize_has(s, val) {
            let j = choose|j: int|
                0 <= j < s.len() && opt_matches(s[j], fsan) && s[j].values.contains(val);
            crate::compiler_option::lemma_remove_val_contains(s[j].values, tok, val);
            assert(r[j].values.contains(val));
            let k = choose|k: int| 0 <= k < r[j].values.len() && r[j].values[k] == val;
            assert(r[j].values.len() > 0);
            assert(r[j].enabled);
            assert(opt_matches(r[j], fsan) && r[j].values.contains(val));
        }
    }
    assert forall|j: int|
        0 <= j < r.len() && opt_matches(r[j], fsan) implies r[j].values.len() > 0 by {
        if opt_matches(s[j], fsan) {
            assert(r[j] == crate::compiler_option::spec_opt_remove_value(s[j], tok));
        } else {
            assert(r[j] == s[j]);
        }
    }
}

/// A framed operation keyed on a name other than `-fsanitize` changes
/// nothing a sanitizer intent reads.
proof fn lemma_frame_fsan_has(s: Seq<OptionView>, r: Seq<OptionView>, fname: Seq<char>)
    requires
        crate::compiler_option::spec_frame(s, r, fname),
        fname != "-fsanitize"@,
    ensures
        forall|val: Seq<char>|
            #![trigger spec_sanitize_has(r, val)]
            spec_sanitize_has(r, val) == spec_sanitize_has(s, val),
        spec_fsan_nonempty(s) ==> spec_fsan_nonempty(r),
        spec_values_wf(s, "-fsanitize"@) ==> spec_values_wf(r, "-fsanitize"@),
{
    let fsan = "-fsanitize"@;
    assert forall|j: int|
        0 <= j < r.len() && r[j].name == fsan implies j < s.len() && r[j] == s[j] by {
        assert(j < s.len());
        assert(s[j].name == r[j].name);
        assert(s[j].name != fname);
    }
    assert forall|val: Seq<char>|
        spec_sanitize_has(r, val) == spec_sanitize_has(s, val) by {
        if spec_sanitize_has(r, val) {
            let j = choose|j: int|
                0 <= j < r.len() && opt_matches(r[j], fsan) && r[j].values.contains(val);
            assert(r[j] == s[j]);
        }
        if spec_sanitize_has(s, val) {
            let j = choose|j: int|
                0 <= j < s.len() && opt_matches(s[j], fsan) && s[j].values.contains(val);
            assert(s[j].name != fname);
            assert(r[j] == s[j]);
        }
    }
}

proof fn lemma_singleton_contains(x: Seq<char>, y: Seq<char>)
    ensures
        seq![x].contains(y) <==> x == y,
{
    if seq![x].contains(y) {
        let k = choose|k: int| 0 <= k < seq![x].len() && seq![x][k] == y;
        assert(k == 0);
        assert(seq![x][0] == y);
    }
    assert(seq![x][0] == x);
}

/// What one sanitizer toggle leaves behind: exactly the toggled token joins
/// or leaves the shared `-fsanitize` value list.
proof fn lemma_toggle_char(
    s: Seq<OptionView>,
    enable: bool,
    o: OptionView,
    tok: Seq<char>,
    r: Seq<OptionView>,
)
    requires
        o.name == "-fsanitize"@,
        o.enabled,
        o.has_value,
        o.values == seq![tok],
        r == (if enable {
            spec_add_or_mix(s, o)
        } else {
            spec_remove_value_matches(s, "-fsanitize"@, tok)
        }),
        crate::compiler_option::spec_count_matches(s, "-fsanitize"@) <= 1,
        spec_values_wf(s, "-fsanitize"@),
    ensures
        forall|val: Seq<char>|
            #![trigger spec_sanitize_has(r, val)]
            spec_sanitize_has(r, val) == (if enable {
                spec_sanitize_has(s, val) || val == tok
            } else {
                val != tok && spec_sanitize_has(s, val)
            }),
        spec_values_wf(r, "-fsanitize"@),
        crate::compiler_option::spec_count_matches(r, "-fsanitize"@) <= 1,
        spec_fsan_nonempty(r),
        forall|n: Seq<char>|
            #![trigger crate::compiler_option::spec_count_matches(r, n)]
            n != "-fsanitize"@ ==> crate::compiler_option::spec_count_matches(r, n)
                == crate::compiler_option::spec_count_matches(s, n),
{
    let fsan = "-fsanitize"@;
    assert(o.values[0] == tok);
    assert(o.values.contains(tok));
    assert(o.values.len() == 1);
    if enable {
        lemma_mix_fsan_has(s, o);
        crate::compiler_option::lemma_mix_frame(s, o);
        assert forall|val: Seq<char>|
            spec_sanitize_has(r, val) == (spec_sanitize_has(s, val) || val == tok) by {
            lemma_singleton_contains(tok, val);
            assert(spec_sanitize_has(spec_add_or_mix(s, o), val) == (spec_sanitize_has(s, val)
                || o.values.contains(val)));
        }
        assert forall|n: Seq<char>|
            n != fsan implies crate::compiler_option::spec_count_matches(r, n)
            == crate::compiler_option::spec_count_matches(s, n) by {
            crate::compiler_option::lemma_frame_count(s, r, fsan, n);
        }
    } else {
        lemma_remove_fsan_has(s, tok);
        assert forall|val: Seq<char>|
            spec_sanitize_has(r, val) == (val != tok && spec_sanitize_has(s, val)) by {
            assert(spec_sanitize_has(spec_remove_value_matches(s, "-fsanitize"@, tok), val) == (val
                != tok && spec_sanitize_has(s, val)));
        }
        crate::compiler_option::lemma_remove_preserves_wf(s, fsan, tok, fsan);
        crate::compiler_option::lemma_remove_count_le(s, fsan, tok, fsan);
        crate::compiler_option::lemma_remove_frame(s, fsan, tok);
        assert forall|n: Seq<char>|
            n != fsan implies crate::compiler_option::spec_count_matches(r, n)
            == crate::compiler_option::spec_count_matches(s, n) by {
            crate::compiler_option::lemma_frame_count(s, r, fsan, n);
        }
    }
}

/// What merge-or-insert of a non-`-fsanitize` flag leaves behind: sanitizer
/// intents and other flags' counts unchanged, the flag saturated in one
/// enabled record.
proof fn lemma_other_mix_char(s: Seq<OptionView>, o: OptionView, r: Seq<OptionView>)
    requires
        o.name != "-fsanitize"@,
        o.enabled,
        r == spec_add_or_mix(s, o),
        crate::compiler_option::spec_count_matches(s, o.name) <= 1,
    ensures
        forall|val: Seq<char>|
            #![trigger spec_sanitize_has(r, val)]
            spec_sanitize_has(r, val) == spec_sanitize_has(s, val),
        spec_values_wf(s, "-fsanitize"@) ==> spec_values_wf(r, "-fsanitize"@),
        spec_fsan_nonempty(s) ==> spec_fsan_nonempty(r),
        crate::compiler_option::spec_count_matches(r, "-fsanitize"@)
            == crate::compiler_option::spec_count_matches(s, "-fsanitize"@),
        crate::compiler_option::spec_mix_stable(r, o),
        crate::compiler_option::spec_count_matches(r, o.name) == 1,
        forall|n: Seq<char>|
            #![trigger crate::compiler_option::spec_count_matches(r, n)]
            n != o.name ==> crate::compiler_option::spec_count_matches(r, n)
                == crate::compiler_option::spec_count_matches(s, n),
        forall|p: OptionView|
            #![trigger crate::compiler_option::spec_mix_stable(r, p)]
            p.name != o.name && crate::compiler_option::spec_mix_stable(s, p)
                ==> crate::compiler_option::spec_mix_stable(r, p),
        forall|p: OptionView|
            #![trigger crate::compiler_option::spec_modify_stable(r, p)]
            p.name != o.name && crate::compiler_option::spec_modify_stable(s, p)
                ==> crate::compiler_option::spec_modify_stable(r, p),
{
    crate::compiler_option::lemma_mix_frame(s, o);
    lemma_frame_fsan_has(s, r, o.name);
    crate::compiler_option::lemma_mix_makes_stable(s, o);
    crate::compiler_option::lemma_mix_count_one(s, o);
    crate::compiler_option::lemma_frame_count(s, r, o.name, "-fsanitize"@);
    assert forall|n: Seq<char>|
        n != o.name implies crate::compiler_option::spec_count_matches(r, n)
        == crate::compiler_option::spec_count_matches(s, n) by {
        crate::compiler_option::lemma_frame_count(s, r, o.name, n);
    }
    assert forall|p: OptionView|
        p.name != o.name && crate::compiler_option::spec_mix_stable(s, p)
        implies crate::compiler_option::spec_mix_stable(r, p) by {
        crate::compiler_option::lemma_frame_preserves_mix_stable(s, r, o.name, p);
    }
    assert forall|p: OptionView|
        p.name != o.name && crate::compiler_option::spec_modify_stable(s, p)
        implies crate::compiler_option::spec_modify_stable(r, p) by {
        crate::compiler_option::lemma_frame_preserves_modify_stable(s, r, o.name, p);
    }
}

/// The same shape for replace-or-insert of a non-`-fsanitize` flag.
proof fn lemma_other_modify_char(s: Seq<OptionView>, o: OptionView, r: Seq<OptionView>)
    requires
        o.name != "-fsanitize"@,
        o.enabled,
        r == spec_add_or_modify(s, o),
        crate::compiler_option::spec_count_matches(s, o.name) <= 1,
    ensures
        forall|val: Seq<char>|
            #![trigger spec_sanitize_has(r, val)]
            spec_sanitize_has(r, val) == spec_sanitize_has(s, val),
        spec_values_wf(s, "-fsanitize"@) ==> spec_values_wf(r, "-fsanitize"@),
        spec_fsan_nonempty(s) ==> spec_fsan_nonempty(r),
        crate::compiler_option::spec_count_matches(r, "-fsanitize"@)
            == crate::compiler_option::spec_count_matches(s, "-fsanitize"@),
        crate::compiler_option::spec_modify_stable(r, o),
        forall|p: OptionView|
            #![trigger crate::compiler_option::spec_mix_stable(r, p)]
            p.name != o.name && crate::compiler_option::spec_mix_stable(s, p)
                ==> crate::compiler_option::spec_mix_stable(r, p),
{
    crate::compiler_option::lemma_modify_frame(s, o);
    lemma_frame_fsan_has(s, r, o.name);
    crate::compiler_option::lemma_modify_makes_stable(s, o);
    crate::compiler_option::lemma_frame_count(s, r, o.name, "-fsanitize"@);
    assert forall|p: OptionView|
        p.name != o.name && crate::compiler_option::spec_mix_stable(s, p)
        implies crate::compiler_option::spec_mix_stable(r, p) by {
        crate::compiler_option::lemma_frame_preserves_mix_stable(s, r, o.name, p);
    }
}

/// The same shape for disabling a non-`-fsanitize` flag's records.
proof fn lemma_other_disable_char(s: Seq<OptionView>, dname: Seq<char>, r: Seq<OptionView>)
    requires
        dname != "-fsanitize"@,
        r == spec_disable_matches(s, dname),
    ensures
        forall|val: Seq<char>|
            #![trigger spec_sanitize_has(r, val)]
            spec_sanitize_has(r, val) == spec_sanitize_has(s, val),
        spec_values_wf(s, "-fsanitize"@) ==> spec_values_wf(r, "-fsanitize"@),
        spec_fsan_nonempty(s) ==> spec_fsan_nonempty(r),
        crate::compiler_option::spec_count_matches(r, "-fsanitize"@)
            == crate::compiler_option::spec_count_matches(s, "-fsanitize"@),
        crate::compiler_option::spec_count_matches(r, dname) == 0,
        forall|p: OptionView|
            #![trigger crate::compiler_option::spec_mix_stable(r, p)]
            p.name != dname && crate::compiler_option::spec_mix_stable(s, p)
                ==> crate::compiler_option::spec_mix_stable(r, p),
{
    crate::compiler_option::lemma_disable_frame(s, dname);
    lemma_frame_fsan_has(s, r, dname);
    crate::compiler_option::lemma_disable_count_zero(s, dname);
    crate::compiler_option::lemma_frame_count(s, r, dname, "-fsanitize"@);
    assert forall|p: OptionView|
        p.name != dname && crate::compiler_option::spec_mix_stable(s, p)
        implies crate::compiler_option::spec_mix_stable(r, p) by {
        crate::compiler_option::lemma_frame_preserves_mix_stable(s, r, dname, p);
    }
}

/// The stage's flag names and value tokens are pairwise distinct.
proof fn lemma_sanitizer_name_facts()
    ensures
        "-fno-sanitize-recover"@ != "-fsanitize"@,
        "-fsanitize-undefined-trap-on-error"@ != "-fsanitize"@,
        "-fno-omit-frame-pointer"@ != "-fsanitize"@,
        "-U_FORTIFY_SOURCE"@ != "-fsanitize"@,
        "-fsanitize-coverage"@ != "-fsanitize"@,
        "-fno-sanitize-recover"@ != "-fsanitize-undefined-trap-on-error"@,
        "-fno-sanitize-recover"@ != "-fno-omit-frame-pointer"@,
        "-fno-sanitize-recover"@ != "-U_FORTIFY_SOURCE"@,
        "-fno-sanitize-recover"@ != "-fsanitize-coverage"@,
        "-fsanitize-undefined-trap-on-error"@ != "-fno-omit-frame-pointer"@,
        "-fsanitize-undefined-trap-on-error"@ != "-U_FORTIFY_SOURCE"@,
        "-fsanitize-undefined-trap-on-error"@ != "-fsanitize-coverage"@,
        "-fno-omit-frame-pointer"@ != "-U_FORTIFY_SOURCE"@,
        "-fno-omit-frame-pointer"@ != "-fsanitize-coverage"@,
        "-U_FORTIFY_SOURCE"@ != "-fsanitize-coverage"@,
        "address"@ != "memory"@,
        "address"@ != "undefined"@,
        "address"@ != "trace-pc-guard"@,
        "memory"@ != "undefined"@,
        "memory"@ != "trace-pc-guard"@,
        "undefined"@ != "trace-pc-guard"@,
{
    reveal_strlit("-fsanitize");
    reveal_strlit("-fno-sanitize-recover");
    reveal_strlit("-fsanitize-undefined-trap-on-error");
    reveal_strlit("-fno-omit-frame-pointer");
    reveal_strlit("-U_FORTIFY_SOURCE");
    reveal_strlit("-fsanitize-coverage");
    reveal_strlit("address");
    reveal_strlit("memory");
    reveal_strlit("undefined");
    reveal_strlit("trace-pc-guard");
    assert("-fsanitize"@.len() == 10);
    assert("-fno-sanitize-recover"@.len() == 21);
    assert("-fsanitize-undefined-trap-on-error"@.len() == 34);
    assert("-fno-omit-frame-pointer"@.len() == 23);
    assert("-U_FORTIFY_SOURCE"@.len() == 17);
    assert("-fsanitize-coverage"@.len() == 19);
    assert("address"@.len() == 7);
    assert("memory"@.len() == 6);
    assert("undefined"@.len() == 9);
    assert("trace-pc-guard"@.len() == 14);
}

/// What one application of the stage leaves behind, on collections that
/// hold each stage-managed flag at most once.
#[verifier::rlimit(100)]
#[verifier::spinoff_prover]
proof fn lemma_sanitizer_characterized(v: SanitizerVisitor, s: Seq<OptionView>)
    requires
        spec_values_wf(s, "-fsanitize"@),
        crate::compiler_option::spec_count_matches(s, "-fsanitize"@) <= 1,
        crate::compiler_option::spec_count_matches(s, "-U_FORTIFY_SOURCE"@) <= 1,
        crate::compiler_option::spec_count_matches(s, "-fno-sanitize-recover"@) <= 1,
        crate::compiler_option::spec_count_matches(s, "-fsanitize-undefined-trap-on-error"@) <= 1,
        crate::compiler_option::spec_count_matches(s, "-fno-omit-frame-pointer"@) <= 1,
        crate::compiler_option::spec_count_matches(s, "-fsanitize-coverage"@) <= 1,
    ensures
        spec_values_wf(spec_sanitizer_stage(v, s), "-fsanitize"@),
        crate::compiler_option::spec_count_matches(spec_sanitizer_stage(v, s), "-fsanitize"@)
            <= 1,
        spec_fsan_nonempty(spec_sanitizer_stage(v, s)),
        spec_sanitize_has(spec_sanitizer_stage(v, s), "address"@) == spec_use_asan(v, s),
        spec_sanitize_has(spec_sanitizer_stage(v, s), "memory"@) == spec_use_msan(v, s),
        spec_sanitize_has(spec_sanitizer_stage(v, s), "undefined"@) == spec_use_ubsan(v, s),
        spec_sanitize_has(spec_sanitizer_stage(v, s), "trace-pc-guard"@) == spec_sanitize_has(
            s,
            "trace-pc-guard"@,
        ),
        spec_use_ubsan(v, s) ==> crate::compiler_option::spec_mix_stable(
            spec_sanitizer_stage(v, s),
            spec_from_arg("-fno-sanitize-recover=all"@),
        ) && crate::compiler_option::spec_mix_stable(
            spec_sanitizer_stage(v, s),
            spec_from_arg("-fsanitize-undefined-trap-on-error"@),
        ) && crate::compiler_option::spec_mix_stable(
            spec_sanitizer_stage(v, s),
            spec_from_arg("-fno-omit-frame-pointer"@),
        ),
        crate::compiler_option::spec_mix_stable(
            spec_sanitizer_stage(v, s),
            spec_from_arg("-U_FORTIFY_SOURCE"@),
        ),
        spec_use_cov(v, s) ==> crate::compiler_option::spec_modify_stable(
            spec_sanitizer_stage(v, s),
            spec_from_arg("-fsanitize-coverage=trace-pc-guard"@),
        ),
        !spec_use_cov(v, s) ==> crate::compiler_option::spec_count_matches(
            spec_sanitizer_stage(v, s),
            "-fsanitize-coverage"@,
        ) == 0,
{
    lemma_sanitizer_literal_records();
    lemma_sanitizer_name_facts();
    let fsan = "-fsanitize"@;
    let fort = "-U_FORTIFY_SOURCE"@;
    let rec = "-fno-sanitize-recover"@;
    let trap = "-fsanitize-undefined-trap-on-error"@;
    let fp = "-fno-omit-frame-pointer"@;
    let cov = "-fsanitize-coverage"@;
    let o_addr = spec_from_arg("-fsanitize=address"@);
    let o_mem = spec_from_arg("-fsanitize=memory"@);
    let o_und = spec_from_arg("-fsanitize=undefined"@);
    let o_rec = spec_from_arg("-fno-sanitize-recover=all"@);
    let o_trap = spec_from_arg("-fsanitize-undefined-trap-on-error"@);
    let o_fp = spec_from_arg("-fno-omit-frame-pointer"@);
    let o_fort = spec_from_arg("-U_FORTIFY_SOURCE"@);
    let o_cov = spec_from_arg("-fsanitize-coverage=trace-pc-guard"@);
    let a = spec_use_asan(v, s);
    let m = spec_use_msan(v, s);
    let u = spec_use_ubsan(v, s);
    let c = spec_use_cov(v, s);

    let t1 = spec_toggle(s, a, "-fsanitize=address"@, Seq::empty());
    assert(spec_mix_flags(spec_add_or_mix(s, o_addr), Seq::<Seq<char>>::empty())
        == spec_add_or_mix(s, o_addr));
    lemma_toggle_char(s, a, o_addr, "address"@, t1);
    assert(spec_sanitize_has(t1, "address"@) == a);
    assert(spec_sanitize_has(t1, "memory"@) == spec_sanitize_has(s, "memory"@));
    assert(spec_sanitize_has(t1, "undefined"@) == spec_sanitize_has(s, "undefined"@));
    assert(spec_sanitize_has(t1, "trace-pc-guard"@) == spec_sanitize_has(s, "trace-pc-guard"@));
    assert(crate::compiler_option::spec_count_matches(t1, fort) <= 1);
    assert(crate::compiler_option::spec_count_matches(t1, rec) <= 1);
    assert(crate::compiler_option::spec_count_matches(t1, trap) <= 1);
    assert(crate::compiler_option::spec_count_matches(t1, fp) <= 1);
    assert(crate::compiler_option::spec_count_matches(t1, cov) <= 1);

    let t2 = spec_toggle(t1, m, "-fsanitize=memory"@, Seq::empty());
    assert(spec_mix_flags(spec_add_or_mix(t1, o_mem), Seq::<Seq<char>>::empty())
        == spec_add_or_mix(t1, o_mem));
    lemma_toggle_char(t1, m, o_mem, "memory"@, t2);
    assert(spec_sanitize_has(t2, "address"@) == a);
    assert(spec_sanitize_has(t2, "memory"@) == m);
    assert(spec_sanitize_has(t2, "undefined"@) == spec_sanitize_has(s, "undefined"@));
    assert(spec_sanitize_has(t2, "trace-pc-guard"@) == spec_sanitize_has(s, "trace-pc-guard"@));
    assert(crate::compiler_option::spec_count_matches(t2, fort) <= 1);
    assert(crate::compiler_option::spec_count_matches(t2, rec) <= 1);
    assert(crate::compiler_option::spec_count_matches(t2, trap) <= 1);
    assert(crate::compiler_option::spec_count_matches(t2, fp) <= 1);
    assert(crate::compiler_option::spec_count_matches(t2, cov) <= 1);

    let t3 = spec_toggle(t2, u, "-fsanitize=undefined"@, spec_ubsan_companions());
    if u {
        let m0 = spec_add_or_mix(t2, o_und);
        lemma_toggle_char(t2, true, o_und, "undefined"@, m0);
        let m1 = spec_add_or_mix(m0, o_rec);
        let m2 = spec_add_or_mix(m1, o_trap);
        let m3 = spec_add_or_mix(m2, o_fp);
        lemma_other_mix_char(m0, o_rec, m1);
        lemma_other_mix_char(m1, o_trap, m2);
        lemma_other_mix_char(m2, o_fp, m3);
        let comp = spec_ubsan_companions();
        let c1 = comp.drop_first();
        let c2 = c1.drop_first();
        let c3 = c2.drop_first();
        assert(comp.len() == 3);
        assert(comp[0] == "-fno-sanitize-recover=all"@);
        assert(c1[0] == "-fsanitize-undefined-trap-on-error"@);
        assert(c2[0] == "-fno-omit-frame-pointer"@);
        assert(c3 =~= Seq::<Seq<char>>::empty());
        assert(spec_mix_flags(m0, comp) == spec_mix_flags(m1, c1));
        assert(spec_mix_flags(m1, c1) == spec_mix_flags(m2, c2));
        assert(spec_mix_flags(m2, c2) == spec_mix_flags(m3, c3));
        assert(spec_mix_flags(m3, c3) == m3);
        assert(t3 == m3);
        assert(crate::compiler_option::spec_mix_stable(m1, o_rec));
        assert(crate::compiler_option::spec_mix_stable(m2, o_rec));
        assert(crate::compiler_option::spec_mix_stable(m3, o_rec));
        assert(crate::compiler_option::spec_mix_stable(m2, o_trap));
        assert(crate::compiler_option::spec_mix_stable(m3, o_trap));
        assert(crate::compiler_option::spec_mix_stable(m3, o_fp));
        assert(spec_sanitize_has(m0, "address"@) == a);
        assert(spec_sanitize_has(m1, "address"@) == a);
        assert(spec_sanitize_has(m2, "address"@) == a);
        assert(spec_sanitize_has(t3, "address"@) == a);
        assert(spec_sanitize_has(m0, "memory"@) == m);
        assert(spec_sanitize_has(m1, "memory"@) == m);
        assert(spec_sanitize_has(m2, "memory"@) == m);
        assert(spec_sanitize_has(t3, "memory"@) == m);
        assert(spec_sanitize_has(m0, "undefined"@) == u);
        assert(spec_sanitize_has(m1, "undefined"@) == u);
        assert(spec_sanitize_has(m2, "undefined"@) == u);
        assert(spec_sanitize_has(t3, "undefined"@) == u);
        assert(spec_sanitize_has(m0, "trace-pc-guard"@) == spec_sanitize_has(
            s,
            "trace-pc-guard"@,
        ));
        assert(spec_sanitize_has(m1, "trace-pc-guard"@) == spec_sanitize_has(
            s,
            "trace-pc-guard"@,
        ));
        assert(spec_sanitize_has(m2, "trace-pc-guard"@) == spec_sanitize_has(
            s,
            "trace-pc-guard"@,
        ));
        assert(spec_sanitize_has(t3, "trace-pc-guard"@) == spec_sanitize_has(
            s,
            "trace-pc-guard"@,
        ));
        assert(crate::compiler_option::spec_count_matches(m0, fort) <= 1);
        assert(crate::compiler_option::spec_count_matches(m1, fort) <= 1);
        assert(crate::compiler_option::spec_count_matches(m2, fort) <= 1);
        assert(crate::compiler_option::spec_count_matches(t3, fort) <= 1);
        assert(crate::compiler_option::spec_count_matches(m0, cov) <= 1);
        assert(crate::compiler_option::spec_count_matches(m1, cov) <= 1);
        assert(crate::compiler_option::spec_count_matches(m2, cov) <= 1);
        assert(crate::compiler_option::spec_count_matches(t3, cov) <= 1);
        assert(crate::compiler_option::spec_count_matches(t3, fsan) <= 1);
        assert(spec_values_wf(t3, fsan));
        assert(spec_fsan_nonempty(t3));
    } else {
        lemma_toggle_char(t2, false, o_und, "undefined"@, t3);
        assert(spec_sanitize_has(t3, "address"@) == a);
        assert(spec_sanitize_has(t3, "memory"@) == m);
        assert(spec_sanitize_has(t3, "undefined"@) == u);
        assert(spec_sanitize_has(t3, "trace-pc-guard"@) == spec_sanitize_has(
            s,
            "trace-pc-guard"@,
        ));
        assert(crate::compiler_option::spec_count_matches(t3, fort) <= 1);
        assert(crate::compiler_option::spec_count_matches(t3, cov) <= 1);
    }

    let t4 = spec_add_or_mix(t3, o_fort);
    lemma_other_mix_char(t3, o_fort, t4);
    assert(spec_sanitize_has(t4, "address"@) == a);
    assert(spec_sanitize_has(t4, "memory"@) == m);
    assert(spec_sanitize_has(t4, "undefined"@) == u);
    assert(spec_sanitize_has(t4, "trace-pc-guard"@) == spec_sanitize_has(s, "trace-pc-guard"@));
    assert(crate::compiler_option::spec_mix_stable(t4, o_fort));
    if u {
        assert(crate::compiler_option::spec_mix_stable(t4, o_rec));
        assert(crate::compiler_option::spec_mix_stable(t4, o_trap));
        assert(crate::compiler_option::spec_mix_stable(t4, o_fp));
    }
    assert(crate::compiler_option::spec_count_matches(t4, cov) <= 1);

    let r = spec_sanitizer_stage(v, s);
    if c {
        assert(r == spec_add_or_modify(t4, o_cov));
        lemma_other_modify_char(t4, o_cov, r);
        assert(crate::compiler_option::spec_mix_stable(r, o_fort));
        if u {
            assert(crate::compiler_option::spec_mix_stable(r, o_rec));
            assert(crate::compiler_option::spec_mix_stable(r, o_trap));
            assert(crate::compiler_option::spec_mix_stable(r, o_fp));
        }
    } else {
        assert(r == spec_disable_matches(t4, cov));
        lemma_other_disable_char(t4, cov, r);
        assert(crate::compiler_option::spec_mix_stable(r, o_fort));
        if u {
            assert(crate::compiler_option::spec_mix_stable(r, o_rec));
            assert(crate::compiler_option::spec_mix_stable(r, o_trap));
            assert(crate::compiler_option::spec_mix_stable(r, o_fp));
        }
    }
    assert(spec_sanitize_has(r, "address"@) == a);
    assert(spec_sanitize_has(r, "memory"@) == m);
    assert(spec_sanitize_has(r, "undefined"@) == u);
    assert(spec_sanitize_has(r, "trace-pc-guard"@) == spec_sanitize_has(s, "trace-pc-guard"@));
}

/// Sanitizer reconciliation is idempotent: applying the stage to its own
/// output produces no further change, on any collection that holds each
/// stage-managed flag name at most once among its enabled records (the
/// stage itself never leaves more than one).
#[verifier::rlimit(100)]
#[verifier::spinoff_prover]
pub proof fn lemma_sanitizer_idempotent(v: SanitizerVisitor, s: Seq<OptionView>)
    requires
        spec_values_wf(s, "-fsanitize"@),
        crate::compiler_option::spec_count_matches(s, "-fsanitize"@) <= 1,
        crate::compiler_option::spec_count_matches(s, "-U_FORTIFY_SOURCE"@) <= 1,
        crate::compiler_option::spec_count_matches(s, "-fno-sanitize-recover"@) <= 1,
        crate::compiler_option::spec_count_matches(s, "-fsanitize-undefined-trap-on-error"@) <= 1,
        crate::compiler_option::spec_count_matches(s, "-fno-omit-frame-pointer"@) <= 1,
        crate::compiler_option::spec_count_matches(s, "-fsanitize-coverage"@) <= 1,
    ensures
        spec_sanitizer_stage(v, spec_sanitizer_stage(v, s)) == spec_sanitizer_stage(v, s),
{
    lemma_sanitizer_literal_records();
    lemma_sanitizer_name_facts();
    lemma_sanitizer_characterized(v, s);
    let fsan = "-fsanitize"@;
    let o_addr = spec_from_arg("-fsanitize=address"@);
    let o_mem = spec_from_arg("-fsanitize=memory"@);
    let o_und = spec_from_arg("-fsanitize=undefined"@);
    let o_rec = spec_from_arg("-fno-sanitize-recover=all"@);
    let o_trap = spec_from_arg("-fsanitize-undefined-trap-on-error"@);
    let o_fp = spec_from_arg("-fno-omit-frame-pointer"@);
    let o_fort = spec_from_arg("-U_FORTIFY_SOURCE"@);
    let o_cov = spec_from_arg("-fsanitize-coverage=trace-pc-guard"@);
    let a = spec_use_asan(v, s);
    let m = spec_use_msan(v, s);
    let u = spec_use_ubsan(v, s);
    let c = spec_use_cov(v, s);
    let r = spec_sanitizer_stage(v, s);
    assert(spec_use_asan(v, r) == a);
    assert(spec_use_msan(v, r) == m);
    assert(spec_use_ubsan(v, r) == u);
    assert(spec_use_cov(v, r) == c);

    // each sanitizer toggle is a no-op on the stage's own output
    assert forall|o: OptionView, tok: Seq<char>|
        #![trigger spec_add_or_mix(r, o), seq![tok]]
        o.name == fsan && o.enabled && o.has_value && o.values == seq![tok]
            && spec_sanitize_has(r, tok) implies spec_add_or_mix(r, o) == r by {
        crate::compiler_option::lemma_count_pos_exists(r, fsan);
        let j0 = choose|j: int|
            0 <= j < r.len() && opt_matches(r[j], fsan) && r[j].values.contains(tok);
        assert(crate::compiler_option::spec_count_matches(r, fsan) == 1);
        crate::compiler_option::lemma_unique_match(r, fsan);
        assert forall|i: int|
            0 <= i < r.len() && opt_matches(r[i], fsan) && r[i].has_value implies (forall|k: int|
            0 <= k < o.values.len() ==> r[i].values.contains(o.values[k])) by {
            assert(i == j0);
            assert(o.values[0] == tok);
        }
        assert forall|i: int|
            0 <= i < r.len() && opt_matches(r[i], fsan) && !r[i].has_value implies r[i].values
            == o.values by {
            assert(r[i].has_value);
        }
        crate::compiler_option::lemma_mix_noop(r, o);
    }
    assert forall|tok: Seq<char>|
        #![trigger spec_remove_value_matches(r, fsan, tok)]
        !spec_sanitize_has(r, tok) implies spec_remove_value_matches(r, fsan, tok) == r by {
        assert forall|i: int|
            0 <= i < r.len() && opt_matches(r[i], fsan) implies !r[i].values.contains(tok)
            && r[i].values.len() > 0 by {
            if r[i].values.contains(tok) {
                assert(spec_sanitize_has(r, tok));
            }
        }
        crate::compiler_option::lemma_remove_matches_noop(r, fsan, tok);
    }

    let w1 = spec_toggle(r, a, "-fsanitize=address"@, Seq::empty());
    assert(spec_mix_flags(spec_add_or_mix(r, o_addr), Seq::<Seq<char>>::empty())
        == spec_add_or_mix(r, o_addr));
    assert(seq!["address"@][0] == "address"@);
    assert(w1 == r) by {
        if a {
            assert(spec_sanitize_has(r, "address"@));
            assert(spec_add_or_mix(r, o_addr) == r);
        } else {
            assert(spec_remove_value_matches(r, fsan, "address"@) == r);
        }
    }
    let w2 = spec_toggle(r, m, "-fsanitize=memory"@, Seq::empty());
    assert(spec_mix_flags(spec_add_or_mix(r, o_mem), Seq::<Seq<char>>::empty())
        == spec_add_or_mix(r, o_mem));
    assert(w2 == r) by {
        if m {
            assert(spec_add_or_mix(r, o_mem) == r);
        } else {
            assert(spec_remove_value_matches(r, fsan, "memory"@) == r);
        }
    }
    let w3 = spec_toggle(r, u, "-fsanitize=undefined"@, spec_ubsan_companions());
    assert(w3 == r) by {
        if u {
            assert(spec_add_or_mix(r, o_und) == r);
            crate::compiler_option::lemma_mix_noop(r, o_rec);
            crate::compiler_option::lemma_mix_noop(r, o_trap);
            crate::compiler_option::lemma_mix_noop(r, o_fp);
            let comp = spec_ubsan_companions();
            let c1 = comp.drop_first();
            let c2 = c1.drop_first();
            let c3 = c2.drop_first();
            assert(comp[0] == "-fno-sanitize-recover=all"@);
            assert(c1[0] == "-fsanitize-undefined-trap-on-error"@);
            assert(c2[0] == "-fno-omit-frame-pointer"@);
            assert(c3 =~= Seq::<Seq<char>>::empty());
            assert(spec_mix_flags(r, comp) == spec_mix_flags(spec_add_or_mix(r, o_rec), c1));
            assert(spec_mix_flags(r, c1) == spec_mix_flags(spec_add_or_mix(r, o_trap), c2));
            assert(spec_mix_flags(r, c2) == spec_mix_flags(spec_add_or_mix(r, o_fp), c3));
            assert(spec_mix_flags(r, c3) == r);
        } else {
            assert(spec_remove_value_matches(r, fsan, "undefined"@) == r);
        }
    }
    let w4 = spec_add_or_mix(r, o_fort);
    assert(w4 == r) by {
        crate::compiler_option::lemma_mix_noop(r, o_fort);
    }
    let w5 = spec_sanitizer_stage(v, r);
    assert(w5 == r) by {
        if c {
            crate::compiler_option::lemma_modify_noop(r, o_cov);
        } else {
            crate::compiler_option::lemma_count_pos_exists(r, "-fsanitize-coverage"@);
            assert(forall|i: int|
                0 <= i < r.len() ==> !opt_matches(r[i], "-fsanitize-coverage"@));
            crate::compiler_option::lemma_disable_matches_noop(r, "-fsanitize-coverage"@);
        }
    }
}

/// The whole reconciliation stage never adds an ill-formed `-fsanitize`
/// record.
pub proof fn lemma_sanitizer_preserves_wf(v: SanitizerVisitor, s: Seq<OptionView>)
    requires
        spec_values_wf(s, "-fsanitize"@),
    ensures
        spec_values_wf(spec_sanitizer_stage(v, s), "-fsanitize"@),
{
    reveal_strlit("-fsanitize");
    reveal_strlit("-fsanitize=address");
    reveal_strlit("-fsanitize=memory");
    reveal_strlit("-fsanitize=undefined");
    reveal_strlit("-fno-sanitize-recover=all");
    reveal_strlit("-fsanitize-undefined-trap-on-error");
    reveal_strlit("-fno-omit-frame-pointer");
    reveal_strlit("-U_FORTIFY_SOURCE");
    reveal_strlit("-fsanitize-coverage=trace-pc-guard");
    reveal_strlit("-fsanitize-coverage");
    assert("-fsanitize"@.len() == 10);
    assert("-fsanitize=address"@.len() == 18);
    assert("-fsanitize=memory"@.len() == 17);
    assert("-fsanitize=undefined"@.len() == 20);
    assert("-fno-sanitize-recover=all"@.len() == 25);
    assert("-fsanitize-undefined-trap-on-error"@.len() == 34);
    assert("-fno-omit-frame-pointer"@.len() == 23);
    assert("-U_FORTIFY_SOURCE"@.len() == 17);
    assert("-fsanitize-coverage=trace-pc-guard"@.len() == 34);
    let s1 = spec_toggle(s, spec_use_asan(v, s), "-fsanitize=address"@, Seq::empty());
    let s2 = spec_toggle(s1, spec_use_msan(v, s), "-fsanitize=memory"@, Seq::empty());
    let s3 = spec_toggle(s2, spec_use_ubsan(v, s), "-fsanitize=undefined"@, spec_ubsan_companions());
    lemma_toggle_preserves_wf(s, spec_use_asan(v, s), "-fsanitize=address"@, Seq::empty());
    lemma_toggle_preserves_wf(s1, spec_use_msan(v, s), "-fsanitize=memory"@, Seq::empty());
    lemma_toggle_preserves_wf(
        s2,
        spec_use_ubsan(v, s),
        "-fsanitize=undefined"@,
        spec_ubsan_companions(),
    );
    lemma_from_arg_wf("-U_FORTIFY_SOURCE"@, "-fsanitize"@);
    lemma_mix_preserves_wf(s3, spec_from_arg("-U_FORTIFY_SOURCE"@), "-fsanitize"@);
    let s4 = spec_add_or_mix(s3, spec_from_arg("-U_FORTIFY_SOURCE"@));
    if spec_use_cov(v, s) {
        lemma_from_arg_wf("-fsanitize-coverage=trace-pc-guard"@, "-fsanitize"@);
        crate::compiler_option::lemma_modify_preserves_wf(
            s4,
            spec_from_arg("-fsanitize-coverage=trace-pc-guard"@),
            "-fsanitize"@,
        );
    } else {
        crate::compiler_option::lemma_disable_preserves_wf(s4, "-fsanitize-coverage"@, "-fsanitize"@);
    }
}

proof fn lemma_mix_flags_preserves_wf(s: Seq<OptionView>, fs: Seq<Seq<char>>)
    requires
        spec_values_wf(s, "-fsanitize"@),
        forall|k: int| 0 <= k < fs.len() ==> fs[k] != "-fsanitize"@,
    ensures
        spec_values_wf(spec_mix_flags(s, fs), "-fsanitize"@),
    decreases fs.len(),
{
    if fs.len() > 0 {
        lemma_from_arg_wf(fs[0], "-fsanitize"@);
        lemma_mix_preserves_wf(s, spec_from_arg(fs[0]), "-fsanitize"@);
        let t = fs.drop_first();
        assert(forall|k: int| 0 <= k < t.len() ==> t[k] == fs[k + 1] && t[k] != "-fsanitize"@);
        lemma_mix_flags_preserves_wf(spec_add_or_mix(s, spec_from_arg(fs[0])), t);
    }
}

} // verus!
