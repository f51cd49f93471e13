//! Optimization canonicalization stage: exactly one effective optimization
//! level must reach the final command. The highest requested level wins,
//! an explicit configured level in range overrides it, every existing `-O*`
//! record is removed, and one canonical flag is re-inserted; level 3 also
//! brings `-funroll-loops`. The default level is 0.

use vstd::prelude::*;
use crate::compiler_option::{CompilerOption, OptionManagement, OptionView, spec_has_enabled,
    spec_plain};
use crate::error::{ErrorView, RewriteError};
use crate::text;
use super::OptionVisitor;

verus! {

pub struct DefaultOptimizationVisitor {
    /// The level the stage resolved, set by `init`.
    pub optimization_level: Option<u8>,
    /// The configured override, in place of an ambient environment read.
    pub env_level: Option<u8>,
}

/// The highest optimization level the collection itself requests.
pub open spec fn spec_requested_level(s: Seq<OptionView>) -> Option<u8> {
    if spec_has_enabled(s, "-O3"@) {
        Some(3u8)
    } else if spec_has_enabled(s, "-O2"@) {
        Some(2u8)
    } else if spec_has_enabled(s, "-O1"@) {
        Some(1u8)
    } else if spec_has_enabled(s, "-O0"@) {
        Some(0u8)
    } else {
        None
    }
}

/// The requested level overridden by a configured level in range `[0, 3]`.
pub open spec fn spec_resolved_level(s: Seq<OptionView>, env: Option<u8>) -> Option<u8> {
    if env matches Some(l) && l <= 3 {
        env
    } else {
        spec_requested_level(s)
    }
}

/// Every record whose name begins with `-O` removed.
pub open spec fn spec_remove_opt_flags(s: Seq<OptionView>) -> Seq<OptionView>
    decreases s.len(),
{
    if s.len() == 0 {
        Seq::empty()
    } else if text::spec_starts_with(s[0].name, "-O"@) {
        spec_remove_opt_flags(s.drop_first())
    } else {
        seq![s[0]] + spec_remove_opt_flags(s.drop_first())
    }
}

/// The canonical records for one resolved level.
pub open spec fn spec_push_level(s: Seq<OptionView>, lv: u8) -> Seq<OptionView> {
    if lv == 1 {
        s.push(spec_plain("-O1"@))
    } else if lv == 2 {
        s.push(spec_plain("-O2"@))
    } else if lv == 3 {
        s.push(spec_plain("-O3"@)).push(spec_plain("-funroll-loops"@))
    } else {
        s.push(spec_plain("-O0"@))
    }
}

/// The whole canonicalization stage.
pub open spec fn spec_optimization_stage(env: Option<u8>, s: Seq<OptionView>) -> Seq<OptionView> {
    let lv = match spec_resolved_level(s, env) {
        Some(l) => l,
        None => 0u8,
    };
    spec_push_level(spec_remove_opt_flags(s), lv)
}

/// How many enabled records whose name begins with `-O` the collection
/// holds.
pub open spec fn spec_count_o_flags(s: Seq<OptionView>) -> nat
    decreases s.len(),
{
    if s.len() == 0 {
        0
    } else {
        (if s[0].enabled && text::spec_starts_with(s[0].name, "-O"@) {
            1nat
        } else {
            0nat
        }) + spec_count_o_flags(s.drop_first())
    }
}

proof fn lemma_remove_opt_no_o(s: Seq<OptionView>)
    ensures
        spec_count_o_flags(spec_remove_opt_flags(s)) == 0,
    decreases s.len(),
{
    if s.len() > 0 {
        let t = s.drop_first();
        lemma_remove_opt_no_o(t);
        if !text::spec_starts_with(s[0].name, "-O"@) {
            let r = seq![s[0]] + spec_remove_opt_flags(t);
            assert(r.drop_first() =~= spec_remove_opt_flags(t));
            assert(r[0] == s[0]);
        }
    }
}

proof fn lemma_count_o_push(s: Seq<OptionView>, o: OptionView)
    ensures
        spec_count_o_flags(s.push(o)) == spec_count_o_flags(s) + (if o.enabled
            && text::spec_starts_with(o.name, "-O"@) {
            1nat
        } else {
            0nat
        }),
    decreases s.len(),
{
    if s.len() == 0 {
        assert(s.push(o)[0] == o);
        assert(s.push(o).drop_first() =~= Seq::<OptionView>::empty());
        assert(spec_count_o_flags(Seq::<OptionView>::empty()) == 0);
        assert(spec_count_o_flags(s) == 0);
    } else {
        let t = s.drop_first();
        lemma_count_o_push(t, o);
        assert(s.push(o).drop_first() =~= t.push(o));
        assert(s.push(o)[0] == s[0]);
        assert(spec_count_o_flags(s.push(o)) == (if s[0].enabled && text::spec_starts_with(
            s[0].name,
            "-O"@,
        ) {
            1nat
        } else {
            0nat
        }) + spec_count_o_flags(t.push(o)));
    }
}

proof fn lemma_remove_opt_sub_enabled(s: Seq<OptionView>, name: Seq<char>)
    ensures
        spec_has_enabled(spec_remove_opt_flags(s), name) ==> spec_has_enabled(s, name),
    decreases s.len(),
{
    if s.len() > 0 {
        let t = s.drop_first();
        lemma_remove_opt_sub_enabled(t, name);
        assert(forall|i: int| 0 <= i < t.len() ==> t[i] == s[i + 1]);
        if !text::spec_starts_with(s[0].name, "-O"@) {
            let r = seq![s[0]] + spec_remove_opt_flags(t);
            if spec_has_enabled(r, name) {
                let i = choose|i: int|
                    0 <= i < r.len() && crate::compiler_option::opt_matches(r[i], name);
                if i > 0 {
                    assert(crate::compiler_option::opt_matches(
                        spec_remove_opt_flags(t)[i - 1],
                        name,
                    ));
                }
            }
        }
    }
}

/// Optimization canonicalization is total and deterministic, and for every
/// input combination of `-O0`..`-O3` flags and optional override the output
/// holds exactly one enabled `-O`-prefixed flag; `-funroll-loops` is
/// present, on inputs that did not already carry it, exactly when the
/// resolved level is 3.
pub proof fn lemma_optimization_canonical(env: Option<u8>, s: Seq<OptionView>)
    ensures
        spec_count_o_flags(spec_optimization_stage(env, s)) == 1,
        !spec_has_enabled(s, "-funroll-loops"@) ==> (spec_has_enabled(
            spec_optimization_stage(env, s),
            "-funroll-loops"@,
        ) <==> (match spec_resolved_level(s, env) {
            Some(l) => l,
            None => 0u8,
        }) == 3),
{
    reveal_strlit("-O");
    reveal_strlit("-O0");
    reveal_strlit("-O1");
    reveal_strlit("-O2");
    reveal_strlit("-O3");
    reveal_strlit("-funroll-loops");
    let lv = match spec_resolved_level(s, env) {
        Some(l) => l,
        None => 0u8,
    };
    let base = spec_remove_opt_flags(s);
    let out = spec_optimization_stage(env, s);
    lemma_remove_opt_no_o(s);
    lemma_remove_opt_sub_enabled(s, "-funroll-loops"@);
    assert(text::spec_starts_with("-O0"@, "-O"@));
    assert(text::spec_starts_with("-O1"@, "-O"@));
    assert(text::spec_starts_with("-O2"@, "-O"@));
    assert(text::spec_starts_with("-O3"@, "-O"@));
    assert(!text::spec_starts_with("-funroll-loops"@, "-O"@)) by {
        assert("-funroll-loops"@[1] == 'f');
        assert("-O"@[1] == 'O');
    }
    if lv == 3 {
        let mid = base.push(spec_plain("-O3"@));
        lemma_count_o_push(base, spec_plain("-O3"@));
        lemma_count_o_push(mid, spec_plain("-funroll-loops"@));
        assert(out == mid.push(spec_plain("-funroll-loops"@)));
        assert(crate::compiler_option::opt_matches(out[out.len() - 1], "-funroll-loops"@));
    } else {
        if lv == 1 {
            lemma_count_o_push(base, spec_plain("-O1"@));
        } else if lv == 2 {
            lemma_count_o_push(base, spec_plain("-O2"@));
        } else {
            lemma_count_o_push(base, spec_plain("-O0"@));
        }
        if !spec_has_enabled(s, "-funroll-loops"@) && spec_has_enabled(out, "-funroll-loops"@) {
            let i = choose|i: int|
                0 <= i < out.len() && crate::compiler_option::opt_matches(
                    out[i],
                    "-funroll-loops"@,
                );
            assert(i < base.len());
            assert(crate::compiler_option::opt_matches(base[i], "-funroll-loops"@));
        }
    }
}

/// Canonicalization never adds an ill-formed `-fsanitize` record.
pub proof fn lemma_optimization_preserves_wf(env: Option<u8>, s: Seq<OptionView>)
    requires
        crate::compiler_option::spec_values_wf(s, "-fsanitize"@),
    ensures
        crate::compiler_option::spec_values_wf(spec_optimization_stage(env, s), "-fsanitize"@),
{
    reveal_strlit("-fsanitize");
    reveal_strlit("-O0");
    reveal_strlit("-O1");
    reveal_strlit("-O2");
    reveal_strlit("-O3");
    reveal_strlit("-funroll-loops");
    assert("-fsanitize"@.len() == 10);
    assert("-O0"@.len() == 3);
    assert("-O1"@.len() == 3);
    assert("-O2"@.len() == 3);
    assert("-O3"@.len() == 3);
    assert("-funroll-loops"@.len() == 14);
    lemma_remove_opt_preserves_wf(s, "-fsanitize"@);
}

proof fn lemma_remove_opt_preserves_wf(s: Seq<OptionView>, name: Seq<char>)
    requires
        crate::compiler_option::spec_values_wf(s, name),
    ensures
        crate::compiler_option::spec_values_wf(spec_remove_opt_flags(s), name),
    decreases s.len(),
{
    if s.len() > 0 {
        let t = s.drop_first();
        assert(forall|i: int| 0 <= i < t.len() ==> t[i] == s[i + 1]);
        lemma_remove_opt_preserves_wf(t, name);
        if !text::spec_starts_with(s[0].name, "-O"@) {
            assert(spec_remove_opt_flags(s) == seq![s[0]] + spec_remove_opt_flags(t));
        }
    }
}

/// The level a configured override string denotes, when it parses as a
/// decimal integer in range `[0, 3]`.
pub open spec fn spec_parse_opt_level(s: Seq<char>) -> Option<u8> {
    match text::spec_parse_u32(s) {
        Some(v) => if v <= 3 {
            Some(v as u8)
        } else {
            None
        },
        None => None,
    }
}

/// Parses a configured optimization-level override; out-of-range and
/// malformed values are ignored.
pub fn parse_opt_level(s: &str) -> (r: Option<u8>)
    ensures
        r == spec_parse_opt_level(s@),
{
    match text::parse_u32(s) {
        Some(v) => if v <= 3 {
            Some(v as u8)
        } else {
            None
        },
        None => None,
    }
}

/// Removes every `-O`-prefixed record.
pub fn disable_optimization_options(options: &mut Vec<CompilerOption>)
    ensures
        final(options).deep_view() == spec_remove_opt_flags(old(options).deep_view()),
{
    let ghost s = old(options).deep_view();
    let mut kept: Vec<CompilerOption> = Vec::new();
    let mut i: usize = 0;
    proof {
        assert(s.skip(0) =~= s);
        assert(kept.deep_view() + spec_remove_opt_flags(s) =~~= spec_remove_opt_flags(s));
    }
    while i < options.len()
        invariant
            i <= s.len(),
            options == old(options),
            s == options.deep_view(),
            spec_remove_opt_flags(s) =~~= kept.deep_view() + spec_remove_opt_flags(
                s.skip(i as int),
            ),
        decreases s.len() - i,
    {
        let ghost pre = kept.deep_view();
        proof {
            assert(s.skip(i as int).drop_first() =~= s.skip(i as int + 1));
            assert(s.skip(i as int)[0] == s[i as int]);
        }
        if !text::str_starts_with(options[i].name.as_str(), "-O") {
            kept.push(options[i].clone());
            proof {
                assert(kept.deep_view() =~~= pre.push(s[i as int]));
                assert(pre + (seq![s[i as int]] + spec_remove_opt_flags(s.skip(i as int + 1)))
                    =~~= pre.push(s[i as int]) + spec_remove_opt_flags(s.skip(i as int + 1)));
            }
        }
        i = i + 1;
    }
    proof {
        assert(s.skip(s.len() as int) =~= Seq::<OptionView>::empty());
    }
    *options = kept;
}

/// Inserts the canonical `-O0` flag.
pub fn enable_o0(options: &mut Vec<CompilerOption>)
    ensures
        final(options).deep_view() == old(options).deep_view().push(spec_plain("-O0"@)),
{
    options.push(CompilerOption::new("-O0"));
    proof {
        assert(options.deep_view() =~~= old(options).deep_view().push(spec_plain("-O0"@)));
    }
}

/// Inserts the canonical `-O1` flag.
pub fn enable_o1(options: &mut Vec<CompilerOption>)
    ensures
        final(options).deep_view() == old(options).deep_view().push(spec_plain("-O1"@)),
{
    options.push(CompilerOption::new("-O1"));
    proof {
        assert(options.deep_view() =~~= old(options).deep_view().push(spec_plain("-O1"@)));
    }
}

/// Inserts the canonical `-O2` flag.
pub fn enable_o2(options: &mut Vec<CompilerOption>)
    ensures
        final(options).deep_view() == old(options).deep_view().push(spec_plain("-O2"@)),
{
    options.push(CompilerOption::new("-O2"));
    proof {
        assert(options.deep_view() =~~= old(options).deep_view().push(spec_plain("-O2"@)));
    }
}

/// Inserts the canonical `-O3` flag together with `-funroll-loops`.
pub fn enable_o3(options: &mut Vec<CompilerOption>)
    ensures
        final(options).deep_view() == old(options).deep_view().push(spec_plain("-O3"@)).push(
            spec_plain("-funroll-loops"@),
        ),
{
    options.push(CompilerOption::new("-O3"));
    options.push(CompilerOption::new("-funroll-loops"));
    proof {
        assert(options.deep_view() =~~= old(options).deep_view().push(spec_plain("-O3"@)).push(
            spec_plain("-funroll-loops"@),
        ));
    }
}

impl DefaultOptimizationVisitor {
    /// A stage with no configured override.
    pub fn new() -> (r: Self)
        ensures
            r.optimization_level is None,
            r.env_level is None,
    {
        DefaultOptimizationVisitor { optimization_level: None, env_level: None }
    }

    /// A stage with the configured override already parsed and range-checked.
    pub fn with_env_level(env_level: Option<u8>) -> (r: Self)
        ensures
            r.optimization_level is None,
            r.env_level == env_level,
    {
        DefaultOptimizationVisitor { optimization_level: None, env_level }
    }

    /// Resolves the effective level from the collection and the override.
    pub fn init(&mut self, options: &Vec<CompilerOption>)
        ensures
            final(self).optimization_level == spec_resolved_level(
                options.deep_view(),
                old(self).env_level,
            ),
            final(self).env_level == old(self).env_level,
    {
        let mut level: Option<u8> = None;
        if options.has_enabled("-O3") {
            level = Some(3);
        } else if options.has_enabled("-O2") {
            level = Some(2);
        } else if options.has_enabled("-O1") {
            level = Some(1);
        } else if options.has_enabled("-O0") {
            level = Some(0);
        }
        match self.env_level {
            Some(l) => {
                if l <= 3 {
                    level = Some(l);
                }
            },
            None => {},
        }
        self.optimization_level = level;
    }
}

impl OptionVisitor for DefaultOptimizationVisitor {
    open spec fn ready(&self, s: Seq<OptionView>) -> bool {
        true
    }

    open spec fn outcome(&self, s: Seq<OptionView>) -> Result<Seq<OptionView>, ErrorView> {
        Ok(spec_optimization_stage(self.env_level, s))
    }

    fn visit(&mut self, options: &mut Vec<CompilerOption>) -> (r: Result<(), RewriteError>) {
        self.init(options);
        disable_optimization_options(options);
        match self.optimization_level {
            Some(1) => enable_o1(options),
            Some(2) => enable_o2(options),
            Some(3) => enable_o3(options),
            _ => enable_o0(options),
        }
        Ok(())
    }
}

} // verus!
