//! A minimal AddressSanitizer stage: ensures the `address` value is present
//! in the first `-fsanitize` record, or appends a fresh one.

use vstd::prelude::*;
use crate::compiler_option::{CompilerOption, OptionManagement, OptionView, spec_from_arg,
    spec_opt_add_value};
use crate::error::{ErrorView, RewriteError};
use crate::text;
use super::OptionVisitor;

verus! {

pub struct AsanVisitor {}

/// Index of the first record, enabled or not, with this name; -1 if none.
pub open spec fn spec_first_named(s: Seq<OptionView>, name: Seq<char>) -> int
    decreases s.len(),
{
    if s.len() == 0 {
        -1
    } else if s[0].name == name {
        0
    } else {
        let r = spec_first_named(s.drop_first(), name);
        if r < 0 {
            -1
        } else {
            r + 1
        }
    }
}

/// The whole stage: `address` merged into the first `-fsanitize` record, or
/// a fresh `-fsanitize=address` record appended.
pub open spec fn spec_asan_stage(s: Seq<OptionView>) -> Seq<OptionView> {
    let i = spec_first_named(s, "-fsanitize"@);
    if i >= 0 {
        s.update(i, spec_opt_add_value(s[i], "address"@))
    } else {
        s.push(spec_from_arg("-fsanitize=address"@))
    }
}

proof fn lemma_first_named_at(s: Seq<OptionView>, name: Seq<char>, k: int)
    requires
        0 <= k < s.len(),
        s[k].name == name,
        forall|j: int| 0 <= j < k ==> s[j].name != name,
    ensures
        spec_first_named(s, name) == k,
    decreases k,
{
    if k > 0 {
        let t = s.drop_first();
        assert(forall|j: int| 0 <= j < k - 1 ==> t[j] == s[j + 1] && t[j].name != name);
        assert(t[k - 1] == s[k]);
        lemma_first_named_at(t, name, k - 1);
    }
}

proof fn lemma_first_named_none(s: Seq<OptionView>, name: Seq<char>)
    requires
        forall|j: int| 0 <= j < s.len() ==> s[j].name != name,
    ensures
        spec_first_named(s, name) < 0,
    decreases s.len(),
{
    if s.len() > 0 {
        let t = s.drop_first();
        assert(forall|j: int| 0 <= j < t.len() ==> t[j] == s[j + 1] && t[j].name != name);
        lemma_first_named_none(t, name);
    }
}

impl AsanVisitor {
    pub fn new() -> (r: Self) {
        AsanVisitor {  }
    }
}

impl OptionVisitor for AsanVisitor {
    /// The first `-fsanitize` record, if any, must be value-bearing, so the
    /// merge is defined on it.
    open spec fn ready(&self, s: Seq<OptionView>) -> bool {
        spec_first_named(s, "-fsanitize"@) >= 0 ==> s[spec_first_named(
            s,
            "-fsanitize"@,
        )].has_value
    }

    open spec fn outcome(&self, s: Seq<OptionView>) -> Result<Seq<OptionView>, ErrorView> {
        Ok(spec_asan_stage(s))
    }

    fn visit(&mut self, options: &mut Vec<CompilerOption>) -> (r: Result<(), RewriteError>) {
        let ghost s = options.deep_view();
        let mut i: usize = 0;
        while i < options.len()
            invariant
                i <= s.len(),
                s == options.deep_view(),
                forall|j: int| 0 <= j < i ==> s[j].name != "-fsanitize"@,
            decreases s.len() - i,
        {
            proof {
                assert(options.deep_view()[i as int] == options@[i as int]@);
            }
            if text::string_eq(&options[i].name, "-fsanitize") {
                proof {
                    lemma_first_named_at(s, "-fsanitize"@, i as int);
                }
                let o = &mut options[i];
                o.add_or_update_value("address");
                proof {
                    assert(options.deep_view() =~~= spec_asan_stage(s));
                }
                return Ok(());
            }
            i = i + 1;
        }
        proof {
            lemma_first_named_none(s, "-fsanitize"@);
        }
        options.push(CompilerOption::from_arg("-fsanitize=address"));
        proof {
            assert(options.deep_view() =~~= spec_asan_stage(s));
        }
        Ok(())
    }
}

} // verus!
