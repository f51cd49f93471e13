//! The pipeline driver's collection owner: parses raw arguments into flag
//! records, drops disabled records between stages, and serializes the
//! surviving records back into an argument list.

use vstd::prelude::*;
use crate::compiler_option::{CompilerOption, OptionView, spec_from_arg};
use crate::text;

verus! {

/// The argument a record serializes to: `name=v1,v2` when value-bearing,
/// the bare name otherwise.
pub open spec fn spec_render(o: OptionView) -> Seq<char> {
    if o.has_value {
        o.name + seq!['='] + text::spec_join(o.values, ',')
    } else {
        o.name
    }
}

/// The serialized command: only enabled records survive.
pub open spec fn spec_command(s: Seq<OptionView>) -> Seq<Seq<char>>
    decreases s.len(),
{
    if s.len() == 0 {
        Seq::empty()
    } else if s[0].enabled {
        seq![spec_render(s[0])] + spec_command(s.drop_first())
    } else {
        spec_command(s.drop_first())
    }
}

/// The collection with disabled records dropped.
pub open spec fn spec_cleanup(s: Seq<OptionView>) -> Seq<OptionView>
    decreases s.len(),
{
    if s.len() == 0 {
        Seq::empty()
    } else if s[0].enabled {
        seq![s[0]] + spec_cleanup(s.drop_first())
    } else {
        spec_cleanup(s.drop_first())
    }
}

/// Dropping disabled records preserves value-bearing well-formedness.
pub proof fn lemma_cleanup_preserves_wf(s: Seq<OptionView>, name: Seq<char>)
    requires
        crate::compiler_option::spec_values_wf(s, name),
    ensures
        crate::compiler_option::spec_values_wf(spec_cleanup(s), name),
    decreases s.len(),
{
    if s.len() > 0 {
        let t = s.drop_first();
        assert(forall|i: int| 0 <= i < t.len() ==> t[i] == s[i + 1]);
        lemma_cleanup_preserves_wf(t, name);
        if s[0].enabled {
            assert(spec_cleanup(s) == seq![s[0]] + spec_cleanup(t));
        }
    }
}

/// One raw argument serialized per record.
pub fn render_option(o: &CompilerOption) -> (r: String)
    ensures
        r@ == spec_render(o@),
{
    if o.has_value {
        let mut s = o.name.clone();
        s.push('=');
        let joined = text::join_char(&o.values, ',');
        s.append(joined.as_str());
        proof {
            assert(s@ =~= o@.name + seq!['='] + text::spec_join(o@.values, ','));
        }
        s
    } else {
        o.name.clone()
    }
}

/// The ordered flag collection for one invocation.
pub struct CompilerOptionManager {
    pub options: Vec<CompilerOption>,
}

impl CompilerOptionManager {
    /// Parses each raw argument into one flag record. Indirection files are
    /// expanded into plain tokens before this runs; see `text::tokenize_response`.
    pub fn new(args: Vec<String>) -> (r: Self)
        ensures
            r.options.deep_view() == args.deep_view().map_values(|a: Seq<char>| spec_from_arg(a)),
    {
        let ghost target = args.deep_view().map_values(|a: Seq<char>| spec_from_arg(a));
        let mut options: Vec<CompilerOption> = Vec::new();
        let mut i: usize = 0;
        while i < args.len()
            invariant
                i <= args@.len(),
                target == args.deep_view().map_values(|a: Seq<char>| spec_from_arg(a)),
                options.deep_view() =~~= target.take(i as int),
            decreases args@.len() - i,
        {
            options.push(CompilerOption::from_arg(args[i].as_str()));
            proof {
                assert(options.deep_view() =~~= target.take(i as int + 1));
            }
            i = i + 1;
        }
        proof {
            assert(target.take(target.len() as int) =~= target);
        }
        CompilerOptionManager { options }
    }

    /// Serializes the enabled records, in order.
    pub fn get_command(&self) -> (r: Vec<String>)
        ensures
            r.deep_view() == spec_command(self.options.deep_view()),
    {
        let ghost s = self.options.deep_view();
        let mut r: Vec<String> = Vec::new();
        let mut i: usize = 0;
        proof {
            assert(s.skip(0) =~= s);
            assert(r.deep_view() + spec_command(s) =~~= spec_command(s));
        }
        while i < self.options.len()
            invariant
                i <= s.len(),
                s == self.options.deep_view(),
                spec_command(s) =~~= r.deep_view() + spec_command(s.skip(i as int)),
            decreases s.len() - i,
        {
            let ghost pre = r.deep_view();
            proof {
                assert(s.skip(i as int).drop_first() =~= s.skip(i as int + 1));
                assert(s.skip(i as int)[0] == s[i as int]);
            }
            if self.options[i].is_enabled {
                r.push(render_option(&self.options[i]));
                proof {
                    assert(r.deep_view() =~~= pre.push(spec_render(s[i as int])));
                    assert(pre + (seq![spec_render(s[i as int])] + spec_command(
                        s.skip(i as int + 1),
                    )) =~~= pre.push(spec_render(s[i as int])) + spec_command(
                        s.skip(i as int + 1),
                    ));
                }
            }
            i = i + 1;
        }
        proof {
            assert(s.skip(s.len() as int) =~= Seq::<OptionView>::empty());
        }
        r
    }

    /// Drops disabled records; stages run between cleanups.
    pub fn cleanup(&mut self)
        ensures
            final(self).options.deep_view() == spec_cleanup(old(self).options.deep_view()),
    {
        let ghost s = old(self).options.deep_view();
        let mut kept: Vec<CompilerOption> = Vec::new();
        let mut i: usize = 0;
        proof {
            assert(s.skip(0) =~= s);
            assert(kept.deep_view() + spec_cleanup(s) =~~= spec_cleanup(s));
        }
        while i < self.options.len()
            invariant
                i <= s.len(),
                self == old(self),
                s == self.options.deep_view(),
                spec_cleanup(s) =~~= kept.deep_view() + spec_cleanup(s.skip(i as int)),
            decreases s.len() - i,
        {
            let ghost pre = kept.deep_view();
            proof {
                assert(s.skip(i as int).drop_first() =~= s.skip(i as int + 1));
                assert(s.skip(i as int)[0] == s[i as int]);
            }
            if self.options[i].is_enabled {
                kept.push(self.options[i].clone());
                proof {
                    assert(kept.deep_view() =~~= pre.push(s[i as int]));
                    assert(pre + (seq![s[i as int]] + spec_cleanup(s.skip(i as int + 1))) =~~= pre
                        .push(s[i as int]) + spec_cleanup(s.skip(i as int + 1)));
                }
            }
            i = i + 1;
        }
        proof {
            assert(s.skip(s.len() as int) =~= Seq::<OptionView>::empty());
        }
        self.options = kept;
    }
}

/// Whether any record, enabled or not, carries this name.
pub fn check_if_option_exists(options: &Vec<CompilerOption>, name: &str) -> (r: bool)
    ensures
        r == exists|i: int| 0 <= i < options@.len() && options.deep_view()[i].name == name@,
{
    let ghost s = options.deep_view();
    let mut i: usize = 0;
    while i < options.len()
        invariant
            i <= s.len(),
            s == options.deep_view(),
            forall|j: int| 0 <= j < i ==> s[j].name != name@,
        decreases s.len() - i,
    {
        if text::string_eq(&options[i].name, name) {
            proof {
                assert(s[i as int].name == name@);
            }
            return true;
        }
        i = i + 1;
    }
    false
}

} // verus!
