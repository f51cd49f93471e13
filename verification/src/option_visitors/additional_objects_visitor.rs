//! Additional-objects stage: merges a configured list of extra object names
//! into the command via replace-or-insert.

use vstd::prelude::*;
use crate::compiler_option::{CompilerOption, OptionManagement, OptionView, spec_add_or_modify,
    spec_plain};
use crate::error::{ErrorView, RewriteError};
use super::OptionVisitor;

verus! {

pub struct AdditionalObjectsVisitor {
    pub objects: Vec<String>,
}

/// Each configured object name replace-or-inserted, in order.
pub open spec fn spec_add_objects(s: Seq<OptionView>, objs: Seq<Seq<char>>) -> Seq<OptionView>
    decreases objs.len(),
{
    if objs.len() == 0 {
        s
    } else {
        spec_add_objects(spec_add_or_modify(s, spec_plain(objs[0])), objs.drop_first())
    }
}

impl AdditionalObjectsVisitor {
    /// `objects` is the configured comma-separated additional-object list,
    /// already split into names.
    pub fn new(objects: Vec<String>) -> (r: Self)
        ensures
            r.objects == objects,
    {
        AdditionalObjectsVisitor { objects }
    }
}

impl OptionVisitor for AdditionalObjectsVisitor {
    open spec fn ready(&self, s: Seq<OptionView>) -> bool {
        true
    }

    open spec fn outcome(&self, s: Seq<OptionView>) -> Result<Seq<OptionView>, ErrorView> {
        Ok(spec_add_objects(s, self.objects.deep_view()))
    }

    fn visit(&mut self, options: &mut Vec<CompilerOption>) -> (r: Result<(), RewriteError>) {
        let ghost objs = self.objects.deep_view();
        let ghost target = spec_add_objects(options.deep_view(), objs);
        let mut j: usize = 0;
        proof {
            assert(objs.skip(0) =~= objs);
        }
        while j < self.objects.len()
            invariant
                j <= objs.len(),
                objs == self.objects.deep_view(),
                target == spec_add_objects(options.deep_view(), objs.skip(j as int)),
            decreases objs.len() - j,
        {
            proof {
                assert(objs.skip(j as int).drop_first() =~= objs.skip(j as int + 1));
                assert(objs.skip(j as int)[0] == objs[j as int]);
            }
            let o = CompilerOption::new(self.objects[j].as_str());
            options.add_or_modify(&o);
            j = j + 1;
        }
        proof {
            assert(objs.skip(objs.len() as int) =~= Seq::<Seq<char>>::empty());
        }
        Ok(())
    }
}

} // verus!
