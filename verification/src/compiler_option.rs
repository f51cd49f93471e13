//! Flag records and the operations every rewrite stage uses on ordered
//! collections of them: lookup, replace-or-insert, merge-or-insert,
//! unconditional append, value removal, and build-mode classification.

use vstd::prelude::*;
use vstd::string::StrSliceExecFns;
use crate::text;

verus! {

/// Ghost model of one flag record.
#[verifier::ext_equal]
pub ghost struct OptionView {
    pub name: Seq<char>,
    pub values: Seq<Seq<char>>,
    pub enabled: bool,
    pub has_value: bool,
}

/// One compiler command-line flag with optional comma-separated values.
pub struct CompilerOption {
    pub name: String,
    pub values: Vec<String>,
    pub is_enabled: bool,
    pub has_value: bool,
}

impl View for CompilerOption {
    type V = OptionView;

    open spec fn view(&self) -> OptionView {
        OptionView {
            name: self.name@,
            values: self.values.deep_view(),
            enabled: self.is_enabled,
            has_value: self.has_value,
        }
    }
}

impl DeepView for CompilerOption {
    type V = OptionView;

    open spec fn deep_view(&self) -> OptionView {
        self@
    }
}

/// A record without values, as `CompilerOption::new` builds it.
pub open spec fn spec_plain(name: Seq<char>) -> OptionView {
    OptionView { name, values: Seq::empty(), enabled: true, has_value: false }
}

/// A value-bearing record, as `CompilerOption::new_with_value` builds it.
pub open spec fn spec_valued(name: Seq<char>, values: Seq<Seq<char>>) -> OptionView {
    OptionView { name, values, enabled: true, has_value: true }
}

/// The record one raw argument parses to: split on the first `=`, the
/// remainder split on commas.
pub open spec fn spec_from_arg(a: Seq<char>) -> OptionView {
    match text::spec_split_once(a, '=') {
        None => spec_plain(a),
        Some((n, v)) => spec_valued(n, text::spec_split(v, ',')),
    }
}

/// `v` added at the end unless already present.
pub open spec fn spec_add_value(vs: Seq<Seq<char>>, v: Seq<char>) -> Seq<Seq<char>> {
    if vs.contains(v) {
        vs
    } else {
        vs.push(v)
    }
}

/// Every occurrence of `v` removed.
pub open spec fn spec_remove_val(vs: Seq<Seq<char>>, v: Seq<char>) -> Seq<Seq<char>>
    decreases vs.len(),
{
    if vs.len() == 0 {
        Seq::empty()
    } else if vs[0] == v {
        spec_remove_val(vs.drop_first(), v)
    } else {
        seq![vs[0]] + spec_remove_val(vs.drop_first(), v)
    }
}

/// The record after `add_or_update_value`.
pub open spec fn spec_opt_add_value(o: OptionView, v: Seq<char>) -> OptionView {
    OptionView { values: spec_add_value(o.values, v), ..o }
}

/// The record after `remove_value`: the value gone, and the record disabled
/// when its value list became empty.
pub open spec fn spec_opt_remove_value(o: OptionView, v: Seq<char>) -> OptionView {
    let f = spec_remove_val(o.values, v);
    OptionView { values: f, enabled: if f.len() == 0 { false } else { o.enabled }, ..o }
}

/// The record with `enabled` cleared.
pub open spec fn spec_disabled(o: OptionView) -> OptionView {
    OptionView { enabled: false, ..o }
}

fn clone_string_vec(v: &Vec<String>) -> (r: Vec<String>)
    ensures
        r.deep_view() == v.deep_view(),
{
    let mut r: Vec<String> = Vec::new();
    let mut i: usize = 0;
    while i < v.len()
        invariant
            i <= v.len(),
            r.deep_view() =~~= v.deep_view().take(i as int),
        decreases v.len() - i,
    {
        r.push(v[i].clone());
        proof {
            assert(r.deep_view() =~~= v.deep_view().take(i as int + 1));
        }
        i = i + 1;
    }
    proof {
        assert(v.deep_view().take(v@.len() as int) =~= v.deep_view());
    }
    r
}

impl Clone for CompilerOption {
    fn clone(&self) -> (r: Self)
        ensures
            r@ == self@,
    {
        let r = CompilerOption {
            name: self.name.clone(),
            values: clone_string_vec(&self.values),
            is_enabled: self.is_enabled,
            has_value: self.has_value,
        };
        proof {
            assert(r@ =~~= self@);
        }
        r
    }
}

impl CompilerOption {
    /// A fresh enabled record that carries no values.
    pub fn new(name: &str) -> (r: Self)
        ensures
            r@ == spec_plain(name@),
    {
        let r = CompilerOption {
            name: name.to_owned(),
            values: Vec::new(),
            is_enabled: true,
            has_value: false,
        };
        proof {
            assert(r@ =~~= spec_plain(name@));
        }
        r
    }

    /// A fresh enabled record with the given value list.
    pub fn new_with_value(name: &str, value: Vec<&str>) -> (r: Self)
        ensures
            r@ == spec_valued(name@, value.deep_view()),
    {
        let mut values: Vec<String> = Vec::new();
        let mut i: usize = 0;
        while i < value.len()
            invariant
                i <= value.len(),
                values.deep_view() =~~= value.deep_view().take(i as int),
            decreases value.len() - i,
        {
            values.push(value[i].to_owned());
            proof {
                assert(values.deep_view() =~~= value.deep_view().take(i as int + 1));
            }
            i = i + 1;
        }
        proof {
            assert(value.deep_view().take(value@.len() as int) =~= value.deep_view());
        }
        let r = CompilerOption { name: name.to_owned(), values, is_enabled: true, has_value: true };
        proof {
            assert(r@ =~~= spec_valued(name@, value.deep_view()));
        }
        r
    }

    /// Parses one raw argument: the name runs up to the first `=`, the rest
    /// is a comma-separated value list.
    pub fn from_arg(arg: &str) -> (r: Self)
        ensures
            r@ == spec_from_arg(arg@),
    {
        let n = arg.unicode_len();
        let mut i: usize = 0;
        let mut found = false;
        while i < n && !found
            invariant
                i <= n,
                n == arg@.len(),
                !found ==> forall|j: int| 0 <= j < i ==> arg@[j] != '=',
                found ==> i < n && arg@[i as int] == '=' && (forall|j: int|
                    0 <= j < i ==> arg@[j] != '='),
            decreases n - i + (if found { 0int } else { 1int }),
        {
            if arg.get_char(i) == '=' {
                found = true;
            } else {
                i = i + 1;
            }
        }
        proof {
            if found {
                lemma_split_once_at(arg@, '=', i as int);
            } else {
                lemma_split_once_none(arg@, '=');
            }
        }
        if found {
            let name = arg.substring_char(0, i).to_owned();
            let rest = arg.substring_char(i + 1, n);
            let values = text::split_char(rest, ',');
            let r = CompilerOption { name, values, is_enabled: true, has_value: true };
            proof {
                assert(arg@.subrange(0, i as int) =~= arg@.take(i as int));
                assert(arg@.subrange(i as int + 1, n as int) =~= arg@.skip(i as int + 1));
                assert(r@ =~~= spec_from_arg(arg@));
            }
            r
        } else {
            let r = CompilerOption {
                name: arg.to_owned(),
                values: Vec::new(),
                is_enabled: true,
                has_value: false,
            };
            proof {
                assert(r@ =~~= spec_from_arg(arg@));
            }
            r
        }
    }

    /// Whether `value` occurs in the value list.
    pub fn contains(&self, value: &str) -> (r: bool)
        ensures
            r == self@.values.contains(value@),
    {
        let mut i: usize = 0;
        while i < self.values.len()
            invariant
                i <= self.values.len(),
                forall|j: int| 0 <= j < i ==> self@.values[j] != value@,
            decreases self.values.len() - i,
        {
            if text::string_eq(&self.values[i], value) {
                proof {
                    assert(self@.values[i as int] == value@);
                }
                return true;
            }
            i = i + 1;
        }
        false
    }

    /// Adds `new_value` to the value list unless it is already present.
    pub fn add_or_update_value(&mut self, new_value: &str)
        requires
            old(self)@.has_value,
        ensures
            final(self)@ == spec_opt_add_value(old(self)@, new_value@),
    {
        if !self.contains(new_value) {
            self.values.push(new_value.to_owned());
            proof {
                assert(self@ =~~= spec_opt_add_value(old(self)@, new_value@));
            }
        } else {
            proof {
                assert(self@ =~~= spec_opt_add_value(old(self)@, new_value@));
            }
        }
    }

    /// Removes `value_to_remove` from the value list; an emptied record is
    /// disabled so it never serializes as a bare `name=`.
    pub fn remove_value(&mut self, value_to_remove: &str)
        requires
            old(self)@.has_value,
        ensures
            final(self)@ == spec_opt_remove_value(old(self)@, value_to_remove@),
    {
        let ghost vs = old(self)@.values;
        let mut kept: Vec<String> = Vec::new();
        let mut i: usize = 0;
        proof {
            assert(vs.skip(0) =~= vs);
            assert(kept.deep_view() + spec_remove_val(vs, value_to_remove@) =~~= spec_remove_val(
                vs,
                value_to_remove@,
            ));
        }
        while i < self.values.len()
            invariant
                i <= self.values.len(),
                self == old(self),
                spec_remove_val(vs, value_to_remove@) =~~= kept.deep_view() + spec_remove_val(
                    vs.skip(i as int),
                    value_to_remove@,
                ),
            decreases self.values.len() - i,
        {
            let ghost pre = kept.deep_view();
            proof {
                assert(vs.skip(i as int).drop_first() =~= vs.skip(i as int + 1));
                assert(vs.skip(i as int)[0] == vs[i as int]);
            }
            if !text::string_eq(&self.values[i], value_to_remove) {
                kept.push(self.values[i].clone());
                proof {
                    assert(kept.deep_view() =~~= pre.push(vs[i as int]));
                    assert(pre + (seq![vs[i as int]] + spec_remove_val(
                        vs.skip(i as int + 1),
                        value_to_remove@,
                    )) =~~= pre.push(vs[i as int]) + spec_remove_val(
                        vs.skip(i as int + 1),
                        value_to_remove@,
                    ));
                }
            }
            i = i + 1;
        }
        proof {
            assert(vs.skip(vs.len() as int) =~= Seq::<Seq<char>>::empty());
            assert(kept.deep_view() =~~= spec_remove_val(vs, value_to_remove@));
        }
        self.values = kept;
        if self.values.is_empty() {
            self.disable();
        }
        proof {
            assert(self@ =~~= spec_opt_remove_value(old(self)@, value_to_remove@));
        }
    }

    /// Clears the record's `enabled` state.
    pub fn disable(&mut self)
        ensures
            final(self)@ == spec_disabled(old(self)@),
    {
        self.is_enabled = false;
        proof {
            assert(self@ =~~= spec_disabled(old(self)@));
        }
    }

    /// Sets the record's `enabled` state.
    pub fn enable(&mut self)
        ensures
            final(self)@ == (OptionView { enabled: true, ..old(self)@ }),
    {
        self.is_enabled = true;
        proof {
            assert(self@ =~~= (OptionView { enabled: true, ..old(self)@ }));
        }
    }
}

/// Whether record `o` is an enabled record of the given name.
pub open spec fn opt_matches(o: OptionView, name: Seq<char>) -> bool {
    o.enabled && o.name == name
}

/// How many enabled records of this name the collection holds.
pub open spec fn spec_count_matches(s: Seq<OptionView>, name: Seq<char>) -> nat
    decreases s.len(),
{
    if s.len() == 0 {
        0
    } else {
        spec_count_matches(s.drop_last(), name) + (if opt_matches(s.last(), name) {
            1nat
        } else {
            0nat
        })
    }
}

/// Index of the first enabled record of this name, or -1.
pub open spec fn spec_first_match(s: Seq<OptionView>, name: Seq<char>) -> int
    decreases s.len(),
{
    if s.len() == 0 {
        -1
    } else if opt_matches(s[0], name) {
        0
    } else {
        let r = spec_first_match(s.drop_first(), name);
        if r < 0 {
            -1
        } else {
            r + 1
        }
    }
}

/// The subsequence of enabled records of this name.
pub open spec fn spec_matches_seq(s: Seq<OptionView>, name: Seq<char>) -> Seq<OptionView>
    decreases s.len(),
{
    if s.len() == 0 {
        Seq::empty()
    } else if opt_matches(s[0], name) {
        seq![s[0]] + spec_matches_seq(s.drop_first(), name)
    } else {
        spec_matches_seq(s.drop_first(), name)
    }
}

/// Whether some enabled record has this name.
pub open spec fn spec_has_enabled(s: Seq<OptionView>, name: Seq<char>) -> bool {
    exists|i: int| 0 <= i < s.len() && opt_matches(s[i], name)
}

/// Whether every record's name begins with the flag prefix character.
pub open spec fn spec_all_flag_shaped(s: Seq<OptionView>) -> bool {
    forall|i: int| 0 <= i < s.len() ==> s[i].name.len() >= 1 && s[i].name[0] == '-'
}

/// Replace-or-insert: a single enabled match has its value list replaced
/// wholesale; otherwise the record is appended unchanged.
pub open spec fn spec_add_or_modify(s: Seq<OptionView>, o: OptionView) -> Seq<OptionView> {
    if spec_count_matches(s, o.name) == 1 {
        let i = spec_first_match(s, o.name);
        s.update(i, OptionView { values: o.values, ..s[i] })
    } else {
        s.push(o)
    }
}

/// Each value of `ws` added to `vs` unless already present.
pub open spec fn spec_merge_values(vs: Seq<Seq<char>>, ws: Seq<Seq<char>>) -> Seq<Seq<char>>
    decreases ws.len(),
{
    if ws.len() == 0 {
        vs
    } else {
        spec_merge_values(spec_add_value(vs, ws[0]), ws.drop_first())
    }
}

/// Merge-or-insert: a single enabled match absorbs the new values with
/// deduplication when it is value-bearing, or has them cloned in when it is
/// valueless; otherwise the record is appended unchanged.
pub open spec fn spec_add_or_mix(s: Seq<OptionView>, o: OptionView) -> Seq<OptionView> {
    if spec_count_matches(s, o.name) == 1 {
        let i = spec_first_match(s, o.name);
        if s[i].has_value {
            s.update(i, OptionView { values: spec_merge_values(s[i].values, o.values), ..s[i] })
        } else {
            s.update(i, OptionView { values: o.values, ..s[i] })
        }
    } else {
        s.push(o)
    }
}

/// Every enabled record of this name disabled.
pub open spec fn spec_disable_matches(s: Seq<OptionView>, name: Seq<char>) -> Seq<OptionView> {
    Seq::new(
        s.len(),
        |i: int|
            if opt_matches(s[i], name) {
                spec_disabled(s[i])
            } else {
                s[i]
            },
    )
}

/// One value stripped from every enabled record of this name.
pub open spec fn spec_remove_value_matches(
    s: Seq<OptionView>,
    name: Seq<char>,
    v: Seq<char>,
) -> Seq<OptionView> {
    Seq::new(
        s.len(),
        |i: int|
            if opt_matches(s[i], name) {
                spec_opt_remove_value(s[i], v)
            } else {
                s[i]
            },
    )
}

/// Whether the invocation is a compile-only, preprocess-only or checking
/// step: link-only artifacts must not be attached to such invocations.
pub open spec fn spec_mode_skip(s: Seq<OptionView>) -> bool {
    spec_has_enabled(s, "-c"@) || spec_has_enabled(s, "-E"@) || spec_all_flag_shaped(s)
}

/// Every enabled record of this name is value-bearing, so that value removal
/// is defined on it.
pub open spec fn spec_values_wf(s: Seq<OptionView>, name: Seq<char>) -> bool {
    forall|i: int| 0 <= i < s.len() && opt_matches(s[i], name) ==> s[i].has_value
}

proof fn lemma_count_take_step(s: Seq<OptionView>, name: Seq<char>, i: int)
    requires
        0 <= i < s.len(),
    ensures
        spec_count_matches(s.take(i + 1), name) == spec_count_matches(s.take(i), name) + (
        if opt_matches(s[i], name) {
            1nat
        } else {
            0nat
        }),
{
    assert(s.take(i + 1).drop_last() =~= s.take(i));
    assert(s.take(i + 1).last() == s[i]);
}

proof fn lemma_first_match_at(s: Seq<OptionView>, name: Seq<char>, k: int)
    requires
        0 <= k < s.len(),
        opt_matches(s[k], name),
        forall|j: int| 0 <= j < k ==> !opt_matches(s[j], name),
    ensures
        spec_first_match(s, name) == k,
    decreases k,
{
    if k > 0 {
        let t = s.drop_first();
        assert(forall|j: int| 0 <= j < k - 1 ==> t[j] == s[j + 1] && !opt_matches(t[j], name));
        assert(t[k - 1] == s[k]);
        lemma_first_match_at(t, name, k - 1);
    }
}

fn scan_matches(v: &Vec<CompilerOption>, name: &str) -> (r: (usize, usize))
    ensures
        r.0 == spec_count_matches(v.deep_view(), name@),
        r.0 > 0 ==> r.1 < v@.len() && spec_first_match(v.deep_view(), name@) == r.1,
{
    let ghost s = v.deep_view();
    let mut count: usize = 0;
    let mut first: usize = 0;
    let mut i: usize = 0;
    proof {
        assert(s.take(0) =~= Seq::<OptionView>::empty());
    }
    while i < v.len()
        invariant
            i <= v@.len(),
            count <= i,
            s == v.deep_view(),
            count == spec_count_matches(s.take(i as int), name@),
            count > 0 ==> first < i && opt_matches(s[first as int], name@) && (forall|j: int|
                0 <= j < first ==> !opt_matches(s[j], name@)),
            count == 0 ==> forall|j: int| 0 <= j < i ==> !opt_matches(s[j], name@),
        decreases v@.len() - i,
    {
        proof {
            lemma_count_take_step(s, name@, i as int);
        }
        if v[i].is_enabled && text::string_eq(&v[i].name, name) {
            proof {
                assert(opt_matches(s[i as int], name@));
            }
            if count == 0 {
                first = i;
            }
            count = count + 1;
        } else {
            proof {
                assert(!opt_matches(s[i as int], name@));
            }
        }
        i = i + 1;
    }
    proof {
        assert(s.take(s.len() as int) =~= s);
        if count > 0 {
            lemma_first_match_at(s, name@, first as int);
        }
    }
    (count, first)
}

/// Collection operations shared by every rewrite stage.
pub trait OptionManagement {
    /// The ghost contents of the collection.
    spec fn model(&self) -> Seq<OptionView>;

    /// Clones of the enabled records of this name, in order.
    fn get_options(&self, name: &str) -> (r: Vec<CompilerOption>)
        ensures
            r.deep_view() == spec_matches_seq(self.model(), name@),
    ;

    /// Whether some enabled record has this name.
    fn has_enabled(&self, name: &str) -> (r: bool)
        ensures
            r == spec_has_enabled(self.model(), name@),
    ;

    /// Replace-or-insert.
    fn add_or_modify(&mut self, other: &CompilerOption)
        ensures
            final(self).model() == spec_add_or_modify(old(self).model(), other@),
    ;

    /// Merge-or-insert with deduplication.
    fn add_or_mix(&mut self, other: &CompilerOption)
        ensures
            final(self).model() == spec_add_or_mix(old(self).model(), other@),
    ;

    /// Unconditional append, for adjacency-sensitive constructs.
    fn add_option(&mut self, other: &CompilerOption)
        ensures
            final(self).model() == old(self).model().push(other@),
    ;

    /// Disables every enabled record of this name.
    fn disable_matching(&mut self, name: &str)
        ensures
            final(self).model() == spec_disable_matches(old(self).model(), name@),
    ;

    /// Strips one value from every enabled record of this name.
    fn remove_value_matching(&mut self, name: &str, value: &str)
        requires
            spec_values_wf(old(self).model(), name@),
        ensures
            final(self).model() == spec_remove_value_matches(old(self).model(), name@, value@),
    ;

    /// Whether a `-E`-equivalent flag is enabled.
    fn is_preprocessor(&self) -> (r: bool)
        ensures
            r == spec_has_enabled(self.model(), "-E"@),
    ;

    /// Whether a `-c`-equivalent flag is enabled.
    fn is_compiling(&self) -> (r: bool)
        ensures
            r == spec_has_enabled(self.model(), "-c"@),
    ;

    /// Whether every token is flag-shaped, the feature-probe heuristic.
    fn is_checking(&self) -> (r: bool)
        ensures
            r == spec_all_flag_shaped(self.model()),
    ;
}

impl OptionManagement for Vec<CompilerOption> {
    open spec fn model(&self) -> Seq<OptionView> {
        self.deep_view()
    }

    fn get_options(&self, name: &str) -> (r: Vec<CompilerOption>) {
        let ghost s = self.deep_view();
        let mut r: Vec<CompilerOption> = Vec::new();
        let mut i: usize = 0;
        proof {
            assert(s.skip(0) =~= s);
            assert(r.deep_view() + spec_matches_seq(s, name@) =~~= spec_matches_seq(s, name@));
        }
        while i < self.len()
            invariant
                i <= self@.len(),
                s == self.deep_view(),
                spec_matches_seq(s, name@) =~~= r.deep_view() + spec_matches_seq(
                    s.skip(i as int),
                    name@,
                ),
            decreases self@.len() - i,
        {
            let ghost pre = r.deep_view();
            proof {
                assert(s.skip(i as int).drop_first() =~= s.skip(i as int + 1));
                assert(s.skip(i as int)[0] == s[i as int]);
            }
            if self[i].is_enabled && text::string_eq(&self[i].name, name) {
                r.push(self[i].clone());
                proof {
                    assert(opt_matches(s[i as int], name@));
                    assert(r.deep_view() =~~= pre.push(s[i as int]));
                    assert(pre + (seq![s[i as int]] + spec_matches_seq(s.skip(i as int + 1), name@))
                        =~~= pre.push(s[i as int]) + spec_matches_seq(s.skip(i as int + 1), name@));
                }
            } else {
                proof {
                    assert(!opt_matches(s[i as int], name@));
                }
            }
            i = i + 1;
        }
        proof {
            assert(s.skip(s.len() as int) =~= Seq::<OptionView>::empty());
        }
        r
    }

    fn has_enabled(&self, name: &str) -> (r: bool) {
        let ghost s = self.deep_view();
        let mut i: usize = 0;
        while i < self.len()
            invariant
                i <= s.len(),
                s == self.deep_view(),
                forall|j: int| 0 <= j < i ==> !opt_matches(s[j], name@),
            decreases s.len() - i,
        {
            if self[i].is_enabled && text::string_eq(&self[i].name, name) {
                proof {
                    assert(opt_matches(s[i as int], name@));
                }
                return true;
            }
            i = i + 1;
        }
        false
    }

    fn add_or_modify(&mut self, other: &CompilerOption) {
        let ghost s = old(self).deep_view();
        let (count, first) = scan_matches(self, other.name.as_str());
        if count == 1 {
            let o = &mut self[first];
            o.values = clone_string_vec(&other.values);
            proof {
                assert(self.deep_view() =~~= spec_add_or_modify(s, other@));
            }
        } else {
            self.push(other.clone());
            proof {
                assert(self.deep_view() =~~= spec_add_or_modify(s, other@));
            }
        }
    }

    fn add_or_mix(&mut self, other: &CompilerOption) {
        let ghost s = old(self).deep_view();
        let (count, first) = scan_matches(self, other.name.as_str());
        if count == 1 {
            let ghost orig = s[first as int];
            let o = &mut self[first];
            if o.has_value {
                let ghost ws = other@.values;
                let mut j: usize = 0;
                proof {
                    assert(ws.skip(0) =~= ws);
                }
                while j < other.values.len()
                    invariant
                        j <= ws.len(),
                        ws == other.deep_view().values,
                        o@.has_value,
                        o@.name == orig.name,
                        o@.enabled == orig.enabled,
                        o@.has_value == orig.has_value,
                        spec_merge_values(orig.values, ws) == spec_merge_values(
                            o@.values,
                            ws.skip(j as int),
                        ),
                    decreases ws.len() - j,
                {
                    proof {
                        assert(ws.skip(j as int).drop_first() =~= ws.skip(j as int + 1));
                        assert(ws.skip(j as int)[0] == ws[j as int]);
                    }
                    o.add_or_update_value(other.values[j].as_str());
                    j = j + 1;
                }
                proof {
                    assert(ws.skip(ws.len() as int) =~= Seq::<Seq<char>>::empty());
                    assert(o@ =~~= (OptionView {
                        values: spec_merge_values(orig.values, ws),
                        ..orig
                    }));
                }
            } else {
                o.values = clone_string_vec(&other.values);
                proof {
                    assert(o@ =~~= (OptionView { values: other@.values, ..orig }));
                }
            }
            proof {
                assert(self.deep_view() =~~= spec_add_or_mix(s, other@));
            }
        } else {
            self.push(other.clone());
            proof {
                assert(self.deep_view() =~~= spec_add_or_mix(s, other@));
            }
        }
    }

    fn add_option(&mut self, other: &CompilerOption) {
        self.push(other.clone());
        proof {
            assert(self.deep_view() =~~= old(self).deep_view().push(other@));
        }
    }

    fn disable_matching(&mut self, name: &str) {
        let ghost s = old(self).deep_view();
        let mut i: usize = 0;
        while i < self.len()
            invariant
                i <= s.len(),
                self@.len() == s.len(),
                forall|k: int|
                    0 <= k < s.len() ==> self.deep_view()[k] == (if k < i && opt_matches(
                        s[k],
                        name@,
                    ) {
                        spec_disabled(s[k])
                    } else {
                        s[k]
                    }),
            decreases s.len() - i,
        {
            let ghost prev = self.deep_view();
            proof {
                assert(prev[i as int] == s[i as int]);
            }
            let matched = self[i].is_enabled && text::string_eq(&self[i].name, name);
            proof {
                assert(self.deep_view()[i as int] == self@[i as int]@);
                assert(matched == opt_matches(s[i as int], name@));
            }
            if matched {
                let o = &mut self[i];
                o.disable();
                proof {
                    assert(self.deep_view()[i as int] == spec_disabled(s[i as int]));
                    assert(forall|k: int|
                        0 <= k < s.len() && k != i ==> self.deep_view()[k] == prev[k]);
                }
            }
            proof {
                assert forall|k: int| 0 <= k < s.len() implies self.deep_view()[k] == (if k < i
                    + 1 && opt_matches(s[k], name@) {
                    spec_disabled(s[k])
                } else {
                    s[k]
                }) by {
                    if k != i {
                        assert(self.deep_view()[k] == prev[k]);
                        assert(prev[k] == (if k < i && opt_matches(s[k], name@) {
                            spec_disabled(s[k])
                        } else {
                            s[k]
                        }));
                    }
                }
            }
            i = i + 1;
        }
        proof {
            assert(self.deep_view() =~~= spec_disable_matches(s, name@));
        }
    }

    fn remove_value_matching(&mut self, name: &str, value: &str) {
        let ghost s = old(self).deep_view();
        let mut i: usize = 0;
        while i < self.len()
            invariant
                i <= s.len(),
                self@.len() == s.len(),
                spec_values_wf(s, name@),
                forall|k: int|
                    0 <= k < s.len() ==> self.deep_view()[k] == (if k < i && opt_matches(
                        s[k],
                        name@,
                    ) {
                        spec_opt_remove_value(s[k], value@)
                    } else {
                        s[k]
                    }),
            decreases s.len() - i,
        {
            let ghost prev = self.deep_view();
            proof {
                assert(prev[i as int] == s[i as int]);
            }
            let matched = self[i].is_enabled && text::string_eq(&self[i].name, name);
            proof {
                assert(self.deep_view()[i as int] == self@[i as int]@);
                assert(matched == opt_matches(s[i as int], name@));
            }
            if matched {
                proof {
                    assert(opt_matches(s[i as int], name@));
                    assert(s[i as int].has_value);
                }
                let o = &mut self[i];
                o.remove_value(value);
                proof {
                    assert(self.deep_view()[i as int] == spec_opt_remove_value(
                        s[i as int],
                        value@,
                    ));
                    assert(forall|k: int|
                        0 <= k < s.len() && k != i ==> self.deep_view()[k] == prev[k]);
                }
            }
            proof {
                assert forall|k: int| 0 <= k < s.len() implies self.deep_view()[k] == (if k < i
                    + 1 && opt_matches(s[k], name@) {
                    spec_opt_remove_value(s[k], value@)
                } else {
                    s[k]
                }) by {
                    if k != i {
                        assert(self.deep_view()[k] == prev[k]);
                        assert(prev[k] == (if k < i && opt_matches(s[k], name@) {
                            spec_opt_remove_value(s[k], value@)
                        } else {
                            s[k]
                        }));
                    }
                }
            }
            i = i + 1;
        }
        proof {
            assert(self.deep_view() =~~= spec_remove_value_matches(s, name@, value@));
        }
    }

    fn is_preprocessor(&self) -> (r: bool) {
        self.has_enabled("-E")
    }

    fn is_compiling(&self) -> (r: bool) {
        self.has_enabled("-c")
    }

    fn is_checking(&self) -> (r: bool) {
        let ghost s = self.deep_view();
        let mut i: usize = 0;
        while i < self.len()
            invariant
                i <= s.len(),
                s == self.deep_view(),
                forall|j: int| 0 <= j < i ==> s[j].name.len() >= 1 && s[j].name[0] == '-',
            decreases s.len() - i,
        {
            let nm = self[i].name.as_str();
            proof {
                assert(nm@ == s[i as int].name);
            }
            if nm.unicode_len() == 0 {
                proof {
                    assert(!(s[i as int].name.len() >= 1));
                }
                return false;
            }
            if nm.get_char(0) != '-' {
                proof {
                    assert(s[i as int].name[0] != '-');
                }
                return false;
            }
            i = i + 1;
        }
        true
    }
}

/// How many times `v` occurs in a value list.
pub open spec fn spec_value_occurrences(vs: Seq<Seq<char>>, v: Seq<char>) -> nat
    decreases vs.len(),
{
    if vs.len() == 0 {
        0
    } else {
        spec_value_occurrences(vs.drop_last(), v) + (if vs.last() == v {
            1nat
        } else {
            0nat
        })
    }
}

pub proof fn lemma_occurrences_contains(vs: Seq<Seq<char>>, v: Seq<char>)
    ensures
        vs.contains(v) <==> spec_value_occurrences(vs, v) >= 1,
    decreases vs.len(),
{
    if vs.len() > 0 {
        let t = vs.drop_last();
        lemma_occurrences_contains(t, v);
        if vs.contains(v) && vs.last() != v {
            let i = choose|i: int| 0 <= i < vs.len() && vs[i] == v;
            assert(t[i] == v);
        }
        if t.contains(v) {
            let i = choose|i: int| 0 <= i < t.len() && t[i] == v;
            assert(vs[i] == v);
        }
    }
}

/// Merge idempotence: merging the same value into a duplicate-free record
/// twice changes nothing over merging it once, and the merged record holds
/// exactly one occurrence of the value.
pub proof fn lemma_merge_idempotent(o: OptionView, v: Seq<char>)
    requires
        spec_value_occurrences(o.values, v) <= 1,
    ensures
        spec_opt_add_value(spec_opt_add_value(o, v), v) == spec_opt_add_value(o, v),
        spec_value_occurrences(spec_opt_add_value(o, v).values, v) == 1,
{
    lemma_occurrences_contains(o.values, v);
    if !o.values.contains(v) {
        let p = o.values.push(v);
        assert(p.drop_last() =~= o.values);
        assert(p.last() == v);
        assert(spec_value_occurrences(p, v) == 1);
        lemma_occurrences_contains(p, v);
        assert(p.contains(v));
    }
    let o1 = spec_opt_add_value(o, v);
    assert(o1.values.contains(v));
    assert(spec_opt_add_value(o1, v) == o1);
}

pub proof fn lemma_count_pos_exists(s: Seq<OptionView>, name: Seq<char>)
    ensures
        spec_count_matches(s, name) > 0 <==> exists|i: int|
            0 <= i < s.len() && opt_matches(s[i], name),
    decreases s.len(),
{
    if s.len() > 0 {
        lemma_count_pos_exists(s.drop_last(), name);
        if spec_count_matches(s, name) > 0 {
            if opt_matches(s.last(), name) {
                assert(opt_matches(s[s.len() - 1], name));
            } else {
                let i = choose|i: int|
                    0 <= i < s.drop_last().len() && opt_matches(s.drop_last()[i], name);
                assert(opt_matches(s[i], name));
            }
        }
        if exists|i: int| 0 <= i < s.len() && opt_matches(s[i], name) {
            let i = choose|i: int| 0 <= i < s.len() && opt_matches(s[i], name);
            if i < s.len() - 1 {
                assert(opt_matches(s.drop_last()[i], name));
            }
        }
    }
}

pub proof fn lemma_first_match_props(s: Seq<OptionView>, name: Seq<char>)
    ensures
        spec_first_match(s, name) < 0 ==> forall|i: int|
            0 <= i < s.len() ==> !opt_matches(s[i], name),
        spec_first_match(s, name) >= 0 ==> 0 <= spec_first_match(s, name) < s.len()
            && opt_matches(s[spec_first_match(s, name)], name),
    decreases s.len(),
{
    if s.len() > 0 && !opt_matches(s[0], name) {
        let t = s.drop_first();
        lemma_first_match_props(t, name);
        assert(forall|i: int| 1 <= i < s.len() ==> s[i] == t[i - 1]);
    }
}

/// The unique-match index exists whenever the match count is positive.
pub proof fn lemma_first_match_in_range(s: Seq<OptionView>, name: Seq<char>)
    requires
        spec_count_matches(s, name) > 0,
    ensures
        0 <= spec_first_match(s, name) < s.len(),
        opt_matches(s[spec_first_match(s, name)], name),
{
    lemma_count_pos_exists(s, name);
    lemma_first_match_props(s, name);
    if spec_first_match(s, name) < 0 {
        assert(forall|i: int| 0 <= i < s.len() ==> !opt_matches(s[i], name));
    }
}

pub proof fn lemma_add_value_contains(vs: Seq<Seq<char>>, v: Seq<char>, x: Seq<char>)
    ensures
        spec_add_value(vs, v).contains(x) <==> (vs.contains(x) || x == v),
{
    if !vs.contains(v) {
        let p = vs.push(v);
        if p.contains(x) {
            let i = choose|i: int| 0 <= i < p.len() && p[i] == x;
            if i < vs.len() {
                assert(vs[i] == x);
            }
        }
        if vs.contains(x) {
            let i = choose|i: int| 0 <= i < vs.len() && vs[i] == x;
            assert(p[i] == x);
        }
        assert(p[vs.len() as int] == v);
    }
}

pub proof fn lemma_merge_contains(vs: Seq<Seq<char>>, ws: Seq<Seq<char>>, x: Seq<char>)
    ensures
        spec_merge_values(vs, ws).contains(x) <==> (vs.contains(x) || ws.contains(x)),
    decreases ws.len(),
{
    if ws.len() == 0 {
        if ws.contains(x) {
            let i = choose|i: int| 0 <= i < ws.len() && ws[i] == x;
        }
    } else {
        let t = ws.drop_first();
        lemma_add_value_contains(vs, ws[0], x);
        lemma_merge_contains(spec_add_value(vs, ws[0]), t, x);
        assert(forall|i: int| 0 <= i < t.len() ==> t[i] == ws[i + 1]);
        if ws.contains(x) {
            let i = choose|i: int| 0 <= i < ws.len() && ws[i] == x;
            if i > 0 {
                assert(t[i - 1] == x);
            }
        }
        if t.contains(x) {
            let i = choose|i: int| 0 <= i < t.len() && t[i] == x;
            assert(ws[i + 1] == x);
        }
    }
}

pub proof fn lemma_merge_absorbed(vs: Seq<Seq<char>>, ws: Seq<Seq<char>>)
    requires
        forall|k: int| 0 <= k < ws.len() ==> vs.contains(ws[k]),
    ensures
        spec_merge_values(vs, ws) == vs,
    decreases ws.len(),
{
    if ws.len() > 0 {
        assert(vs.contains(ws[0]));
        assert(spec_add_value(vs, ws[0]) == vs);
        let t = ws.drop_first();
        assert(forall|k: int| 0 <= k < t.len() ==> t[k] == ws[k + 1] && vs.contains(t[k]));
        lemma_merge_absorbed(vs, t);
    }
}

pub proof fn lemma_remove_val_contains(vs: Seq<Seq<char>>, v: Seq<char>, x: Seq<char>)
    ensures
        spec_remove_val(vs, v).contains(x) <==> (vs.contains(x) && x != v),
    decreases vs.len(),
{
    if vs.len() > 0 {
        let t = vs.drop_first();
        lemma_remove_val_contains(t, v, x);
        assert(forall|i: int| 0 <= i < t.len() ==> t[i] == vs[i + 1]);
        let r = spec_remove_val(vs, v);
        let rt = spec_remove_val(t, v);
        if vs[0] == v {
            if vs.contains(x) && x != v {
                let i = choose|i: int| 0 <= i < vs.len() && vs[i] == x;
                assert(i > 0);
                assert(t[i - 1] == x);
            }
        } else {
            assert(r == seq![vs[0]] + rt);
            assert(forall|i: int| 0 <= i < rt.len() ==> r[i + 1] == rt[i]);
            assert(r[0] == vs[0]);
            if r.contains(x) {
                let i = choose|i: int| 0 <= i < r.len() && r[i] == x;
                if i == 0 {
                    assert(vs[0] == x);
                } else {
                    assert(rt[i - 1] == x);
                    assert(t.contains(x));
                    let j = choose|j: int| 0 <= j < t.len() && t[j] == x;
                    assert(vs[j + 1] == x);
                }
            }
            if vs.contains(x) && x != v {
                let i = choose|i: int| 0 <= i < vs.len() && vs[i] == x;
                if i == 0 {
                    assert(r[0] == x);
                } else {
                    assert(t[i - 1] == x);
                    assert(rt.contains(x));
                    let j = choose|j: int| 0 <= j < rt.len() && rt[j] == x;
                    assert(r[j + 1] == x);
                }
            }
        }
    }
}

pub proof fn lemma_remove_val_noop(vs: Seq<Seq<char>>, v: Seq<char>)
    requires
        !vs.contains(v),
    ensures
        spec_remove_val(vs, v) == vs,
    decreases vs.len(),
{
    if vs.len() > 0 {
        assert(vs[0] != v);
        let t = vs.drop_first();
        assert(forall|i: int| 0 <= i < t.len() ==> t[i] == vs[i + 1]);
        if t.contains(v) {
            let i = choose|i: int| 0 <= i < t.len() && t[i] == v;
            assert(vs[i + 1] == v);
        }
        lemma_remove_val_noop(t, v);
        assert(seq![vs[0]] + t =~= vs);
    }
}

/// The filtered matches carry a value exactly when some enabled match in the
/// collection does.
pub proof fn lemma_matches_seq_values(s: Seq<OptionView>, name: Seq<char>, v: Seq<char>)
    ensures
        (exists|k: int|
            0 <= k < spec_matches_seq(s, name).len() && spec_matches_seq(s, name)[k].values.contains(
                v,
            )) <==> (exists|i: int|
            0 <= i < s.len() && opt_matches(s[i], name) && s[i].values.contains(v)),
    decreases s.len(),
{
    if s.len() > 0 {
        let t = s.drop_first();
        let m = spec_matches_seq(s, name);
        let mt = spec_matches_seq(t, name);
        lemma_matches_seq_values(t, name, v);
        assert(forall|i: int| 1 <= i < s.len() ==> s[i] == t[i - 1]);
        if opt_matches(s[0], name) {
            assert(m == seq![s[0]] + mt);
            assert(forall|k: int| 1 <= k < m.len() ==> m[k] == mt[k - 1]);
            if exists|k: int| 0 <= k < m.len() && m[k].values.contains(v) {
                let k = choose|k: int| 0 <= k < m.len() && m[k].values.contains(v);
                if k == 0 {
                    assert(opt_matches(s[0], name) && s[0].values.contains(v));
                } else {
                    assert(mt[k - 1].values.contains(v));
                    let i = choose|i: int|
                        0 <= i < t.len() && opt_matches(t[i], name) && t[i].values.contains(v);
                    assert(opt_matches(s[i + 1], name) && s[i + 1].values.contains(v));
                }
            }
            if exists|i: int| 0 <= i < s.len() && opt_matches(s[i], name) && s[i].values.contains(
                v,
            ) {
                let i = choose|i: int|
                    0 <= i < s.len() && opt_matches(s[i], name) && s[i].values.contains(v);
                if i == 0 {
                    assert(m[0].values.contains(v));
                } else {
                    assert(opt_matches(t[i - 1], name) && t[i - 1].values.contains(v));
                    let k = choose|k: int| 0 <= k < mt.len() && mt[k].values.contains(v);
                    assert(m[k + 1].values.contains(v));
                }
            }
        } else {
            assert(m == mt);
            if exists|i: int| 0 <= i < s.len() && opt_matches(s[i], name) && s[i].values.contains(
                v,
            ) {
                let i = choose|i: int|
                    0 <= i < s.len() && opt_matches(s[i], name) && s[i].values.contains(v);
                assert(i > 0);
                assert(opt_matches(t[i - 1], name) && t[i - 1].values.contains(v));
            }
        }
    }
}

/// Two collections whose records match `name` at the same positions hold
/// the same number of matches.
pub proof fn lemma_count_match_congruent(s: Seq<OptionView>, t: Seq<OptionView>, name: Seq<char>)
    requires
        s.len() == t.len(),
        forall|i: int| 0 <= i < s.len() ==> opt_matches(s[i], name) == opt_matches(t[i], name),
    ensures
        spec_count_matches(s, name) == spec_count_matches(t, name),
    decreases s.len(),
{
    if s.len() > 0 {
        lemma_count_match_congruent(s.drop_last(), t.drop_last(), name);
    }
}

pub proof fn lemma_count_push(s: Seq<OptionView>, o: OptionView, name: Seq<char>)
    ensures
        spec_count_matches(s.push(o), name) == spec_count_matches(s, name) + (if opt_matches(
            o,
            name,
        ) {
            1nat
        } else {
            0nat
        }),
{
    assert(s.push(o).drop_last() =~= s);
    assert(s.push(o).last() == o);
}

/// With at most one enabled match, any two match positions coincide.
pub proof fn lemma_unique_match(s: Seq<OptionView>, name: Seq<char>)
    requires
        spec_count_matches(s, name) <= 1,
    ensures
        forall|i: int, j: int|
            0 <= i < s.len() && 0 <= j < s.len() && opt_matches(s[i], name) && opt_matches(
                s[j],
                name,
            ) ==> i == j,
    decreases s.len(),
{
    if s.len() > 0 {
        let t = s.drop_last();
        if opt_matches(s.last(), name) {
            assert(spec_count_matches(t, name) == 0);
            lemma_count_pos_exists(t, name);
            assert forall|i: int, j: int|
                0 <= i < s.len() && 0 <= j < s.len() && opt_matches(s[i], name) && opt_matches(
                    s[j],
                    name,
                ) implies i == j by {
                if i < s.len() - 1 {
                    assert(opt_matches(t[i], name));
                }
                if j < s.len() - 1 {
                    assert(opt_matches(t[j], name));
                }
            }
        } else {
            lemma_unique_match(t, name);
            assert forall|i: int, j: int|
                0 <= i < s.len() && 0 <= j < s.len() && opt_matches(s[i], name) && opt_matches(
                    s[j],
                    name,
                ) implies i == j by {
                assert(i < s.len() - 1 && j < s.len() - 1);
                assert(opt_matches(t[i], name) && opt_matches(t[j], name));
            }
        }
    }
}

/// What an operation keyed on `name` may do to the collection: records of
/// other names stand exactly where they stood, and anything appended carries
/// `name`.
pub open spec fn spec_frame(s: Seq<OptionView>, r: Seq<OptionView>, name: Seq<char>) -> bool {
    &&& r.len() >= s.len()
    &&& forall|j: int| 0 <= j < s.len() ==> r[j].name == s[j].name
    &&& forall|j: int| 0 <= j < s.len() && s[j].name != name ==> r[j] == s[j]
    &&& forall|j: int| s.len() <= j < r.len() ==> r[j].name == name
}

pub proof fn lemma_mix_frame(s: Seq<OptionView>, o: OptionView)
    ensures
        spec_frame(s, spec_add_or_mix(s, o), o.name),
{
    if spec_count_matches(s, o.name) == 1 {
        lemma_first_match_in_range(s, o.name);
    }
}

pub proof fn lemma_modify_frame(s: Seq<OptionView>, o: OptionView)
    ensures
        spec_frame(s, spec_add_or_modify(s, o), o.name),
{
    if spec_count_matches(s, o.name) == 1 {
        lemma_first_match_in_range(s, o.name);
    }
}

pub proof fn lemma_remove_frame(s: Seq<OptionView>, rname: Seq<char>, v: Seq<char>)
    ensures
        spec_frame(s, spec_remove_value_matches(s, rname, v), rname),
        spec_remove_value_matches(s, rname, v).len() == s.len(),
{
}

pub proof fn lemma_disable_frame(s: Seq<OptionView>, dname: Seq<char>)
    ensures
        spec_frame(s, spec_disable_matches(s, dname), dname),
        spec_disable_matches(s, dname).len() == s.len(),
{
}

/// A framed operation keyed on one name leaves every other name's match
/// count unchanged.
pub proof fn lemma_frame_count(
    s: Seq<OptionView>,
    r: Seq<OptionView>,
    fname: Seq<char>,
    n: Seq<char>,
)
    requires
        spec_frame(s, r, fname),
        n != fname,
    ensures
        spec_count_matches(r, n) == spec_count_matches(s, n),
    decreases r.len(),
{
    if r.len() > s.len() {
        let rt = r.drop_last();
        assert(spec_frame(s, rt, fname));
        assert(r.last().name == fname);
        lemma_frame_count(s, rt, fname, n);
    } else {
        assert forall|i: int|
            0 <= i < s.len() implies opt_matches(r[i], n) == opt_matches(s[i], n) by {
            if s[i].name != fname {
                assert(r[i] == s[i]);
            } else {
                assert(r[i].name == fname);
            }
        }
        lemma_count_match_congruent(s, r, n);
    }
}

/// The collection absorbs a merge-or-insert of `o` without change: one
/// enabled match, already holding `o`'s values.
pub open spec fn spec_mix_stable(s: Seq<OptionView>, o: OptionView) -> bool {
    &&& spec_count_matches(s, o.name) == 1
    &&& forall|i: int|
        0 <= i < s.len() && opt_matches(s[i], o.name) && s[i].has_value ==> (forall|k: int|
            0 <= k < o.values.len() ==> s[i].values.contains(o.values[k]))
    &&& forall|i: int|
        0 <= i < s.len() && opt_matches(s[i], o.name) && !s[i].has_value ==> s[i].values
            == o.values
}

/// The collection absorbs a replace-or-insert of `o` without change.
pub open spec fn spec_modify_stable(s: Seq<OptionView>, o: OptionView) -> bool {
    &&& spec_count_matches(s, o.name) == 1
    &&& forall|i: int| 0 <= i < s.len() && opt_matches(s[i], o.name) ==> s[i].values == o.values
}

/// Merge-or-insert establishes its own stability.
pub proof fn lemma_mix_makes_stable(s: Seq<OptionView>, o: OptionView)
    requires
        spec_count_matches(s, o.name) <= 1,
        o.enabled,
    ensures
        spec_mix_stable(spec_add_or_mix(s, o), o),
{
    let r = spec_add_or_mix(s, o);
    lemma_mix_count_one(s, o);
    lemma_unique_match(s, o.name);
    if spec_count_matches(s, o.name) == 1 {
        lemma_first_match_in_range(s, o.name);
        let i = spec_first_match(s, o.name);
        assert forall|j: int|
            0 <= j < r.len() && opt_matches(r[j], o.name) implies j == i by {
            if j != i {
                assert(r[j] == s[j]);
            }
        }
        if s[i].has_value {
            assert forall|k: int|
                0 <= k < o.values.len() implies r[i].values.contains(o.values[k]) by {
                lemma_merge_contains(s[i].values, o.values, o.values[k]);
            }
        }
    } else {
        lemma_count_pos_exists(s, o.name);
        assert forall|j: int|
            0 <= j < r.len() && opt_matches(r[j], o.name) implies j == s.len() by {
            if j < s.len() {
                assert(opt_matches(s[j], o.name));
            }
        }
        assert(r[s.len() as int] == o);
        if o.has_value {
            assert forall|k: int|
                0 <= k < o.values.len() implies o.values.contains(o.values[k]) by {}
        }
    }
}

/// Replace-or-insert establishes its own stability.
pub proof fn lemma_modify_makes_stable(s: Seq<OptionView>, o: OptionView)
    requires
        spec_count_matches(s, o.name) <= 1,
        o.enabled,
    ensures
        spec_modify_stable(spec_add_or_modify(s, o), o),
{
    let r = spec_add_or_modify(s, o);
    lemma_modify_count_one(s, o);
    lemma_unique_match(s, o.name);
    if spec_count_matches(s, o.name) == 1 {
        lemma_first_match_in_range(s, o.name);
        let i = spec_first_match(s, o.name);
        assert forall|j: int|
            0 <= j < r.len() && opt_matches(r[j], o.name) implies j == i by {
            if j != i {
                assert(r[j] == s[j]);
            }
        }
    } else {
        lemma_count_pos_exists(s, o.name);
        assert forall|j: int|
            0 <= j < r.len() && opt_matches(r[j], o.name) implies j == s.len() by {
            if j < s.len() {
                assert(opt_matches(s[j], o.name));
            }
        }
        assert(r[s.len() as int] == o);
    }
}

/// A framed operation keyed on another name preserves stability.
pub proof fn lemma_frame_preserves_mix_stable(
    s: Seq<OptionView>,
    r: Seq<OptionView>,
    fname: Seq<char>,
    o: OptionView,
)
    requires
        spec_frame(s, r, fname),
        fname != o.name,
        spec_mix_stable(s, o),
    ensures
        spec_mix_stable(r, o),
{
    lemma_frame_count(s, r, fname, o.name);
    assert forall|j: int|
        0 <= j < r.len() && opt_matches(r[j], o.name) implies j < s.len() && r[j] == s[j] by {
        assert(j < s.len());
        assert(s[j].name == r[j].name);
        assert(s[j].name != fname);
    }
}

/// The same for replace-or-insert stability.
pub proof fn lemma_frame_preserves_modify_stable(
    s: Seq<OptionView>,
    r: Seq<OptionView>,
    fname: Seq<char>,
    o: OptionView,
)
    requires
        spec_frame(s, r, fname),
        fname != o.name,
        spec_modify_stable(s, o),
    ensures
        spec_modify_stable(r, o),
{
    lemma_frame_count(s, r, fname, o.name);
    assert forall|j: int|
        0 <= j < r.len() && opt_matches(r[j], o.name) implies j < s.len() && r[j] == s[j] by {
        assert(j < s.len());
        assert(s[j].name == r[j].name);
        assert(s[j].name != fname);
    }
}

/// Merge-or-insert on a collection already saturated with the record's
/// values changes nothing.
pub proof fn lemma_mix_noop(s: Seq<OptionView>, o: OptionView)
    requires
        spec_mix_stable(s, o),
    ensures
        spec_add_or_mix(s, o) == s,
{
    lemma_first_match_in_range(s, o.name);
    let i = spec_first_match(s, o.name);
    if s[i].has_value {
        lemma_merge_absorbed(s[i].values, o.values);
        assert(spec_add_or_mix(s, o) =~~= s);
    } else {
        assert(spec_add_or_mix(s, o) =~~= s);
    }
}

/// Replace-or-insert on a collection already holding the record's values
/// changes nothing.
pub proof fn lemma_modify_noop(s: Seq<OptionView>, o: OptionView)
    requires
        spec_modify_stable(s, o),
    ensures
        spec_add_or_modify(s, o) == s,
{
    lemma_first_match_in_range(s, o.name);
    assert(spec_add_or_modify(s, o) =~~= s);
}

/// Value removal with no occurrences of the token in any nonempty enabled
/// match changes nothing.
pub proof fn lemma_remove_matches_noop(s: Seq<OptionView>, name: Seq<char>, v: Seq<char>)
    requires
        forall|i: int|
            0 <= i < s.len() && opt_matches(s[i], name) ==> !s[i].values.contains(v)
                && s[i].values.len() > 0,
    ensures
        spec_remove_value_matches(s, name, v) == s,
{
    let r = spec_remove_value_matches(s, name, v);
    assert forall|i: int| 0 <= i < s.len() implies r[i] == s[i] by {
        if opt_matches(s[i], name) {
            lemma_remove_val_noop(s[i].values, v);
            assert(r[i] =~~= s[i]);
        }
    }
    assert(r =~~= s);
}

/// Disabling matches of a name with no enabled matches changes nothing.
pub proof fn lemma_disable_matches_noop(s: Seq<OptionView>, name: Seq<char>)
    requires
        forall|i: int| 0 <= i < s.len() ==> !opt_matches(s[i], name),
    ensures
        spec_disable_matches(s, name) == s,
{
    assert(spec_disable_matches(s, name) =~~= s);
}

/// After merge-or-insert of an enabled record into a collection with at most
/// one enabled match of its name, exactly one enabled match remains.
pub proof fn lemma_mix_count_one(s: Seq<OptionView>, o: OptionView)
    requires
        spec_count_matches(s, o.name) <= 1,
        o.enabled,
    ensures
        spec_count_matches(spec_add_or_mix(s, o), o.name) == 1,
{
    let r = spec_add_or_mix(s, o);
    if spec_count_matches(s, o.name) == 1 {
        lemma_first_match_in_range(s, o.name);
        let i = spec_first_match(s, o.name);
        assert forall|j: int|
            0 <= j < s.len() implies opt_matches(r[j], o.name) == opt_matches(s[j], o.name) by {}
        lemma_count_match_congruent(s, r, o.name);
    } else {
        lemma_count_push(s, o, o.name);
    }
}

/// The same for replace-or-insert.
pub proof fn lemma_modify_count_one(s: Seq<OptionView>, o: OptionView)
    requires
        spec_count_matches(s, o.name) <= 1,
        o.enabled,
    ensures
        spec_count_matches(spec_add_or_modify(s, o), o.name) == 1,
{
    let r = spec_add_or_modify(s, o);
    if spec_count_matches(s, o.name) == 1 {
        lemma_first_match_in_range(s, o.name);
        let i = spec_first_match(s, o.name);
        assert forall|j: int|
            0 <= j < s.len() implies opt_matches(r[j], o.name) == opt_matches(s[j], o.name) by {}
        lemma_count_match_congruent(s, r, o.name);
    } else {
        lemma_count_push(s, o, o.name);
    }
}

/// Replace semantics: after replace-or-insert of an enabled record into a
/// collection holding at most one enabled record of its name, exactly one
/// enabled record of that name remains, and it carries exactly the new
/// record's values.
pub proof fn lemma_replace_semantics(s: Seq<OptionView>, o: OptionView)
    requires
        spec_count_matches(s, o.name) <= 1,
        o.enabled,
    ensures
        spec_count_matches(spec_add_or_modify(s, o), o.name) == 1,
        forall|i: int|
            0 <= i < spec_add_or_modify(s, o).len() && opt_matches(
                spec_add_or_modify(s, o)[i],
                o.name,
            ) ==> spec_add_or_modify(s, o)[i].values == o.values,
{
    lemma_modify_count_one(s, o);
    lemma_modify_makes_stable(s, o);
}

/// Value removal never raises a name's match count.
pub proof fn lemma_remove_count_le(s: Seq<OptionView>, rname: Seq<char>, v: Seq<char>, n: Seq<char>)
    ensures
        spec_count_matches(spec_remove_value_matches(s, rname, v), n) <= spec_count_matches(s, n),
    decreases s.len(),
{
    let r = spec_remove_value_matches(s, rname, v);
    if s.len() > 0 {
        let st = s.drop_last();
        let rt = spec_remove_value_matches(st, rname, v);
        lemma_remove_count_le(st, rname, v, n);
        assert(r.drop_last() =~~= rt);
        assert(opt_matches(r.last(), n) ==> opt_matches(s.last(), n));
        assert(spec_count_matches(r, n) == spec_count_matches(rt, n) + (if opt_matches(
            r.last(),
            n,
        ) {
            1nat
        } else {
            0nat
        }));
    }
}

/// Disabling every enabled match leaves none.
pub proof fn lemma_disable_count_zero(s: Seq<OptionView>, dname: Seq<char>)
    ensures
        spec_count_matches(spec_disable_matches(s, dname), dname) == 0,
{
    let r = spec_disable_matches(s, dname);
    lemma_count_pos_exists(r, dname);
    assert forall|i: int| 0 <= i < r.len() implies !opt_matches(r[i], dname) by {}
}

/// A parsed argument distinct from `name` can only collide with `name`
/// as a value-bearing record.
pub proof fn lemma_from_arg_wf(a: Seq<char>, name: Seq<char>)
    requires
        a != name,
    ensures
        (spec_from_arg(a).enabled && spec_from_arg(a).name == name) ==> spec_from_arg(
            a,
        ).has_value,
{
}

/// Replace-or-insert preserves value-bearing well-formedness.
pub proof fn lemma_modify_preserves_wf(s: Seq<OptionView>, o: OptionView, name: Seq<char>)
    requires
        spec_values_wf(s, name),
        (o.enabled && o.name == name) ==> o.has_value,
    ensures
        spec_values_wf(spec_add_or_modify(s, o), name),
{
    let r = spec_add_or_modify(s, o);
    if spec_count_matches(s, o.name) == 1 {
        lemma_first_match_in_range(s, o.name);
        assert forall|i: int| 0 <= i < r.len() && opt_matches(r[i], name) implies r[i].has_value by {
            if i != spec_first_match(s, o.name) {
                assert(r[i] == s[i]);
            }
        }
    }
}

/// Merge-or-insert preserves value-bearing well-formedness.
pub proof fn lemma_mix_preserves_wf(s: Seq<OptionView>, o: OptionView, name: Seq<char>)
    requires
        spec_values_wf(s, name),
        (o.enabled && o.name == name) ==> o.has_value,
    ensures
        spec_values_wf(spec_add_or_mix(s, o), name),
{
    let r = spec_add_or_mix(s, o);
    if spec_count_matches(s, o.name) == 1 {
        lemma_first_match_in_range(s, o.name);
        assert forall|i: int| 0 <= i < r.len() && opt_matches(r[i], name) implies r[i].has_value by {
            if i != spec_first_match(s, o.name) {
                assert(r[i] == s[i]);
            }
        }
    }
}

/// Value removal preserves value-bearing well-formedness for every name.
pub proof fn lemma_remove_preserves_wf(
    s: Seq<OptionView>,
    rname: Seq<char>,
    v: Seq<char>,
    name: Seq<char>,
)
    requires
        spec_values_wf(s, name),
    ensures
        spec_values_wf(spec_remove_value_matches(s, rname, v), name),
{
    let r = spec_remove_value_matches(s, rname, v);
    assert forall|i: int| 0 <= i < r.len() && opt_matches(r[i], name) implies r[i].has_value by {
        assert(r[i].has_value == s[i].has_value);
        assert(r[i].enabled ==> s[i].enabled);
        assert(r[i].name == s[i].name);
    }
}

/// Disabling records preserves value-bearing well-formedness.
pub proof fn lemma_disable_preserves_wf(s: Seq<OptionView>, dname: Seq<char>, name: Seq<char>)
    requires
        spec_values_wf(s, name),
    ensures
        spec_values_wf(spec_disable_matches(s, dname), name),
{
    let r = spec_disable_matches(s, dname);
    assert forall|i: int| 0 <= i < r.len() && opt_matches(r[i], name) implies r[i].has_value by {
        assert(r[i].has_value == s[i].has_value);
        assert(r[i].enabled ==> s[i].enabled);
        assert(r[i].name == s[i].name);
    }
}

proof fn lemma_split_once_at(s: Seq<char>, sep: char, k: int)
    requires
        0 <= k < s.len(),
        s[k] == sep,
        forall|j: int| 0 <= j < k ==> s[j] != sep,
    ensures
        text::spec_split_once(s, sep) == Some((s.take(k), s.skip(k + 1))),
    decreases k,
{
    if k == 0 {
        assert(s.take(0) =~= Seq::<char>::empty());
        assert(s.skip(1) =~= s.drop_first());
    } else {
        let t = s.drop_first();
        assert(forall|j: int| 0 <= j < k - 1 ==> t[j] != sep);
        assert(t[k - 1] == sep);
        lemma_split_once_at(t, sep, k - 1);
        assert(seq![s[0]] + t.take(k - 1) =~= s.take(k));
        assert(t.skip(k) =~= s.skip(k + 1));
    }
}

proof fn lemma_split_once_none(s: Seq<char>, sep: char)
    requires
        forall|j: int| 0 <= j < s.len() ==> s[j] != sep,
    ensures
        text::spec_split_once(s, sep) is None,
    decreases s.len(),
{
    if s.len() > 0 {
        let t = s.drop_first();
        assert(forall|j: int| 0 <= j < t.len() ==> t[j] != sep);
        lemma_split_once_none(t, sep);
    }
}

} // verus!
