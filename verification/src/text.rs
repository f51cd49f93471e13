//! Verified string utilities: equality, prefix tests, splitting, joining,
//! decimal parsing and shell-like tokenization of indirection files.

use vstd::prelude::*;
use vstd::string::StrSliceExecFns;
use vstd::string::StringExecFns;

verus! {

/// `s` split on every occurrence of `sep`; always at least one part.
pub open spec fn spec_split(s: Seq<char>, sep: char) -> Seq<Seq<char>>
    decreases s.len(),
{
    if s.len() == 0 {
        seq![Seq::<char>::empty()]
    } else if s[0] == sep {
        seq![Seq::<char>::empty()] + spec_split(s.drop_first(), sep)
    } else {
        let rest = spec_split(s.drop_first(), sep);
        seq![seq![s[0]] + rest[0]] + rest.drop_first()
    }
}

pub proof fn lemma_split_len(s: Seq<char>, sep: char)
    ensures
        spec_split(s, sep).len() >= 1,
    decreases s.len(),
{
    if s.len() > 0 {
        lemma_split_len(s.drop_first(), sep);
    }
}

/// The name and the remainder around the first occurrence of `sep`, when
/// `sep` occurs at all.
pub open spec fn spec_split_once(s: Seq<char>, sep: char) -> Option<(Seq<char>, Seq<char>)>
    decreases s.len(),
{
    if s.len() == 0 {
        None
    } else if s[0] == sep {
        Some((Seq::<char>::empty(), s.drop_first()))
    } else {
        match spec_split_once(s.drop_first(), sep) {
            None => None,
            Some((a, b)) => Some((seq![s[0]] + a, b)),
        }
    }
}

/// The parts joined back with `sep` between them.
pub open spec fn spec_join(vs: Seq<Seq<char>>, sep: char) -> Seq<char>
    decreases vs.len(),
{
    if vs.len() == 0 {
        Seq::empty()
    } else if vs.len() == 1 {
        vs[0]
    } else {
        vs[0] + seq![sep] + spec_join(vs.drop_first(), sep)
    }
}

/// The remaining split parts, with a partial first token already read.
pub open spec fn prepend_first(c: Seq<char>, parts: Seq<Seq<char>>) -> Seq<Seq<char>> {
    seq![c + parts[0]] + parts.drop_first()
}

proof fn lemma_join_push(vs: Seq<Seq<char>>, v: Seq<char>, sep: char)
    ensures
        vs.len() == 0 ==> spec_join(vs.push(v), sep) == v,
        vs.len() > 0 ==> spec_join(vs.push(v), sep) == spec_join(vs, sep) + seq![sep] + v,
    decreases vs.len(),
{
    if vs.len() == 0 {
        assert(vs.push(v)[0] == v);
    } else {
        let t = vs.drop_first();
        lemma_join_push(t, v, sep);
        assert(vs.push(v).drop_first() =~= t.push(v));
        assert(vs.push(v)[0] == vs[0]);
        if t.len() == 0 {
            assert(spec_join(vs.push(v), sep) == vs[0] + seq![sep] + spec_join(t.push(v), sep));
            assert(spec_join(vs, sep) == vs[0]);
        } else {
            assert(spec_join(vs.push(v), sep) == vs[0] + seq![sep] + (spec_join(t, sep)
                + seq![sep] + v));
            assert(spec_join(vs, sep) == vs[0] + seq![sep] + spec_join(t, sep));
            assert(vs[0] + seq![sep] + (spec_join(t, sep) + seq![sep] + v) =~= (vs[0] + seq![sep]
                + spec_join(t, sep)) + seq![sep] + v);
        }
    }
}

/// Splits `s` on every occurrence of `sep`, like `str::split`.
pub fn split_char(s: &str, sep: char) -> (r: Vec<String>)
    ensures
        r.deep_view() == spec_split(s@, sep),
{
    let n = s.unicode_len();
    let mut done: Vec<String> = Vec::new();
    let mut cur: String = String::new();
    let mut i: usize = 0;
    proof {
        lemma_split_len(s@, sep);
        assert(done.deep_view() =~~= Seq::<Seq<char>>::empty());
        assert(prepend_first(cur@, spec_split(s@, sep)) =~~= spec_split(s@, sep));
        assert(s@.skip(0) =~= s@);
    }
    while i < n
        invariant
            i <= n,
            n == s@.len(),
            spec_split(s@, sep) =~~= done.deep_view() + prepend_first(
                cur@,
                spec_split(s@.skip(i as int), sep),
            ),
        decreases n - i,
    {
        let c = s.get_char(i);
        let ghost si = s@.skip(i as int);
        let ghost si1 = s@.skip(i as int + 1);
        let ghost x = spec_split(si1, sep);
        let ghost old_done = done.deep_view();
        let ghost old_cur = cur@;
        proof {
            lemma_split_len(si1, sep);
            assert(si.drop_first() =~= si1);
            assert(si[0] == s@[i as int]);
        }
        if c == sep {
            proof {
                assert(spec_split(si, sep) == seq![Seq::<char>::empty()] + x);
                assert(prepend_first(old_cur, seq![Seq::<char>::empty()] + x) =~~= seq![old_cur]
                    + x);
            }
            done.push(cur);
            cur = String::new();
            proof {
                assert(done.deep_view() =~~= old_done.push(old_cur));
                assert(prepend_first(cur@, x) =~~= x);
                assert(old_done + (seq![old_cur] + x) =~~= old_done.push(old_cur) + x);
            }
        } else {
            cur.push(c);
            proof {
                assert(spec_split(si, sep) == seq![seq![s@[i as int]] + x[0]] + x.drop_first());
                assert(prepend_first(old_cur, seq![seq![s@[i as int]] + x[0]] + x.drop_first())
                    =~~= prepend_first(cur@, x));
            }
        }
        i = i + 1;
    }
    proof {
        assert(s@.skip(n as int) =~= Seq::<char>::empty());
        assert(spec_split(s@.skip(n as int), sep) == seq![Seq::<char>::empty()]);
        assert(prepend_first(cur@, seq![Seq::<char>::empty()]) =~~= seq![cur@]);
    }
    let ghost old_done = done.deep_view();
    let ghost old_cur = cur@;
    done.push(cur);
    proof {
        assert(done.deep_view() =~~= old_done.push(old_cur));
        assert(old_done + seq![old_cur] =~~= old_done.push(old_cur));
    }
    done
}

/// Joins the strings of `vs` with `sep` between them, like `join`.
pub fn join_char(vs: &Vec<String>, sep: char) -> (r: String)
    ensures
        r@ == spec_join(vs.deep_view(), sep),
{
    let mut r = String::new();
    let mut i: usize = 0;
    while i < vs.len()
        invariant
            i <= vs.len(),
            r@ == spec_join(vs.deep_view().take(i as int), sep),
        decreases vs.len() - i,
    {
        let ghost pre = vs.deep_view().take(i as int);
        proof {
            assert(vs.deep_view().take(i as int + 1) =~~= pre.push(vs@[i as int]@));
            lemma_join_push(pre, vs@[i as int]@, sep);
        }
        if i > 0 {
            r.push(sep);
        }
        r.append(vs[i].as_str());
        proof {
            if pre.len() > 0 {
                assert(r@ =~= spec_join(pre, sep) + seq![sep] + vs@[i as int]@);
            }
        }
        i = i + 1;
    }
    proof {
        assert(vs.deep_view().take(vs@.len() as int) =~= vs.deep_view());
    }
    r
}

pub open spec fn spec_starts_with(s: Seq<char>, p: Seq<char>) -> bool {
    p.len() <= s.len() && (forall|j: int| 0 <= j < p.len() ==> s[j] == p[j])
}

/// Whether two string slices hold the same characters.
pub fn str_eq(a: &str, b: &str) -> (r: bool)
    ensures
        r == (a@ == b@),
{
    let x = a.to_owned();
    let y = b.to_owned();
    x == y
}

/// Whether an owned string holds the same characters as a slice.
pub fn string_eq(a: &String, b: &str) -> (r: bool)
    ensures
        r == (a@ == b@),
{
    str_eq(a.as_str(), b)
}

/// Relies on `String::push` from std: appends one character at the end.
pub assume_specification[ String::push ](s: &mut String, ch: char)
    ensures
        final(s)@ == old(s)@.push(ch),
;

/// Whether `s` begins with the characters of `p`.
pub fn str_starts_with(s: &str, p: &str) -> (r: bool)
    ensures
        r == spec_starts_with(s@, p@),
{
    let n = s.unicode_len();
    let m = p.unicode_len();
    if m > n {
        return false;
    }
    let mut j: usize = 0;
    while j < m
        invariant
            j <= m,
            forall|k: int| 0 <= k < j ==> s@[k] == p@[k],
        decreases m - j,
    {
        if s.get_char(j) != p.get_char(j) {
            return false;
        }
        j = j + 1;
    }
    true
}

pub open spec fn is_digit(c: char) -> bool {
    48 <= c as u32 <= 57
}

pub open spec fn digit_val(c: char) -> nat {
    (c as u32 - 48) as nat
}

pub open spec fn all_digits(s: Seq<char>) -> bool {
    forall|j: int| 0 <= j < s.len() ==> is_digit(s[j])
}

/// The number the digit string denotes.
pub open spec fn dec_value(s: Seq<char>) -> nat
    decreases s.len(),
{
    if s.len() == 0 {
        0
    } else {
        dec_value(s.drop_last()) * 10 + digit_val(s.last())
    }
}

/// One leading `+` sign removed, as integer parsing accepts it.
pub open spec fn strip_plus(s: Seq<char>) -> Seq<char> {
    if s.len() > 0 && s[0] == '+' {
        s.drop_first()
    } else {
        s
    }
}

/// What `str::parse::<u32>` returns: the denoted number when the input is a
/// nonempty digit string (after an optional `+`) whose value fits.
pub open spec fn spec_parse_u32(s: Seq<char>) -> Option<u32> {
    let t = strip_plus(s);
    if t.len() > 0 && all_digits(t) && dec_value(t) <= u32::MAX {
        Some(dec_value(t) as u32)
    } else {
        None
    }
}

/// Parses a decimal `u32`, rejecting overflow and stray characters.
pub fn parse_u32(s: &str) -> (r: Option<u32>)
    ensures
        r == spec_parse_u32(s@),
{
    let n = s.unicode_len();
    let mut i: usize = 0;
    if n > 0 && s.get_char(0) == '+' {
        i = 1;
    }
    let ghost t = strip_plus(s@);
    proof {
        assert(t =~= s@.skip(i as int));
    }
    if i >= n {
        return None;
    }
    let mut acc: u64 = 0;
    let mut ovf = false;
    let mut j: usize = i;
    proof {
        assert(t.take(0) =~= Seq::<char>::empty());
    }
    while j < n
        invariant
            i <= j <= n,
            n == s@.len(),
            t == s@.skip(i as int),
            all_digits(t.take(j - i)),
            !ovf ==> acc == dec_value(t.take(j - i)) && acc <= u32::MAX,
            ovf ==> dec_value(t.take(j - i)) > u32::MAX,
        decreases n - j,
    {
        let c = s.get_char(j);
        let u = c as u32;
        proof {
            assert(t[j - i] == s@[j as int]);
        }
        if u < 48 || u > 57 {
            proof {
                assert(!is_digit(t[j - i]));
            }
            return None;
        }
        let d = (u - 48) as u64;
        proof {
            assert(t.take(j - i + 1).drop_last() =~= t.take(j - i));
            assert(t.take(j - i + 1).last() == t[j - i]);
            assert(dec_value(t.take(j - i + 1)) == dec_value(t.take(j - i)) * 10 + digit_val(
                t[j - i],
            ));
        }
        if !ovf {
            acc = acc * 10 + d;
            if acc > 0xFFFF_FFFF {
                ovf = true;
            }
        } else {
            proof {
                assert(dec_value(t.take(j - i + 1)) > u32::MAX);
            }
        }
        j = j + 1;
    }
    proof {
        assert(t.take(n - i) =~= t);
    }
    if ovf {
        None
    } else {
        Some(acc as u32)
    }
}

pub open spec fn is_space(c: char) -> bool {
    c == ' ' || c == '\t' || c == '\n' || c == '\r'
}

/// Leading whitespace removed.
pub open spec fn spec_trim_front(s: Seq<char>) -> Seq<char>
    decreases s.len(),
{
    if s.len() > 0 && is_space(s[0]) {
        spec_trim_front(s.drop_first())
    } else {
        s
    }
}

/// Trailing whitespace removed.
pub open spec fn spec_trim_back(s: Seq<char>) -> Seq<char>
    decreases s.len(),
{
    if s.len() > 0 && is_space(s.last()) {
        spec_trim_back(s.drop_last())
    } else {
        s
    }
}

/// Whitespace removed from both ends, like `str::trim` on ASCII input.
pub open spec fn spec_trim(s: Seq<char>) -> Seq<char> {
    spec_trim_back(spec_trim_front(s))
}

proof fn lemma_trim_front_skip(s: Seq<char>, k: int)
    requires
        0 <= k <= s.len(),
        forall|j: int| 0 <= j < k ==> is_space(s[j]),
        k < s.len() ==> !is_space(s[k]),
    ensures
        spec_trim_front(s) == s.skip(k),
    decreases k,
{
    if k == 0 {
        assert(s.skip(0) =~= s);
    } else {
        let t = s.drop_first();
        assert(forall|j: int| 0 <= j < k - 1 ==> t[j] == s[j + 1] && is_space(t[j]));
        assert(k - 1 < t.len() ==> t[k - 1] == s[k]);
        lemma_trim_front_skip(t, k - 1);
        assert(t.skip(k - 1) =~= s.skip(k));
    }
}

proof fn lemma_trim_back_take(s: Seq<char>, k: int)
    requires
        0 <= k <= s.len(),
        forall|j: int| k <= j < s.len() ==> is_space(s[j]),
        k > 0 ==> !is_space(s[k - 1]),
    ensures
        spec_trim_back(s) == s.take(k),
    decreases s.len() - k,
{
    if k == s.len() {
        assert(s.take(k) =~= s);
    } else {
        let t = s.drop_last();
        assert(is_space(s.last()));
        assert(forall|j: int| k <= j < t.len() ==> t[j] == s[j] && is_space(t[j]));
        assert(k > 0 ==> t[k - 1] == s[k - 1]);
        lemma_trim_back_take(t, k);
        assert(t.take(k) =~= s.take(k));
    }
}

/// Whether `c` is one of the whitespace separators.
pub fn is_space_char(c: char) -> (r: bool)
    ensures
        r == is_space(c),
{
    c == ' ' || c == '\t' || c == '\n' || c == '\r'
}

/// Strips leading and trailing whitespace.
pub fn trim(s: &str) -> (r: String)
    ensures
        r@ == spec_trim(s@),
{
    let n = s.unicode_len();
    let mut a: usize = 0;
    while a < n && is_space_char(s.get_char(a))
        invariant
            a <= n,
            n == s@.len(),
            forall|j: int| 0 <= j < a ==> is_space(s@[j]),
        decreases n - a,
    {
        a = a + 1;
    }
    proof {
        lemma_trim_front_skip(s@, a as int);
    }
    let mut b: usize = n;
    while b > a && is_space_char(s.get_char(b - 1))
        invariant
            a <= b <= n,
            n == s@.len(),
            forall|j: int| b <= j < n ==> is_space(s@[j]),
        decreases b,
    {
        b = b - 1;
    }
    let ghost f = s@.skip(a as int);
    proof {
        assert(forall|j: int| b - a <= j < f.len() ==> f[j] == s@[j + a] && is_space(f[j]));
        assert(b > a ==> !is_space(f[b - a - 1]));
        lemma_trim_back_take(f, b - a);
    }
    let r = s.substring_char(a, b).to_owned();
    proof {
        assert(s@.subrange(a as int, b as int) =~= f.take(b - a));
    }
    r
}

/// The arguments an indirection file's contents expand to: whitespace
/// separates tokens, single and double quote spans protect it, and a
/// backslash escapes the next character.
pub open spec fn spec_tokenize_from(
    s: Seq<char>,
    cur: Seq<char>,
    in_d: bool,
    in_s: bool,
    esc: bool,
) -> Seq<Seq<char>>
    decreases s.len(),
{
    if s.len() == 0 {
        if cur.len() > 0 {
            seq![cur]
        } else {
            Seq::empty()
        }
    } else {
        let c = s[0];
        let t = s.drop_first();
        if esc {
            spec_tokenize_from(t, cur.push(c), in_d, in_s, false)
        } else if c == '\\' {
            spec_tokenize_from(t, cur, in_d, in_s, true)
        } else if c == '"' && !in_s {
            spec_tokenize_from(t, cur, !in_d, in_s, false)
        } else if c == '\'' && !in_d {
            spec_tokenize_from(t, cur, in_d, !in_s, false)
        } else if is_space(c) && !in_d && !in_s {
            if cur.len() > 0 {
                seq![cur] + spec_tokenize_from(t, Seq::empty(), in_d, in_s, false)
            } else {
                spec_tokenize_from(t, Seq::empty(), in_d, in_s, false)
            }
        } else {
            spec_tokenize_from(t, cur.push(c), in_d, in_s, false)
        }
    }
}

pub open spec fn spec_tokenize(s: Seq<char>) -> Seq<Seq<char>> {
    spec_tokenize_from(s, Seq::empty(), false, false, false)
}

/// Tokenizes an indirection ("response") file's contents.
pub fn tokenize_response(content: &str) -> (r: Vec<String>)
    ensures
        r.deep_view() == spec_tokenize(content@),
{
    let n = content.unicode_len();
    let mut done: Vec<String> = Vec::new();
    let mut cur: String = String::new();
    let mut in_d = false;
    let mut in_s = false;
    let mut esc = false;
    let mut i: usize = 0;
    proof {
        assert(content@.skip(0) =~= content@);
        assert(done.deep_view() + spec_tokenize(content@) =~~= spec_tokenize(content@));
    }
    while i < n
        invariant
            i <= n,
            n == content@.len(),
            spec_tokenize(content@) =~~= done.deep_view() + spec_tokenize_from(
                content@.skip(i as int),
                cur@,
                in_d,
                in_s,
                esc,
            ),
        decreases n - i,
    {
        let c = content.get_char(i);
        let ghost si = content@.skip(i as int);
        let ghost si1 = content@.skip(i as int + 1);
        let ghost pre = done.deep_view();
        proof {
            assert(si.drop_first() =~= si1);
            assert(si[0] == content@[i as int]);
        }
        if esc {
            cur.push(c);
            esc = false;
        } else if c == '\\' {
            esc = true;
        } else if c == '"' && !in_s {
            in_d = !in_d;
        } else if c == '\'' && !in_d {
            in_s = !in_s;
        } else if (c == ' ' || c == '\n' || c == '\t' || c == '\r') && !in_d && !in_s {
            if !cur.as_str().is_empty() {
                let ghost oc = cur@;
                done.push(cur);
                cur = String::new();
                proof {
                    assert(done.deep_view() =~~= pre.push(oc));
                    assert(pre + (seq![oc] + spec_tokenize_from(
                        si1,
                        Seq::empty(),
                        in_d,
                        in_s,
                        false,
                    )) =~~= pre.push(oc) + spec_tokenize_from(
                        si1,
                        Seq::empty(),
                        in_d,
                        in_s,
                        false,
                    ));
                }
            } else {
                proof {
                    assert(cur@ =~= Seq::<char>::empty());
                }
            }
        } else {
            cur.push(c);
        }
        i = i + 1;
    }
    proof {
        assert(content@.skip(n as int) =~= Seq::<char>::empty());
    }
    if !cur.as_str().is_empty() {
        let ghost pre = done.deep_view();
        let ghost oc = cur@;
        done.push(cur);
        proof {
            assert(done.deep_view() =~~= pre.push(oc));
            assert(pre + seq![oc] =~~= pre.push(oc));
        }
    } else {
        proof {
            assert(cur@ =~= Seq::<char>::empty());
            assert(done.deep_view() + Seq::<Seq<char>>::empty() =~~= done.deep_view());
        }
    }
    done
}

} // verus!
