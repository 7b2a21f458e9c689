//! Small executable helpers over strings, each tied to the character-sequence
//! view that the contracts in the rest of the crate speak of.

use vstd::prelude::*;
use vstd::string::StrSliceExecFns;
use vstd::string::StringExecFns;

verus! {

broadcast use vstd::string::group_string_axioms;

/// True exactly when the two string slices hold the same characters.
pub fn str_eq(a: &str, b: &str) -> (r: bool)
    ensures
        r == (a@ == b@),
{
    let s: String = a.to_owned();
    let t: String = b.to_owned();
    s == t
}

/// Relies on `String::push`: appends the given character to the end of the
/// string.
#[verifier::external_body]
pub fn push_char(s: &mut String, c: char)
    ensures
        final(s)@ == old(s)@.push(c),
{
    s.push(c);
}

/// Splitting a character sequence at every space, with `cur` the part of the
/// current token read so far.
pub open spec fn split_sp_rec(s: Seq<char>, cur: Seq<char>) -> Seq<Seq<char>>
    decreases s.len(),
{
    if s.len() == 0 {
        seq![cur]
    } else if s[0] == ' ' {
        seq![cur] + split_sp_rec(s.drop_first(), Seq::empty())
    } else {
        split_sp_rec(s.drop_first(), cur.push(s[0]))
    }
}

/// The tokens of `s`, split at every space. The empty sequence yields one
/// empty token.
pub open spec fn split_sp(s: Seq<char>) -> Seq<Seq<char>> {
    split_sp_rec(s, Seq::empty())
}

/// Split a string at every space character.
pub fn split_space(s: &str) -> (r: Vec<String>)
    ensures
        r.deep_view() == split_sp(s@),
{
    let n = s.unicode_len();
    let mut out: Vec<String> = Vec::new();
    let mut cur: String = String::new();
    let mut i: usize = 0;
    proof {
        assert(s@.skip(0) =~= s@);
        assert(out.deep_view() =~= Seq::<Seq<char>>::empty());
        assert(out.deep_view() + split_sp_rec(s@.skip(0), cur@) =~= split_sp(s@));
    }
    while i < n
        invariant
            i <= n,
            n == s@.len(),
            split_sp(s@) == out.deep_view() + split_sp_rec(s@.skip(i as int), cur@),
        decreases n - i,
    {
        let ghost prev_out = out.deep_view();
        let ghost prev_cur = cur@;
        let c = s.get_char(i);
        proof {
            assert(s@.skip(i as int).len() > 0);
            assert(s@.skip(i as int)[0] == c);
            assert(s@.skip(i as int).drop_first() =~= s@.skip(i as int + 1));
        }
        if c == ' ' {
            out.push(cur);
            cur = String::new();
            proof {
                assert(split_sp_rec(s@.skip(i as int), prev_cur) == seq![prev_cur]
                    + split_sp_rec(s@.skip(i as int + 1), Seq::empty()));
                assert(out.deep_view() =~= prev_out.push(prev_cur));
                assert(out.deep_view() + split_sp_rec(s@.skip(i as int + 1), cur@) =~= prev_out
                    + split_sp_rec(s@.skip(i as int), prev_cur));
            }
        } else {
            push_char(&mut cur, c);
            proof {
                assert(split_sp_rec(s@.skip(i as int), prev_cur) == split_sp_rec(
                    s@.skip(i as int + 1),
                    prev_cur.push(c),
                ));
            }
        }
        i = i + 1;
    }
    proof {
        assert(s@.skip(n as int).len() == 0);
        assert(split_sp_rec(s@.skip(n as int), cur@) == seq![cur@]);
    }
    let ghost prev_out = out.deep_view();
    let ghost prev_cur = cur@;
    out.push(cur);
    proof {
        assert(out.deep_view() =~= prev_out + seq![prev_cur]);
    }
    out
}

/// The tokens joined with `sep` between consecutive tokens; no separator is
/// added before the first or after the last.
pub open spec fn join_sep(ts: Seq<Seq<char>>, sep: Seq<char>) -> Seq<char>
    decreases ts.len(),
{
    if ts.len() == 0 {
        Seq::empty()
    } else if ts.len() == 1 {
        ts[0]
    } else {
        join_sep(ts.drop_last(), sep) + sep + ts.last()
    }
}

/// Join the strings of `v`, writing `sep` between consecutive entries.
pub fn join_with(v: &Vec<String>, sep: &str) -> (r: String)
    ensures
        r@ == join_sep(v.deep_view(), sep@),
{
    let mut r = String::new();
    let mut i: usize = 0;
    while i < v.len()
        invariant
            i <= v.len(),
            r@ == join_sep(v.deep_view().take(i as int), sep@),
        decreases v.len() - i,
    {
        if i > 0 {
            r.append(sep);
        }
        r.append(v[i].as_str());
        i = i + 1;
        proof {
            let dv = v.deep_view();
            assert(dv.take(i as int).drop_last() =~= dv.take(i as int - 1));
            assert(dv.take(i as int).last() == dv[i as int - 1]);
        }
    }
    proof {
        assert(v.deep_view().take(v.len() as int) =~= v.deep_view());
    }
    r
}

/// The least index at or after `from` whose token equals `t`, or the length
/// when no such token exists.
pub open spec fn find_tok(ts: Seq<Seq<char>>, t: Seq<char>, from: int) -> int
    decreases ts.len() - from,
{
    if from < 0 || from >= ts.len() {
        ts.len() as int
    } else if ts[from] == t {
        from
    } else {
        find_tok(ts, t, from + 1)
    }
}

pub proof fn lemma_find_tok(ts: Seq<Seq<char>>, t: Seq<char>, from: int, i: int)
    requires
        0 <= from <= i <= ts.len(),
        forall|j: int| from <= j < i ==> ts[j] != t,
        i == ts.len() || ts[i] == t,
    ensures
        find_tok(ts, t, from) == i,
    decreases i - from,
{
    if from < i {
        lemma_find_tok(ts, t, from + 1, i);
    }
}

/// Strict lexicographic order on character sequences, by code point.
pub open spec fn lex_lt(a: Seq<char>, b: Seq<char>) -> bool
    decreases a.len(),
{
    if b.len() == 0 {
        false
    } else if a.len() == 0 {
        true
    } else if a[0] == b[0] {
        lex_lt(a.drop_first(), b.drop_first())
    } else {
        a[0] < b[0]
    }
}

/// The order is trichotomous: of two sequences, exactly one of smaller,
/// greater, or equal holds.
pub proof fn lemma_lex_trichotomy(a: Seq<char>, b: Seq<char>)
    ensures
        lex_lt(a, b) || lex_lt(b, a) || a == b,
        !(lex_lt(a, b) && lex_lt(b, a)),
        lex_lt(a, b) ==> a != b,
    decreases a.len() + b.len(),
{
    if a.len() > 0 && b.len() > 0 && a[0] == b[0] {
        lemma_lex_trichotomy(a.drop_first(), b.drop_first());
        if !lex_lt(a, b) && !lex_lt(b, a) {
            assert(a.drop_first() == b.drop_first());
            assert(a.len() == b.len());
            assert forall|i: int| 0 <= i < a.len() implies a[i] == b[i] by {
                if i >= 1 {
                    assert(a[i] == a.drop_first()[i - 1]);
                    assert(b[i] == b.drop_first()[i - 1]);
                }
            }
            assert(a =~= b);
        }
        if lex_lt(a, b) && a == b {
            assert(a.drop_first() =~= b.drop_first());
        }
    } else if b.len() == 0 && a.len() == 0 {
        assert(a =~= b);
    }
}

/// The order is transitive.
pub proof fn lemma_lex_trans(a: Seq<char>, b: Seq<char>, c: Seq<char>)
    requires
        lex_lt(a, b),
        lex_lt(b, c),
    ensures
        lex_lt(a, c),
    decreases a.len() + b.len() + c.len(),
{
    if b.len() > 0 && c.len() > 0 && a.len() > 0 {
        if a[0] == b[0] && b[0] == c[0] {
            lemma_lex_trans(a.drop_first(), b.drop_first(), c.drop_first());
        }
    }
}

/// After an equal prefix of length `i`, the order is decided by the rest.
pub proof fn lemma_lex_skip(a: Seq<char>, b: Seq<char>, i: int)
    requires
        0 <= i <= a.len(),
        i <= b.len(),
        forall|j: int| 0 <= j < i ==> a[j] == b[j],
    ensures
        lex_lt(a, b) == lex_lt(a.skip(i), b.skip(i)),
    decreases i,
{
    if i > 0 {
        assert(a.len() > 0 && b.len() > 0 && a[0] == b[0]);
        lemma_lex_skip(a.drop_first(), b.drop_first(), i - 1);
        assert(a.drop_first().skip(i - 1) =~= a.skip(i));
        assert(b.drop_first().skip(i - 1) =~= b.skip(i));
    } else {
        assert(a.skip(0) =~= a);
        assert(b.skip(0) =~= b);
    }
}

/// True exactly when `a` comes strictly before `b` in lexicographic order.
pub fn str_lt(a: &str, b: &str) -> (r: bool)
    ensures
        r == lex_lt(a@, b@),
{
    let an = a.unicode_len();
    let bn = b.unicode_len();
    let mut i: usize = 0;
    loop
        invariant_except_break
            i <= an,
            i <= bn,
            an == a@.len(),
            bn == b@.len(),
            forall|j: int| 0 <= j < i ==> a@[j] == b@[j],
        ensures
            an == a@.len(),
            bn == b@.len(),
            0 <= i <= an,
            i <= bn,
            forall|j: int| 0 <= j < i ==> a@[j] == b@[j],
            i == an || i == bn || a@[i as int] != b@[i as int],
        decreases an - i,
    {
        if i == an || i == bn {
            break;
        }
        if a.get_char(i) != b.get_char(i) {
            break;
        }
        i = i + 1;
    }
    proof {
        lemma_lex_skip(a@, b@, i as int);
    }
    if i == an {
        let r = i < bn;
        proof {
            assert(a@.skip(i as int).len() == 0);
            if i < bn {
                assert(b@.skip(i as int).len() > 0);
            } else {
                assert(b@.skip(i as int).len() == 0);
            }
        }
        r
    } else if i == bn {
        proof {
            assert(b@.skip(i as int).len() == 0);
        }
        false
    } else {
        let r = a.get_char(i) < b.get_char(i);
        proof {
            assert(a@.skip(i as int)[0] == a@[i as int]);
            assert(b@.skip(i as int)[0] == b@[i as int]);
        }
        r
    }
}

/// The least position at or after `from` where `p` occurs in `s`, or the
/// length of `s` when it does not occur.
pub open spec fn find_sub(s: Seq<char>, p: Seq<char>, from: int) -> int
    decreases s.len() + 1 - from,
{
    if from < 0 || from + p.len() > s.len() {
        s.len() as int
    } else if s.subrange(from, from + p.len()) == p {
        from
    } else {
        find_sub(s, p, from + 1)
    }
}

pub proof fn lemma_find_sub_found(s: Seq<char>, p: Seq<char>, from: int, i: int)
    requires
        0 <= from <= i,
        i + p.len() <= s.len(),
        forall|j: int| from <= j < i ==> #[trigger] s.subrange(j, j + p.len()) != p,
        s.subrange(i, i + p.len()) == p,
    ensures
        find_sub(s, p, from) == i,
    decreases i - from,
{
    if from < i {
        lemma_find_sub_found(s, p, from + 1, i);
    }
}

pub proof fn lemma_find_sub_none(s: Seq<char>, p: Seq<char>, from: int)
    requires
        0 <= from,
        forall|j: int|
            from <= j && j + p.len() <= s.len() ==> #[trigger] s.subrange(j, j + p.len()) != p,
    ensures
        find_sub(s, p, from) == s.len(),
    decreases s.len() + 1 - from,
{
    if from + p.len() <= s.len() {
        assert(s.subrange(from, from + p.len()) != p);
        lemma_find_sub_none(s, p, from + 1);
    }
}

/// `s` with its first occurrence of `p` replaced by `v`; unchanged when `p`
/// does not occur.
pub open spec fn replace_first(s: Seq<char>, p: Seq<char>, v: Seq<char>) -> Seq<char> {
    let i = find_sub(s, p, 0);
    if i + p.len() <= s.len() {
        s.take(i) + v + s.skip(i + p.len())
    } else {
        s
    }
}

/// Whether `p` occurs in `s` at position `at`.
fn match_at(s: &str, p: &str, at: usize) -> (r: bool)
    requires
        at + p@.len() <= s@.len(),
        s@.len() <= usize::MAX,
    ensures
        r == (s@.subrange(at as int, at as int + p@.len()) == p@),
{
    let m = p.unicode_len();
    let mut j: usize = 0;
    loop
        invariant_except_break
            j <= m,
            m == p@.len(),
            at + m <= s@.len(),
            s@.len() <= usize::MAX,
            forall|x: int| 0 <= x < j ==> s@[at + x] == p@[x],
        ensures
            m == p@.len(),
            at + m <= s@.len(),
            forall|x: int| 0 <= x < j ==> s@[at + x] == p@[x],
            j == m || s@[at + j] != p@[j as int],
            j <= m,
        decreases m - j,
    {
        if j == m {
            break;
        }
        if s.get_char(at + j) != p.get_char(j) {
            break;
        }
        j = j + 1;
    }
    if j == m {
        proof {
            assert(s@.subrange(at as int, at as int + p@.len()) =~= p@);
        }
        true
    } else {
        proof {
            assert(s@.subrange(at as int, at as int + p@.len())[j as int] == s@[at + j]);
        }
        false
    }
}

/// Substitute the placeholder's first occurrence in the template with the
/// given text; a template without the placeholder is returned unchanged.
pub fn fill_template(template: &str, placeholder: &str, value: &str) -> (r: String)
    ensures
        r@ == replace_first(template@, placeholder@, value@),
{
    let n = template.unicode_len();
    let m = placeholder.unicode_len();
    if m > n {
        return template.to_owned();
    }
    let mut i: usize = 0;
    let mut found: bool = false;
    loop
        invariant_except_break
            i <= n - m,
            n == template@.len(),
            m == placeholder@.len(),
            m <= n,
            !found,
            forall|j: int|
                0 <= j < i ==> #[trigger] template@.subrange(j, j + placeholder@.len())
                    != placeholder@,
        ensures
            n == template@.len(),
            m == placeholder@.len(),
            m <= n,
            i <= n - m,
            forall|j: int|
                0 <= j < i ==> #[trigger] template@.subrange(j, j + placeholder@.len())
                    != placeholder@,
            found ==> template@.subrange(i as int, i as int + placeholder@.len()) == placeholder@,
            !found ==> i == n - m && template@.subrange(i as int, i as int + placeholder@.len())
                != placeholder@,
        decreases n - m - i,
    {
        if match_at(template, placeholder, i) {
            found = true;
            break;
        }
        if i == n - m {
            break;
        }
        i = i + 1;
    }
    if found {
        proof {
            lemma_find_sub_found(template@, placeholder@, 0, i as int);
        }
        let mut r = template.substring_char(0, i).to_owned();
        r.append(value);
        r.append(template.substring_char(i + m, n));
        proof {
            assert(r@ =~= replace_first(template@, placeholder@, value@));
        }
        r
    } else {
        proof {
            if m == 0 {
                assert(template@.subrange(i as int, i as int + placeholder@.len())
                    =~= placeholder@);
            }
            lemma_find_sub_none(template@, placeholder@, 0);
        }
        template.to_owned()
    }
}

} // verus!
