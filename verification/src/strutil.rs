//! Character-level utilities that the engine's scanning passes are built on:
//! conversion between strings and character vectors, whitespace trimming,
//! first-occurrence substring search, and joining of segments.

use vstd::prelude::*;
use vstd::string::*;

verus! {

/// Whether a character has the Unicode white-space property.
pub uninterp spec fn is_space(c: char) -> bool;

/// Relies on std's char::is_whitespace: whether the character has the
/// Unicode white-space property, a function of the character alone.
#[verifier::external_body]
pub fn whitespace_char(c: char) -> (r: bool)
    ensures
        r == is_space(c),
{
    c.is_whitespace()
}

/// Whether a character is a Unicode letter or digit.
pub uninterp spec fn is_alphanum(c: char) -> bool;

/// Relies on std's char::is_alphanumeric: whether the character is a Unicode
/// letter or digit, a function of the character alone.
#[verifier::external_body]
pub fn alphanumeric_char(c: char) -> (r: bool)
    ensures
        r == is_alphanum(c),
{
    c.is_alphanumeric()
}

/// Relies on std's String::push: appends the given character to the end of
/// the string.
#[verifier::external_body]
fn push_char(s: &mut String, c: char)
    ensures
        final(s)@ == old(s)@.push(c),
{
    s.push(c);
}

/// The characters of a string slice, in order.
pub fn str_to_chars(s: &str) -> (r: Vec<char>)
    ensures
        r@ == s@,
{
    let n = s.unicode_len();
    let mut v: Vec<char> = Vec::new();
    let mut i: usize = 0;
    while i < n
        invariant
            n == s@.len(),
            i <= n,
            v@ == s@.subrange(0, i as int),
        decreases n - i,
    {
        let c = s.get_char(i);
        v.push(c);
        proof {
            assert(v@ =~= s@.subrange(0, i + 1 as int));
        }
        i += 1;
    }
    proof {
        assert(v@ =~= s@);
    }
    v
}

/// The string holding exactly the given characters, in order.
pub fn chars_to_string(v: &Vec<char>) -> (r: String)
    ensures
        r@ == v@,
{
    let mut s = String::new();
    let mut i: usize = 0;
    while i < v.len()
        invariant
            i <= v.len(),
            s@ == v@.subrange(0, i as int),
        decreases v.len() - i,
    {
        push_char(&mut s, v[i]);
        proof {
            assert(s@ =~= v@.subrange(0, i + 1 as int));
        }
        i += 1;
    }
    proof {
        assert(s@ =~= v@);
    }
    s
}

/// The first index at or after `i` holding a non-space character, or the
/// length of the sequence if all of them are spaces.
pub open spec fn first_non_space(s: Seq<char>, i: int) -> int
    decreases s.len() - i,
{
    if i >= s.len() {
        s.len() as int
    } else if is_space(s[i]) {
        first_non_space(s, i + 1)
    } else {
        i
    }
}

/// The end (exclusive) of the last non-space character strictly before `i`,
/// or 0 if all of them are spaces.
pub open spec fn last_non_space_end(s: Seq<char>, i: int) -> int
    decreases i,
{
    if i <= 0 {
        0
    } else if is_space(s[i - 1]) {
        last_non_space_end(s, i - 1)
    } else {
        i
    }
}

/// The sequence with leading and trailing white space removed.
pub open spec fn spec_trim(s: Seq<char>) -> Seq<char> {
    let a = first_non_space(s, 0);
    let b = last_non_space_end(s, s.len() as int);
    if a < b {
        s.subrange(a, b)
    } else {
        Seq::empty()
    }
}

proof fn lemma_last_non_space_end_all_space(s: Seq<char>, i: int)
    requires
        0 <= i <= s.len(),
        forall|j: int| 0 <= j < i ==> is_space(s[j]),
    ensures
        last_non_space_end(s, i) == 0,
    decreases i,
{
    if i > 0 {
        lemma_last_non_space_end_all_space(s, i - 1);
    }
}

/// The characters of `s` with leading and trailing white space removed.
pub fn trim_chars(s: &Vec<char>) -> (r: Vec<char>)
    ensures
        r@ == spec_trim(s@),
{
    let n = s.len();
    let mut a: usize = 0;
    while a < n && whitespace_char(s[a])
        invariant
            n == s@.len(),
            0 <= a <= n,
            first_non_space(s@, 0) == first_non_space(s@, a as int),
            forall|j: int| 0 <= j < a ==> is_space(s@[j]),
        decreases n - a,
    {
        a += 1;
    }
    proof {
        assert(first_non_space(s@, 0) == a as int);
    }
    let mut b: usize = n;
    while b > a && whitespace_char(s[b - 1])
        invariant
            n == s@.len(),
            a <= b <= n,
            last_non_space_end(s@, n as int) == last_non_space_end(s@, b as int),
            forall|j: int| 0 <= j < a ==> is_space(s@[j]),
        decreases b,
    {
        b -= 1;
    }
    proof {
        if b == a {
            lemma_last_non_space_end_all_space(s@, a as int);
            assert(last_non_space_end(s@, n as int) == 0);
        } else {
            assert(last_non_space_end(s@, n as int) == b as int);
        }
    }
    let mut r: Vec<char> = Vec::new();
    let mut i: usize = a;
    while i < b
        invariant
            a <= i <= b <= n,
            n == s@.len(),
            r@ == s@.subrange(a as int, i as int),
        decreases b - i,
    {
        r.push(s[i]);
        proof {
            assert(r@ =~= s@.subrange(a as int, i + 1 as int));
        }
        i += 1;
    }
    proof {
        if a < b {
            assert(r@ =~= spec_trim(s@));
        } else {
            assert(r@ =~= spec_trim(s@));
        }
    }
    r
}

/// Whether `pat` occurs in `s` starting exactly at index `i`.
pub open spec fn match_at(s: Seq<char>, pat: Seq<char>, i: int) -> bool {
    0 <= i && i + pat.len() <= s.len() && s.subrange(i, i + pat.len() as int) == pat
}

/// Whether `pat` occurs anywhere in `s`.
pub open spec fn contains_seq(s: Seq<char>, pat: Seq<char>) -> bool {
    exists|i: int| match_at(s, pat, i)
}

/// Whether `pat` occurs in `s` at index `i`; `i` must leave room for `pat`.
fn is_match_at(s: &Vec<char>, pat: &Vec<char>, i: usize) -> (r: bool)
    requires
        i + pat@.len() <= s@.len(),
    ensures
        r == match_at(s@, pat@, i as int),
{
    let slen = s.len();
    let mut j: usize = 0;
    while j < pat.len()
        invariant
            i + pat@.len() <= s@.len(),
            slen == s@.len(),
            0 <= j <= pat@.len(),
            forall|k: int| 0 <= k < j ==> s@[i + k] == pat@[k],
        decreases pat.len() - j,
    {
        if s[i + j] != pat[j] {
            proof {
                assert(s@.subrange(i as int, i + pat@.len() as int)[j as int] == s@[i + j]);
            }
            return false;
        }
        j += 1;
    }
    proof {
        assert(s@.subrange(i as int, i + pat@.len() as int) =~= pat@);
    }
    true
}

/// The least index at which `pat` occurs in `s`, if it occurs at all.
pub fn find_first(s: &Vec<char>, pat: &Vec<char>) -> (r: Option<usize>)
    ensures
        match r {
            Some(i) => match_at(s@, pat@, i as int) && forall|j: int|
                0 <= j < i ==> !match_at(s@, pat@, j),
            None => !contains_seq(s@, pat@),
        },
{
    if pat.len() > s.len() {
        proof {
            assert(forall|i: int| !match_at(s@, pat@, i));
        }
        return None;
    }
    let last = s.len() - pat.len();
    let mut i: usize = 0;
    while i < last
        invariant
            pat@.len() <= s@.len(),
            last == s@.len() - pat@.len(),
            0 <= i <= last,
            forall|j: int| 0 <= j < i ==> !match_at(s@, pat@, j),
        decreases last - i,
    {
        if is_match_at(s, pat, i) {
            return Some(i);
        }
        i += 1;
    }
    if is_match_at(s, pat, last) {
        return Some(last);
    }
    proof {
        assert(forall|j: int| j > last ==> !match_at(s@, pat@, j));
        assert(!contains_seq(s@, pat@));
    }
    None
}

/// Whether `pat` occurs anywhere in `s`.
pub fn contains_chars(s: &Vec<char>, pat: &Vec<char>) -> (r: bool)
    ensures
        r == contains_seq(s@, pat@),
{
    match find_first(s, pat) {
        Some(_) => true,
        None => false,
    }
}

/// The pipe separator placed between rejoined pipeline segments.
pub open spec fn spec_separator() -> Seq<char> {
    seq![' ', '|', ' ']
}

/// The given segments joined with `" | "` between consecutive ones.
pub open spec fn spec_join(parts: Seq<Seq<char>>) -> Seq<char>
    decreases parts.len(),
{
    if parts.len() == 0 {
        Seq::empty()
    } else if parts.len() == 1 {
        parts[0]
    } else {
        parts[0] + spec_separator() + spec_join(parts.drop_first())
    }
}

/// Joins the given segments with `" | "` between consecutive ones.
pub fn join_segments(parts: &Vec<String>) -> (r: String)
    ensures
        r@ == spec_join(parts.deep_view()),
{
    let mut r = String::new();
    let mut i: usize = 0;
    proof {
        reveal_strlit(" | ");
        assert(parts.deep_view().subrange(0, 0) =~= Seq::<Seq<char>>::empty());
    }
    while i < parts.len()
        invariant
            0 <= i <= parts@.len(),
            parts.deep_view().len() == parts@.len(),
            forall|k: int| 0 <= k < parts@.len() ==> parts.deep_view()[k] == parts@[k]@,
            r@ == spec_join(parts.deep_view().subrange(0, i as int)),
        decreases parts.len() - i,
    {
        if i > 0 {
            r.append(" | ");
            proof {
                reveal_strlit(" | ");
                assert(" | "@ =~= spec_separator());
            }
        }
        r.append(parts[i].as_str());
        i += 1;
        proof {
            lemma_join_snoc(parts.deep_view(), i as int);
        }
    }
    proof {
        assert(parts.deep_view().subrange(0, parts@.len() as int) =~= parts.deep_view());
    }
    r
}

/// Appending one more segment to a join extends it with the separator (when
/// the join was non-empty) and the segment.
proof fn lemma_join_snoc(parts: Seq<Seq<char>>, i: int)
    requires
        1 <= i <= parts.len(),
    ensures
        spec_join(parts.subrange(0, i)) == if i == 1 {
            parts[0]
        } else {
            spec_join(parts.subrange(0, i - 1)) + spec_separator() + parts[i - 1]
        },
    decreases i,
{
    if i == 1 {
        assert(parts.subrange(0, 1) =~= seq![parts[0]]);
        assert(spec_join(seq![parts[0]]) == parts[0]);
    } else {
        let p = parts.subrange(0, i);
        let q = parts.subrange(0, i - 1);
        assert(p.drop_first() =~= parts.subrange(1, i));
        assert(q.drop_first() =~= parts.subrange(1, i - 1));
        lemma_join_shift(parts, i);
    }
}

/// Helper for `lemma_join_snoc`: the same fact stated on the tail.
proof fn lemma_join_shift(parts: Seq<Seq<char>>, i: int)
    requires
        2 <= i <= parts.len(),
    ensures
        spec_join(parts.subrange(0, i)) == spec_join(parts.subrange(0, i - 1))
            + spec_separator() + parts[i - 1],
    decreases i,
{
    let p = parts.subrange(0, i);
    let q = parts.subrange(0, i - 1);
    if i == 2 {
        assert(p =~= seq![parts[0], parts[1]]);
        assert(q =~= seq![parts[0]]);
        assert(p.drop_first() =~= seq![parts[1]]);
        assert(spec_join(p.drop_first()) == parts[1]);
    } else {
        lemma_join_shift(parts.drop_first(), i - 1);
        assert(p.drop_first() =~= parts.drop_first().subrange(0, i - 1));
        assert(q.drop_first() =~= parts.drop_first().subrange(0, i - 2));
        assert(parts.drop_first()[i - 2] == parts[i - 1]);
        assert(spec_join(p) == p[0] + spec_separator() + spec_join(p.drop_first()));
        assert(spec_join(q) == q[0] + spec_separator() + spec_join(q.drop_first()));
        assert(p[0] == parts[0] && q[0] == parts[0]);
        assert(p[0] + spec_separator() + (spec_join(q.drop_first()) + spec_separator()
            + parts[i - 1]) =~= (q[0] + spec_separator() + spec_join(q.drop_first()))
            + spec_separator() + parts[i - 1]);
    }
}

} // verus!
