//! The two post-processing passes applied to a rejoined pipeline: path
//! separator normalization and environment-variable syntax normalization.
//!
//! Both are blind textual rewrites for the target platform; they run on the
//! fully assembled pipeline, path separators first.

use vstd::prelude::*;

use crate::platform::Platform;
use crate::strutil::{alphanumeric_char, is_alphanum};

verus! {

/// How one character is rewritten by path-separator normalization: `/`
/// becomes `\` for a Windows target, `\` becomes `/` for a Linux-family or
/// macOS target, and an Unknown target changes nothing.
pub open spec fn path_char(c: char, target: Platform) -> char {
    if target == Platform::Windows {
        if c == '/' {
            '\\'
        } else {
            c
        }
    } else if target == Platform::Unknown {
        c
    } else {
        if c == '\\' {
            '/'
        } else {
            c
        }
    }
}

/// The command with every path separator rewritten for the target platform.
pub open spec fn spec_normalize_paths(s: Seq<char>, target: Platform) -> Seq<char> {
    Seq::new(s.len(), |i: int| path_char(s[i], target))
}

/// The characters that may make up an environment-variable name: letters,
/// digits, and the underscore.
pub open spec fn is_word_char(c: char) -> bool {
    is_alphanum(c) || c == '_'
}

/// Whether the character may make up an environment-variable name.
pub fn word_char(c: char) -> (r: bool)
    ensures
        r == is_word_char(c),
{
    alphanumeric_char(c) || c == '_'
}

/// The first index at or after `i` that does not hold a name character, or
/// the length of the sequence if the name run reaches its end.
pub open spec fn word_end(s: Seq<char>, i: int) -> int
    decreases s.len() - i,
{
    if i < 0 || i >= s.len() {
        s.len() as int
    } else if is_word_char(s[i]) {
        word_end(s, i + 1)
    } else {
        i
    }
}

proof fn lemma_word_end_bounds(s: Seq<char>, i: int)
    requires
        0 <= i <= s.len(),
    ensures
        i <= word_end(s, i) <= s.len(),
    decreases s.len() - i,
{
    if i < s.len() && is_word_char(s[i]) {
        lemma_word_end_bounds(s, i + 1);
    }
}

/// The first index at or after `i` holding a `%`, or the length of the
/// sequence if none follows.
pub open spec fn pct_end(s: Seq<char>, i: int) -> int
    decreases s.len() - i,
{
    if i < 0 || i >= s.len() {
        s.len() as int
    } else if s[i] == '%' {
        i
    } else {
        pct_end(s, i + 1)
    }
}

proof fn lemma_pct_end_bounds(s: Seq<char>, i: int)
    requires
        0 <= i <= s.len(),
    ensures
        i <= pct_end(s, i) <= s.len(),
    decreases s.len() - i,
{
    if i < s.len() && s[i] != '%' {
        lemma_pct_end_bounds(s, i + 1);
    }
}

/// The rest of the command from index `i` on, with every `$NAME` (`NAME` a
/// maximal non-empty run of name characters) rewritten to `%NAME%`; a `$`
/// followed by no name character is kept as it is.
pub open spec fn env_to_windows(s: Seq<char>, i: int) -> Seq<char>
    decreases s.len() - i,
    via env_to_windows_dec
{
    if i < 0 || i >= s.len() {
        Seq::<char>::empty()
    } else if s[i] == '$' {
        let e = word_end(s, i + 1);
        if e > i + 1 {
            seq!['%'] + s.subrange(i + 1, e) + seq!['%'] + env_to_windows(s, e)
        } else {
            seq!['$'] + env_to_windows(s, i + 1)
        }
    } else {
        seq![s[i]] + env_to_windows(s, i + 1)
    }
}

#[via_fn]
proof fn env_to_windows_dec(s: Seq<char>, i: int) {
    if 0 <= i < s.len() && s[i] == '$' {
        lemma_word_end_bounds(s, i + 1);
    }
}

/// The rest of the command from index `i` on, with every `%NAME%` pair
/// rewritten to `$NAME`; an empty `%%` pair collapses to one `%`, and a `%`
/// with no closing `%` is passed through along with the scanned candidate
/// name, which ends the scan.
pub open spec fn env_from_windows(s: Seq<char>, i: int) -> Seq<char>
    decreases s.len() - i,
    via env_from_windows_dec
{
    if i < 0 || i >= s.len() {
        Seq::<char>::empty()
    } else if s[i] == '%' {
        let e = pct_end(s, i + 1);
        if e < s.len() {
            if e > i + 1 {
                seq!['$'] + s.subrange(i + 1, e) + env_from_windows(s, e + 1)
            } else {
                seq!['%'] + env_from_windows(s, e + 1)
            }
        } else {
            seq!['%'] + s.subrange(i + 1, s.len() as int)
        }
    } else {
        seq![s[i]] + env_from_windows(s, i + 1)
    }
}

#[via_fn]
proof fn env_from_windows_dec(s: Seq<char>, i: int) {
    if 0 <= i < s.len() && s[i] == '%' {
        lemma_pct_end_bounds(s, i + 1);
    }
}

/// The command with its environment-variable syntax rewritten for the target
/// platform: `$NAME` becomes `%NAME%` for a Windows target, `%NAME%` becomes
/// `$NAME` for a Linux-family or macOS target, and an Unknown target changes
/// nothing.
pub open spec fn spec_translate_env_vars(s: Seq<char>, target: Platform) -> Seq<char> {
    if target == Platform::Windows {
        env_to_windows(s, 0)
    } else if target == Platform::Unknown {
        s
    } else {
        env_from_windows(s, 0)
    }
}

/// Rewrites every path separator of `s` for the target platform.
pub fn normalize_path_chars(s: &Vec<char>, target: &Platform) -> (r: Vec<char>)
    ensures
        r@ == spec_normalize_paths(s@, *target),
{
    let mut r: Vec<char> = Vec::new();
    let mut i: usize = 0;
    while i < s.len()
        invariant
            0 <= i <= s@.len(),
            r@.len() == i,
            forall|k: int| 0 <= k < i ==> r@[k] == path_char(s@[k], *target),
        decreases s@.len() - i,
    {
        let c = s[i];
        let out = match target {
            Platform::Windows => if c == '/' {
                '\\'
            } else {
                c
            },
            Platform::Unknown => c,
            _ => if c == '\\' {
                '/'
            } else {
                c
            },
        };
        r.push(out);
        i += 1;
    }
    proof {
        assert(r@ =~= spec_normalize_paths(s@, *target));
    }
    r
}

/// Rewrites `$NAME` occurrences of `s` to `%NAME%`.
fn env_chars_to_windows(s: &Vec<char>) -> (r: Vec<char>)
    ensures
        r@ == env_to_windows(s@, 0),
{
    let n = s.len();
    let mut r: Vec<char> = Vec::new();
    let mut i: usize = 0;
    while i < n
        invariant
            n == s@.len(),
            0 <= i <= n,
            env_to_windows(s@, 0) == r@ + env_to_windows(s@, i as int),
        decreases n - i,
    {
        let ghost r0 = r@;
        let c = s[i];
        if c == '$' {
            let mut j = i + 1;
            while j < n && word_char(s[j])
                invariant
                    n == s@.len(),
                    i + 1 <= j <= n,
                    word_end(s@, i as int + 1) == word_end(s@, j as int),
                decreases n - j,
            {
                j += 1;
            }
            proof {
                assert(word_end(s@, i as int + 1) == j as int);
            }
            if j > i + 1 {
                r.push('%');
                let mut k = i + 1;
                while k < j
                    invariant
                        n == s@.len(),
                        i + 1 <= k <= j <= n,
                        r@ == r0 + seq!['%'] + s@.subrange(i as int + 1, k as int),
                    decreases j - k,
                {
                    r.push(s[k]);
                    proof {
                        assert(r@ =~= r0 + seq!['%'] + s@.subrange(i as int + 1, k + 1 as int));
                    }
                    k += 1;
                }
                r.push('%');
                proof {
                    let piece = seq!['%'] + s@.subrange(i as int + 1, j as int) + seq!['%'];
                    assert(r@ =~= r0 + piece);
                    assert(env_to_windows(s@, i as int) == piece + env_to_windows(s@, j as int));
                    assert(r0 + (piece + env_to_windows(s@, j as int)) =~= (r0 + piece)
                        + env_to_windows(s@, j as int));
                }
                i = j;
            } else {
                r.push('$');
                proof {
                    assert(r@ =~= r0 + seq!['$']);
                    assert(env_to_windows(s@, i as int) == seq!['$'] + env_to_windows(
                        s@,
                        i as int + 1,
                    ));
                    assert(r0 + (seq!['$'] + env_to_windows(s@, i as int + 1)) =~= (r0
                        + seq!['$']) + env_to_windows(s@, i as int + 1));
                }
                i += 1;
            }
        } else {
            r.push(c);
            proof {
                assert(r@ =~= r0 + seq![s@[i as int]]);
                assert(env_to_windows(s@, i as int) == seq![s@[i as int]] + env_to_windows(
                    s@,
                    i as int + 1,
                ));
                assert(r0 + (seq![s@[i as int]] + env_to_windows(s@, i as int + 1)) =~= (r0
                    + seq![s@[i as int]]) + env_to_windows(s@, i as int + 1));
            }
            i += 1;
        }
    }
    proof {
        assert(env_to_windows(s@, n as int) =~= Seq::<char>::empty());
        assert(r@ + Seq::<char>::empty() =~= r@);
    }
    r
}

/// Rewrites `%NAME%` pairs of `s` to `$NAME`.
fn env_chars_from_windows(s: &Vec<char>) -> (r: Vec<char>)
    ensures
        r@ == env_from_windows(s@, 0),
{
    let n = s.len();
    let mut r: Vec<char> = Vec::new();
    let mut i: usize = 0;
    while i < n
        invariant
            n == s@.len(),
            0 <= i <= n,
            env_from_windows(s@, 0) == r@ + env_from_windows(s@, i as int),
        decreases n - i,
    {
        let ghost r0 = r@;
        let c = s[i];
        if c == '%' {
            let mut j = i + 1;
            while j < n && s[j] != '%'
                invariant
                    n == s@.len(),
                    i + 1 <= j <= n,
                    pct_end(s@, i as int + 1) == pct_end(s@, j as int),
                decreases n - j,
            {
                j += 1;
            }
            proof {
                assert(pct_end(s@, i as int + 1) == j as int);
            }
            if j < n {
                if j > i + 1 {
                    r.push('$');
                    let mut k = i + 1;
                    while k < j
                        invariant
                            n == s@.len(),
                            i + 1 <= k <= j <= n,
                            r@ == r0 + seq!['$'] + s@.subrange(i as int + 1, k as int),
                        decreases j - k,
                    {
                        r.push(s[k]);
                        proof {
                            assert(r@ =~= r0 + seq!['$'] + s@.subrange(
                                i as int + 1,
                                k + 1 as int,
                            ));
                        }
                        k += 1;
                    }
                    proof {
                        let piece = seq!['$'] + s@.subrange(i as int + 1, j as int);
                        assert(r@ =~= r0 + piece);
                        assert(env_from_windows(s@, i as int) == piece + env_from_windows(
                            s@,
                            j as int + 1,
                        ));
                        assert(r0 + (piece + env_from_windows(s@, j as int + 1)) =~= (r0 + piece)
                            + env_from_windows(s@, j as int + 1));
                    }
                } else {
                    r.push('%');
                    proof {
                        assert(r@ =~= r0 + seq!['%']);
                        assert(env_from_windows(s@, i as int) == seq!['%'] + env_from_windows(
                            s@,
                            j as int + 1,
                        ));
                        assert(r0 + (seq!['%'] + env_from_windows(s@, j as int + 1)) =~= (r0
                            + seq!['%']) + env_from_windows(s@, j as int + 1));
                    }
                }
                i = j + 1;
            } else {
                r.push('%');
                let mut k = i + 1;
                while k < n
                    invariant
                        n == s@.len(),
                        i + 1 <= k <= n,
                        r@ == r0 + seq!['%'] + s@.subrange(i as int + 1, k as int),
                    decreases n - k,
                {
                    r.push(s[k]);
                    proof {
                        assert(r@ =~= r0 + seq!['%'] + s@.subrange(i as int + 1, k + 1 as int));
                    }
                    k += 1;
                }
                proof {
                    let piece = seq!['%'] + s@.subrange(i as int + 1, n as int);
                    assert(r@ =~= r0 + piece);
                    assert(env_from_windows(s@, i as int) == piece);
                    assert(env_from_windows(s@, n as int) =~= Seq::<char>::empty());
                    assert(r0 + piece =~= r0 + (piece + env_from_windows(s@, n as int)));
                }
                i = n;
            }
        } else {
            r.push(c);
            proof {
                assert(r@ =~= r0 + seq![s@[i as int]]);
                assert(env_from_windows(s@, i as int) == seq![s@[i as int]] + env_from_windows(
                    s@,
                    i as int + 1,
                ));
                assert(r0 + (seq![s@[i as int]] + env_from_windows(s@, i as int + 1)) =~= (r0
                    + seq![s@[i as int]]) + env_from_windows(s@, i as int + 1));
            }
            i += 1;
        }
    }
    proof {
        assert(env_from_windows(s@, n as int) =~= Seq::<char>::empty());
        assert(r@ + Seq::<char>::empty() =~= r@);
    }
    r
}

/// Rewrites the environment-variable syntax of `s` for the target platform.
pub fn translate_env_chars(s: &Vec<char>, target: &Platform) -> (r: Vec<char>)
    ensures
        r@ == spec_translate_env_vars(s@, *target),
{
    match target {
        Platform::Windows => env_chars_to_windows(s),
        Platform::Unknown => {
            let mut r: Vec<char> = Vec::new();
            let mut i: usize = 0;
            while i < s.len()
                invariant
                    0 <= i <= s@.len(),
                    r@ == s@.subrange(0, i as int),
                decreases s@.len() - i,
            {
                r.push(s[i]);
                proof {
                    assert(r@ =~= s@.subrange(0, i + 1 as int));
                }
                i += 1;
            }
            proof {
                assert(r@ =~= s@);
            }
            r
        },
        _ => env_chars_from_windows(s),
    }
}

} // verus!
