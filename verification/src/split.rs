//! Splitting a command line on `|` into pipeline segments.
//!
//! The scan walks the input once, tracking whether it stands inside a
//! single-quoted region, a double-quoted region, or right after a backslash;
//! a `|` only separates segments when none of the three holds. Segments are
//! trimmed, and blank segments are discarded.

use vstd::prelude::*;

use crate::strutil::{spec_trim, trim_chars};

verus! {

/// The scanner's quoting state: inside single quotes, inside double quotes,
/// and whether the previous character was an unconsumed backslash.
pub struct ScanState {
    pub in_single: bool,
    pub in_double: bool,
    pub escaped: bool,
}

/// The state the scan starts in: outside any quotes, not escaped.
pub open spec fn initial_scan_state() -> ScanState {
    ScanState { in_single: false, in_double: false, escaped: false }
}

/// One step of the quoting scan: how reading `c` in state `st` changes the state.
pub open spec fn scan_step(st: ScanState, c: char) -> ScanState {
    if st.escaped {
        ScanState { in_single: st.in_single, in_double: st.in_double, escaped: false }
    } else if c == '\\' {
        ScanState { in_single: st.in_single, in_double: st.in_double, escaped: true }
    } else if c == '\'' && !st.in_double {
        ScanState { in_single: !st.in_single, in_double: st.in_double, escaped: false }
    } else if c == '"' && !st.in_single {
        ScanState { in_single: st.in_single, in_double: !st.in_double, escaped: false }
    } else {
        ScanState { in_single: st.in_single, in_double: st.in_double, escaped: false }
    }
}

/// Whether reading `c` in state `st` closes the current segment.
pub open spec fn is_cut(st: ScanState, c: char) -> bool {
    c == '|' && !st.escaped && !st.in_single && !st.in_double
}

/// Whether the state shields a `|` from acting as a separator.
pub open spec fn quoted_or_escaped(st: ScanState) -> bool {
    st.in_single || st.in_double || st.escaped
}

/// Closing a segment: the trimmed text, or nothing when it is blank.
pub open spec fn emit(cur: Seq<char>) -> Seq<Seq<char>> {
    if spec_trim(cur).len() == 0 {
        Seq::<Seq<char>>::empty()
    } else {
        seq![spec_trim(cur)]
    }
}

/// The segments produced by scanning `s` starting in state `st` with the
/// partial segment `cur` already read.
pub open spec fn split_rec(s: Seq<char>, st: ScanState, cur: Seq<char>) -> Seq<Seq<char>>
    decreases s.len(),
{
    if s.len() == 0 {
        emit(cur)
    } else {
        let c = s[0];
        if is_cut(st, c) {
            emit(cur) + split_rec(s.drop_first(), scan_step(st, c), Seq::<char>::empty())
        } else {
            split_rec(s.drop_first(), scan_step(st, c), cur.push(c))
        }
    }
}

/// The pipe-delimited segments of a command line, each trimmed, with blank
/// segments discarded.
pub open spec fn spec_split(s: Seq<char>) -> Seq<Seq<char>> {
    split_rec(s, initial_scan_state(), Seq::<char>::empty())
}

/// The quoting state the scan is in just before reading `s[i]`, having
/// started in state `st`.
pub open spec fn scan_state_at(s: Seq<char>, st: ScanState, i: int) -> ScanState
    decreases i,
{
    if i <= 0 {
        st
    } else {
        scan_state_at(s.drop_first(), scan_step(st, s[0]), i - 1)
    }
}

/// Whether the `|` at index `i` of `s` stands inside quotes or right after a
/// backslash, so that it does not separate segments.
pub open spec fn pipe_shielded_at(s: Seq<char>, i: int) -> bool {
    quoted_or_escaped(scan_state_at(s, initial_scan_state(), i))
}

/// A scan that never cuts accumulates the whole remaining input into the
/// current segment.
proof fn lemma_split_rec_no_cut(s: Seq<char>, st: ScanState, cur: Seq<char>)
    requires
        forall|i: int|
            0 <= i < s.len() && s[i] == '|' ==> quoted_or_escaped(
                #[trigger] scan_state_at(s, st, i),
            ),
    ensures
        split_rec(s, st, cur) == emit(cur + s),
    decreases s.len(),
{
    if s.len() == 0 {
        assert(cur + s =~= cur);
    } else {
        let c = s[0];
        assert(scan_state_at(s, st, 0) == st);
        assert(!is_cut(st, c));
        let st2 = scan_step(st, c);
        let s2 = s.drop_first();
        assert forall|i: int|
            0 <= i < s2.len() && s2[i] == '|' implies quoted_or_escaped(
            #[trigger] scan_state_at(s2, st2, i),
        ) by {
            assert(s2[i] == s[i + 1]);
            assert(scan_state_at(s, st, i + 1) == scan_state_at(s2, st2, i));
        }
        lemma_split_rec_no_cut(s2, st2, cur.push(c));
        assert(cur.push(c) + s2 =~= cur + s);
    }
}

/// A command line without any `|` character splits into exactly one segment,
/// the trimmed input — or into no segment at all when the input is blank.
pub proof fn lemma_split_no_pipe(s: Seq<char>)
    requires
        forall|i: int| 0 <= i < s.len() ==> s[i] != '|',
    ensures
        spec_split(s) == if spec_trim(s).len() == 0 {
            Seq::<Seq<char>>::empty()
        } else {
            seq![spec_trim(s)]
        },
{
    assert forall|i: int|
        0 <= i < s.len() && s[i] == '|' implies quoted_or_escaped(
        #[trigger] scan_state_at(s, initial_scan_state(), i),
    ) by {
        assert(s[i] != '|');
    }
    lemma_split_rec_no_cut(s, initial_scan_state(), Seq::<char>::empty());
    assert(Seq::<char>::empty() + s =~= s);
}

/// A command line whose every `|` stands inside quotes or right after a
/// backslash splits into exactly one segment, the trimmed input, unmodified
/// including its quotes — or into no segment at all when the input is blank.
pub proof fn lemma_split_shielded_pipes(s: Seq<char>)
    requires
        forall|i: int| 0 <= i < s.len() && s[i] == '|' ==> #[trigger] pipe_shielded_at(s, i),
    ensures
        spec_split(s) == if spec_trim(s).len() == 0 {
            Seq::<Seq<char>>::empty()
        } else {
            seq![spec_trim(s)]
        },
{
    assert forall|i: int|
        0 <= i < s.len() && s[i] == '|' implies quoted_or_escaped(
        #[trigger] scan_state_at(s, initial_scan_state(), i),
    ) by {
        assert(pipe_shielded_at(s, i));
    }
    lemma_split_rec_no_cut(s, initial_scan_state(), Seq::<char>::empty());
    assert(Seq::<char>::empty() + s =~= s);
}

/// A segment text free of pipes, backslashes and quote characters.
pub open spec fn plain_segment(s: Seq<char>) -> bool {
    forall|i: int| 0 <= i < s.len() ==> s[i] != '|' && s[i] != '\\' && s[i] != '\'' && s[i] != '"'
}

/// Scanning a plain prefix up to an unquoted `|` emits that prefix and then
/// scans the rest from a fresh state.
proof fn lemma_split_rec_plain_prefix(a: Seq<char>, t: Seq<char>, cur: Seq<char>)
    requires
        plain_segment(a),
    ensures
        split_rec(a + seq!['|'] + t, initial_scan_state(), cur) == emit(cur + a) + split_rec(
            t,
            initial_scan_state(),
            Seq::<char>::empty(),
        ),
    decreases a.len(),
{
    let s = a + seq!['|'] + t;
    if a.len() == 0 {
        assert(s[0] == '|');
        assert(is_cut(initial_scan_state(), '|'));
        assert(scan_step(initial_scan_state(), '|') == initial_scan_state());
        assert(s.drop_first() =~= t);
        assert(cur + a =~= cur);
    } else {
        let c = s[0];
        assert(c == a[0]);
        assert(!is_cut(initial_scan_state(), c));
        assert(scan_step(initial_scan_state(), c) == initial_scan_state());
        assert(s.drop_first() =~= a.drop_first() + seq!['|'] + t);
        assert(plain_segment(a.drop_first()));
        lemma_split_rec_plain_prefix(a.drop_first(), t, cur.push(c));
        assert(cur.push(c) + a.drop_first() =~= cur + a);
    }
}

/// An unquoted three-stage pipeline splits into exactly its three trimmed
/// stages, in their original order.
pub proof fn lemma_split_three_plain_segments(a: Seq<char>, b: Seq<char>, c: Seq<char>)
    requires
        plain_segment(a),
        plain_segment(b),
        plain_segment(c),
        spec_trim(a).len() > 0,
        spec_trim(b).len() > 0,
        spec_trim(c).len() > 0,
    ensures
        spec_split(a + seq!['|'] + b + seq!['|'] + c) == seq![
            spec_trim(a),
            spec_trim(b),
            spec_trim(c),
        ],
{
    let tail = b + seq!['|'] + c;
    assert(a + seq!['|'] + b + seq!['|'] + c =~= a + seq!['|'] + tail);
    lemma_split_rec_plain_prefix(a, tail, Seq::<char>::empty());
    assert(Seq::<char>::empty() + a =~= a);
    lemma_split_rec_plain_prefix(b, c, Seq::<char>::empty());
    assert(Seq::<char>::empty() + b =~= b);
    lemma_split_no_pipe(c);
    assert(emit(a) + (emit(b) + emit(c)) =~= seq![spec_trim(a), spec_trim(b), spec_trim(c)]);
}

/// The pipe-delimited segments of a command line, each trimmed, with blank
/// segments discarded.
pub fn split_chars(s: &Vec<char>) -> (r: Vec<Vec<char>>)
    ensures
        r.deep_view() == spec_split(s@),
{
    let ghost whole = s@;
    let mut parts: Vec<Vec<char>> = Vec::new();
    let mut cur: Vec<char> = Vec::new();
    let mut in_single = false;
    let mut in_double = false;
    let mut escaped = false;
    let mut i: usize = 0;
    proof {
        assert(whole.skip(0) =~= whole);
        assert(parts.deep_view() =~= Seq::<Seq<char>>::empty());
        assert(Seq::<Seq<char>>::empty() + spec_split(whole) =~= spec_split(whole));
    }
    while i < s.len()
        invariant
            whole == s@,
            0 <= i <= whole.len(),
            spec_split(whole) == parts.deep_view() + split_rec(
                whole.skip(i as int),
                ScanState { in_single, in_double, escaped },
                cur@,
            ),
        decreases whole.len() - i,
    {
        let ghost st = ScanState { in_single, in_double, escaped };
        let ghost rest = whole.skip(i as int);
        let c = s[i];
        proof {
            assert(rest[0] == whole[i as int]);
            assert(rest.drop_first() =~= whole.skip(i as int + 1));
        }
        if escaped {
            cur.push(c);
            escaped = false;
        } else if c == '\\' {
            escaped = true;
            cur.push(c);
        } else if c == '\'' && !in_double {
            in_single = !in_single;
            cur.push(c);
        } else if c == '"' && !in_single {
            in_double = !in_double;
            cur.push(c);
        } else if c == '|' && !in_single && !in_double {
            let ghost old_parts = parts.deep_view();
            let seg = trim_chars(&cur);
            if seg.len() > 0 {
                parts.push(seg);
                proof {
                    assert(parts.deep_view() =~~= old_parts.push(spec_trim(cur@)));
                    assert(old_parts.push(spec_trim(cur@)) =~= old_parts + emit(cur@));
                }
            } else {
                proof {
                    assert(old_parts =~= old_parts + emit(cur@));
                }
            }
            cur = Vec::new();
            proof {
                assert((old_parts + emit(cur@)) + split_rec(
                    whole.skip(i as int + 1),
                    scan_step(st, c),
                    Seq::<char>::empty(),
                ) =~= old_parts + (emit(cur@) + split_rec(
                    whole.skip(i as int + 1),
                    scan_step(st, c),
                    Seq::<char>::empty(),
                )));
            }
        } else {
            cur.push(c);
        }
        i += 1;
    }
    proof {
        assert(whole.skip(whole.len() as int) =~= Seq::<char>::empty());
    }
    let ghost old_parts = parts.deep_view();
    let seg = trim_chars(&cur);
    if seg.len() > 0 {
        parts.push(seg);
        proof {
            assert(parts.deep_view() =~~= old_parts.push(spec_trim(cur@)));
            assert(old_parts.push(spec_trim(cur@)) =~= old_parts + emit(cur@));
        }
    } else {
        proof {
            assert(old_parts =~= old_parts + emit(cur@));
        }
    }
    proof {
        assert(parts.deep_view() =~~= spec_split(whole));
    }
    parts
}

} // verus!
