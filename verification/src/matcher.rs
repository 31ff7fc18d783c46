//! Prefix-aware matching of a pipeline segment against the knowledge base.
//!
//! A segment matches a record field when it equals the field exactly, or when
//! it starts with the field followed by one space — the field is then the
//! command stem and the remainder of the segment is its argument list, kept
//! verbatim. Records are scanned in knowledge-base order and the first record
//! that both matches and carries a command for the target platform wins.

use vstd::prelude::*;

use crate::command::CommandView;
use crate::platform::{is_linux_family, Platform};

verus! {

/// Whether the segment matches the field: exact equality, or the field as a
/// stem immediately followed by a space.
pub open spec fn spec_stem_match(seg: Seq<char>, field: Seq<char>) -> bool {
    seg == field || (seg.len() > field.len() && seg.subrange(0, field.len() as int) == field
        && seg[field.len() as int] == ' ')
}

/// The field of the first slot of the record (Linux, then macOS, then
/// Windows) that the segment matches, if any: the matched stem.
pub open spec fn spec_first_stem(rec: CommandView, seg: Seq<char>) -> Option<Seq<char>> {
    if rec.linux matches Some(f) && spec_stem_match(seg, f) {
        rec.linux
    } else if rec.macos matches Some(f) && spec_stem_match(seg, f) {
        rec.macos
    } else if rec.windows matches Some(f) && spec_stem_match(seg, f) {
        rec.windows
    } else {
        None
    }
}

/// The record's command for the target platform: Linux-family targets
/// resolve to the Linux field, macOS and Windows to their own fields, and an
/// Unknown target never resolves.
pub open spec fn spec_target_field(rec: CommandView, target: Platform) -> Option<Seq<char>> {
    if is_linux_family(target) {
        rec.linux
    } else if target == Platform::MacOS {
        rec.macos
    } else if target == Platform::Windows {
        rec.windows
    } else {
        None
    }
}

/// What the record translates the segment to for the target platform: the
/// target field with the segment's trailing arguments appended verbatim — or
/// nothing, when no slot matches or the record has no command for the target.
pub open spec fn spec_record_translate(rec: CommandView, seg: Seq<char>, target: Platform) -> Option<
    Seq<char>,
> {
    match spec_first_stem(rec, seg) {
        Some(stem) => match spec_target_field(rec, target) {
            Some(tf) => Some(
                if seg.len() > stem.len() {
                    tf + seg.skip(stem.len() as int)
                } else {
                    tf
                },
            ),
            None => None,
        },
        None => None,
    }
}

/// The knowledge base's translation of the segment: the first record in
/// order that yields one decides.
pub open spec fn spec_kb_translate(kb: Seq<CommandView>, seg: Seq<char>, target: Platform) -> Option<
    Seq<char>,
>
    decreases kb.len(),
{
    if kb.len() == 0 {
        None
    } else {
        match spec_record_translate(kb[0], seg, target) {
            Some(t) => Some(t),
            None => spec_kb_translate(kb.drop_first(), seg, target),
        }
    }
}

/// Whether the record lists the command verbatim in any of its three
/// platform fields.
pub open spec fn spec_record_mentions(rec: CommandView, cmd: Seq<char>) -> bool {
    rec.linux == Some(cmd) || rec.macos == Some(cmd) || rec.windows == Some(cmd)
}

/// The stored description of the first record that lists the command
/// verbatim in any platform field, if any does.
pub open spec fn spec_kb_description(kb: Seq<CommandView>, cmd: Seq<char>) -> Option<Seq<char>>
    decreases kb.len(),
{
    if kb.len() == 0 {
        None
    } else if spec_record_mentions(kb[0], cmd) {
        Some(kb[0].description)
    } else {
        spec_kb_description(kb.drop_first(), cmd)
    }
}

/// Whether the segment matches the field, exactly or as a stem followed by a
/// space.
pub fn stem_match(seg: &Vec<char>, field: &Vec<char>) -> (r: bool)
    ensures
        r == spec_stem_match(seg@, field@),
{
    let flen = field.len();
    if flen > seg.len() {
        return false;
    }
    let mut k: usize = 0;
    while k < flen
        invariant
            flen == field@.len(),
            flen <= seg@.len(),
            0 <= k <= flen,
            forall|j: int| 0 <= j < k ==> seg@[j] == field@[j],
        decreases flen - k,
    {
        if seg[k] != field[k] {
            proof {
                assert(seg@ != field@);
                assert(seg@.subrange(0, field@.len() as int)[k as int] == seg@[k as int]);
                assert(seg@.subrange(0, field@.len() as int) != field@);
            }
            return false;
        }
        k += 1;
    }
    proof {
        assert(seg@.subrange(0, field@.len() as int) =~= field@);
    }
    if seg.len() == flen {
        proof {
            assert(seg@ =~= field@);
        }
        true
    } else {
        seg[flen] == ' '
    }
}

} // verus!
