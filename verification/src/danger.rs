//! Recognition of command lines that look destructive, used as a
//! confirmation gate before a translated command is handed to the host's
//! command interpreter.

use vstd::prelude::*;

use crate::strutil::{contains_chars, contains_seq, str_to_chars};

verus! {

/// The substrings that mark a command line as potentially dangerous.
pub open spec fn spec_dangerous_patterns() -> Seq<Seq<char>> {
    seq![
        "rm"@,
        "dd"@,
        "mkfs"@,
        ":(){:|:&};:"@,
        "> /dev/sda"@,
        "format"@,
        "del /s"@,
        "rd /s"@,
    ]
}

/// Whether the command line holds any of the dangerous substrings.
pub open spec fn spec_is_dangerous(cmd: Seq<char>) -> bool {
    exists|k: int|
        0 <= k < spec_dangerous_patterns().len() && contains_seq(
            cmd,
            #[trigger] spec_dangerous_patterns()[k],
        )
}

/// Whether the command line looks potentially dangerous: it holds one of the
/// known destructive substrings.
pub fn is_dangerous(cmd: &str) -> (r: bool)
    ensures
        r == spec_is_dangerous(cmd@),
{
    let chars = str_to_chars(cmd);
    let p0 = str_to_chars("rm");
    if contains_chars(&chars, &p0) {
        proof {
            assert(spec_dangerous_patterns()[0] == "rm"@);
        }
        return true;
    }
    let p1 = str_to_chars("dd");
    if contains_chars(&chars, &p1) {
        proof {
            assert(spec_dangerous_patterns()[1] == "dd"@);
        }
        return true;
    }
    let p2 = str_to_chars("mkfs");
    if contains_chars(&chars, &p2) {
        proof {
            assert(spec_dangerous_patterns()[2] == "mkfs"@);
        }
        return true;
    }
    let p3 = str_to_chars(":(){:|:&};:");
    if contains_chars(&chars, &p3) {
        proof {
            assert(spec_dangerous_patterns()[3] == ":(){:|:&};:"@);
        }
        return true;
    }
    let p4 = str_to_chars("> /dev/sda");
    if contains_chars(&chars, &p4) {
        proof {
            assert(spec_dangerous_patterns()[4] == "> /dev/sda"@);
        }
        return true;
    }
    let p5 = str_to_chars("format");
    if contains_chars(&chars, &p5) {
        proof {
            assert(spec_dangerous_patterns()[5] == "format"@);
        }
        return true;
    }
    let p6 = str_to_chars("del /s");
    if contains_chars(&chars, &p6) {
        proof {
            assert(spec_dangerous_patterns()[6] == "del /s"@);
        }
        return true;
    }
    let p7 = str_to_chars("rd /s");
    if contains_chars(&chars, &p7) {
        proof {
            assert(spec_dangerous_patterns()[7] == "rd /s"@);
        }
        return true;
    }
    proof {
        assert forall|k: int|
            0 <= k < spec_dangerous_patterns().len() implies !contains_seq(
            cmd@,
            #[trigger] spec_dangerous_patterns()[k],
        ) by {
            if k == 0 {
                assert(spec_dangerous_patterns()[0] == "rm"@);
            } else if k == 1 {
                assert(spec_dangerous_patterns()[1] == "dd"@);
            } else if k == 2 {
                assert(spec_dangerous_patterns()[2] == "mkfs"@);
            } else if k == 3 {
                assert(spec_dangerous_patterns()[3] == ":(){:|:&};:"@);
            } else if k == 4 {
                assert(spec_dangerous_patterns()[4] == "> /dev/sda"@);
            } else if k == 5 {
                assert(spec_dangerous_patterns()[5] == "format"@);
            } else if k == 6 {
                assert(spec_dangerous_patterns()[6] == "del /s"@);
            } else {
                assert(spec_dangerous_patterns()[7] == "rd /s"@);
            }
        }
    }
    false
}

} // verus!
