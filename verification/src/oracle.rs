//! The external oracle behind the knowledge base: prompt construction and
//! defensive cleanup of the oracle's raw textual response.
//!
//! The oracle itself is a capability handed in by the caller through
//! [`OracleRunner`]; everything around the call — what is asked and how the
//! answer is sanitized — is this module's own, exactly specified logic.

use vstd::prelude::*;
use vstd::string::*;

use crate::platform::{spec_platform_name, Platform};
use crate::strutil::{match_at, spec_trim, str_to_chars, trim_chars, chars_to_string, find_first};

verus! {

/// The capability of invoking the external oracle: hand it a prompt, get its
/// raw textual response back, or an error description when the invocation
/// fails. Implementations live with the caller; nothing is assumed of what
/// they return.
pub trait OracleRunner {
    fn run(&self, prompt: &str) -> Result<String, String>;
}

/// A runner that never answers: every invocation fails. Useful wherever the
/// engine must work from the knowledge base alone.
pub struct SilentOracle;

impl OracleRunner for SilentOracle {
    fn run(&self, _prompt: &str) -> Result<String, String> {
        Err("the oracle is disabled".to_owned())
    }
}

/// A failed oracle invocation, carrying the runner's error description.
#[derive(Debug)]
pub struct OracleError {
    pub message: String,
}

/// The first index at or after `i` where `pat` occurs in `s`, if any.
pub open spec fn spec_find(s: Seq<char>, pat: Seq<char>, i: int) -> Option<int>
    decreases s.len() - i + 1,
{
    if i > s.len() - pat.len() {
        None
    } else if match_at(s, pat, i) {
        Some(i)
    } else {
        spec_find(s, pat, i + 1)
    }
}

/// `spec_find` returns the first occurrence at or after its start index.
proof fn lemma_spec_find_first(s: Seq<char>, pat: Seq<char>, i: int)
    requires
        0 <= i,
    ensures
        match spec_find(s, pat, i) {
            Some(k) => i <= k && match_at(s, pat, k) && forall|j: int|
                i <= j < k ==> !match_at(s, pat, j),
            None => forall|j: int| j >= i ==> !match_at(s, pat, j),
        },
    decreases s.len() - i + 1,
{
    if i > s.len() - pat.len() {
        assert(forall|j: int| j >= i ==> !match_at(s, pat, j));
    } else if match_at(s, pat, i) {
    } else {
        lemma_spec_find_first(s, pat, i + 1);
    }
}

/// The marker that opens the oracle's usage-statistics trailer.
pub open spec fn spec_usage_marker() -> Seq<char> {
    "Total usage est:"@
}

/// The usage marker sitting after a blank-line boundary.
pub open spec fn spec_usage_marker_after_blank() -> Seq<char> {
    "\n\nTotal usage est:"@
}

/// The response truncated to everything before its usage-statistics trailer:
/// cut at the first marker after a blank-line boundary, else at the first
/// bare marker, else kept whole.
pub open spec fn spec_strip_trailer(s: Seq<char>) -> Seq<char> {
    match spec_find(s, spec_usage_marker_after_blank(), 0) {
        Some(k) => s.subrange(0, k),
        None => match spec_find(s, spec_usage_marker(), 0) {
            Some(k) => s.subrange(0, k),
            None => s,
        },
    }
}

/// The raw oracle response with its usage trailer removed and surrounding
/// white space trimmed.
pub open spec fn spec_clean_output(raw: Seq<char>) -> Seq<char> {
    spec_trim(spec_strip_trailer(raw))
}

/// The text with one enclosing pair of backtick code-fence markers stripped,
/// if the trimmed text carries one, and the remainder trimmed again.
pub open spec fn spec_strip_fence(s: Seq<char>) -> Seq<char> {
    let t = spec_trim(s);
    if t.len() >= 2 && t[0] == '`' && t[t.len() - 1] == '`' {
        spec_trim(t.subrange(1, t.len() - 1))
    } else {
        t
    }
}

/// The full cleanup applied to a raw oracle translation response: trailer
/// removal, trimming, and code-fence stripping.
pub open spec fn spec_sanitize_translation(raw: Seq<char>) -> Seq<char> {
    spec_strip_fence(spec_clean_output(raw))
}

/// The prompt sent to the oracle to translate a command for a target platform.
pub open spec fn spec_translation_prompt(cmd: Seq<char>, target: Platform) -> Seq<char> {
    "Translate '"@ + cmd + "' to "@ + spec_platform_name(target)
        + " command line. Output ONLY the raw command string. Do not use markdown code blocks. Do not provide any explanation."@
}

/// The prompt sent to the oracle to explain a command.
pub open spec fn spec_explanation_prompt(cmd: Seq<char>) -> Seq<char> {
    "Explain the shell command '"@ + cmd + "'. Keep it concise."@
}

/// Finds the first occurrence of `pat` in `s` as `spec_find` describes it.
fn find_spec_first(s: &Vec<char>, pat: &Vec<char>) -> (r: Option<usize>)
    ensures
        match spec_find(s@, pat@, 0) {
            Some(k) => r matches Some(i) && i == k && k <= s@.len(),
            None => r is None,
        },
{
    let r = find_first(s, pat);
    proof {
        lemma_spec_find_first(s@, pat@, 0);
        match r {
            Some(i) => {
                match spec_find(s@, pat@, 0) {
                    Some(k) => {
                        if k < i {
                            assert(!match_at(s@, pat@, k));
                        }
                        if i < k {
                            assert(!match_at(s@, pat@, i as int));
                        }
                    },
                    None => {
                        assert(!match_at(s@, pat@, i as int));
                    },
                }
            },
            None => {
                match spec_find(s@, pat@, 0) {
                    Some(k) => {
                        assert(match_at(s@, pat@, k));
                    },
                    None => {},
                }
            },
        }
    }
    r
}

/// Truncates the response before its usage-statistics trailer, if one occurs.
pub fn strip_usage_trailer(s: &Vec<char>) -> (r: Vec<char>)
    ensures
        r@ == spec_strip_trailer(s@),
{
    let blank_marker = str_to_chars("\n\nTotal usage est:");
    let bare_marker = str_to_chars("Total usage est:");
    let cut: Option<usize> = match find_spec_first(s, &blank_marker) {
        Some(k) => Some(k),
        None => find_spec_first(s, &bare_marker),
    };
    match cut {
        Some(k) => {
            let mut r: Vec<char> = Vec::new();
            let mut i: usize = 0;
            while i < k
                invariant
                    k <= s@.len(),
                    0 <= i <= k,
                    r@ == s@.subrange(0, i as int),
                decreases k - i,
            {
                r.push(s[i]);
                proof {
                    assert(r@ =~= s@.subrange(0, i + 1 as int));
                }
                i += 1;
            }
            r
        },
        None => {
            let mut r: Vec<char> = Vec::new();
            let mut i: usize = 0;
            while i < s.len()
                invariant
                    0 <= i <= s@.len(),
                    r@ == s@.subrange(0, i as int),
                decreases s@.len() - i,
            {
                r.push(s[i]);
                proof {
                    assert(r@ =~= s@.subrange(0, i + 1 as int));
                }
                i += 1;
            }
            proof {
                assert(r@ =~= s@);
            }
            r
        },
    }
}

/// Removes the usage trailer from a raw oracle response and trims it.
pub fn clean_oracle_output(raw: &str) -> (r: String)
    ensures
        r@ == spec_clean_output(raw@),
{
    let chars = str_to_chars(raw);
    let stripped = strip_usage_trailer(&chars);
    let trimmed = trim_chars(&stripped);
    chars_to_string(&trimmed)
}

/// Strips one enclosing pair of backtick code-fence markers, if present, and
/// trims the remainder.
pub fn strip_code_fence(s: &str) -> (r: String)
    ensures
        r@ == spec_strip_fence(s@),
{
    let chars = str_to_chars(s);
    let t = trim_chars(&chars);
    if t.len() >= 2 && t[0] == '`' && t[t.len() - 1] == '`' {
        let mut inner: Vec<char> = Vec::new();
        let mut i: usize = 1;
        while i < t.len() - 1
            invariant
                t@.len() >= 2,
                1 <= i <= t@.len() - 1,
                inner@ == t@.subrange(1, i as int),
            decreases t@.len() - 1 - i,
        {
            inner.push(t[i]);
            proof {
                assert(inner@ =~= t@.subrange(1, i + 1 as int));
            }
            i += 1;
        }
        let trimmed = trim_chars(&inner);
        chars_to_string(&trimmed)
    } else {
        chars_to_string(&t)
    }
}

/// Builds the oracle prompt asking to translate `cmd` for the target platform.
pub fn translation_prompt(cmd: &str, target: &Platform) -> (r: String)
    ensures
        r@ == spec_translation_prompt(cmd@, *target),
{
    let mut p = String::new();
    p.append("Translate '");
    p.append(cmd);
    p.append("' to ");
    let name = target.display_name();
    p.append(name.as_str());
    p.append(
        " command line. Output ONLY the raw command string. Do not use markdown code blocks. Do not provide any explanation.",
    );
    p
}

/// Builds the oracle prompt asking to explain `cmd`.
pub fn explanation_prompt(cmd: &str) -> (r: String)
    ensures
        r@ == spec_explanation_prompt(cmd@),
{
    let mut p = String::new();
    p.append("Explain the shell command '");
    p.append(cmd);
    p.append("'. Keep it concise.");
    p
}

/// The oracle adapter: builds prompts, invokes the runner, and sanitizes
/// whatever text comes back.
pub struct CopilotWrapper<R: OracleRunner> {
    runner: R,
}

impl<R: OracleRunner> CopilotWrapper<R> {
    /// Wraps the given runner.
    pub fn new(runner: R) -> Self {
        CopilotWrapper { runner }
    }

    /// Invokes the runner and cleans its output: whatever raw text came back,
    /// the result is that text without its usage trailer, trimmed.
    fn run_oracle(&self, prompt: &str) -> (r: Result<String, OracleError>)
        ensures
            r matches Ok(s) ==> exists|raw: Seq<char>| s@ == spec_clean_output(raw),
    {
        match self.runner.run(prompt) {
            Ok(raw) => {
                let cleaned = clean_oracle_output(raw.as_str());
                proof {
                    let ghost w = raw@;
                    assert(cleaned@ == spec_clean_output(w));
                }
                Ok(cleaned)
            },
            Err(message) => Err(OracleError { message }),
        }
    }

    /// Asks the oracle to translate `cmd` for the target platform. A
    /// successful result is the oracle's response after the full cleanup:
    /// trailer removal, trimming, and code-fence stripping.
    pub fn translate(&self, cmd: &str, target_os: &Platform) -> (r: Result<String, OracleError>)
        ensures
            r matches Ok(s) ==> exists|raw: Seq<char>| s@ == spec_sanitize_translation(raw),
    {
        let prompt = translation_prompt(cmd, target_os);
        match self.runner.run(prompt.as_str()) {
            Ok(raw) => {
                let cleaned = clean_oracle_output(raw.as_str());
                let stripped = strip_code_fence(cleaned.as_str());
                proof {
                    let ghost w = raw@;
                    assert(stripped@ == spec_sanitize_translation(w));
                }
                Ok(stripped)
            },
            Err(message) => Err(OracleError { message }),
        }
    }

    /// Asks the oracle to explain `cmd`. A successful result is the oracle's
    /// response without its usage trailer, trimmed.
    pub fn explain(&self, cmd: &str) -> (r: Result<String, OracleError>)
        ensures
            r matches Ok(s) ==> exists|raw: Seq<char>| s@ == spec_clean_output(raw),
    {
        let prompt = explanation_prompt(cmd);
        self.run_oracle(prompt.as_str())
    }
}

} // verus!
