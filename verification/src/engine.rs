//! The translation engine: splits a pipeline, matches each segment against
//! the knowledge base, falls back to the oracle, rejoins, and normalizes the
//! result for the target platform.

use vstd::prelude::*;
use vstd::string::*;

use crate::command::{Command, CommandView};
use crate::matcher::{spec_first_stem, spec_kb_description, spec_kb_translate, spec_record_translate,
    spec_target_field, stem_match};
use crate::normalize::{normalize_path_chars, spec_normalize_paths, spec_translate_env_vars,
    translate_env_chars};
use crate::oracle::{spec_clean_output, spec_sanitize_translation, CopilotWrapper, OracleRunner};
use crate::platform::Platform;
use crate::split::{spec_split, split_chars};
use crate::strutil::{chars_to_string, join_segments, spec_join, str_to_chars};

verus! {

/// What a translated segment may be: the knowledge base's translation where
/// one exists; otherwise either a sanitized oracle response or the original
/// segment passed through unchanged.
pub open spec fn seg_result_ok(
    kb: Seq<CommandView>,
    seg: Seq<char>,
    target: Platform,
    out: Seq<char>,
) -> bool {
    match spec_kb_translate(kb, seg, target) {
        Some(t) => out == t,
        None => out == seg || (exists|raw: Seq<char>| out == spec_sanitize_translation(raw)),
    }
}

/// The post-processing applied to the translated segments: rejoining with
/// `" | "`, then path normalization, then environment-variable normalization.
pub open spec fn spec_finalize(parts: Seq<Seq<char>>, target: Platform) -> Seq<char> {
    spec_translate_env_vars(spec_normalize_paths(spec_join(parts), target), target)
}

/// The translation engine: an immutable, ordered knowledge base and the
/// oracle adapter used when no record applies.
pub struct TranslationEngine<R: OracleRunner> {
    commands: Vec<Command>,
    copilot: CopilotWrapper<R>,
}

impl<R: OracleRunner> TranslationEngine<R> {
    /// The knowledge base the engine scans, in its load order.
    pub closed spec fn kb(&self) -> Seq<CommandView> {
        self.commands@.map_values(|c: Command| c@)
    }

    /// Builds an engine over an already loaded knowledge base and an oracle
    /// adapter.
    pub fn new(commands: Vec<Command>, copilot: CopilotWrapper<R>) -> (r: Self)
        ensures
            r.kb() == commands@.map_values(|c: Command| c@),
    {
        TranslationEngine { commands, copilot }
    }

    /// Splits a command line on unquoted, unescaped `|` characters into
    /// trimmed segments, discarding blank ones.
    pub fn split_cmd(&self, cmd: &str) -> (r: Vec<String>)
        ensures
            r.deep_view() == spec_split(cmd@),
    {
        let chars = str_to_chars(cmd);
        let segs = split_chars(&chars);
        let mut r: Vec<String> = Vec::new();
        let mut i: usize = 0;
        while i < segs.len()
            invariant
                0 <= i <= segs@.len(),
                segs.deep_view().len() == segs@.len(),
                segs.deep_view() == spec_split(cmd@),
                r@.len() == i,
                forall|k: int| 0 <= k < i ==> #[trigger] r@[k]@ == segs@[k]@,
            decreases segs@.len() - i,
        {
            let s = chars_to_string(&segs[i]);
            r.push(s);
            i += 1;
        }
        proof {
            assert forall|k: int| 0 <= k < segs@.len() implies #[trigger] segs.deep_view()[k]
                == segs@[k]@ by {
                assert(segs@[k].deep_view() =~= segs@[k]@);
            }
            assert(r.deep_view() =~= segs.deep_view());
        }
        r
    }

    /// Rewrites every path separator of the command for the target platform:
    /// `/` to `\` for Windows, `\` to `/` for Linux-family and macOS targets,
    /// untouched for an Unknown target.
    pub fn normalize_paths(&self, cmd: &str, target_os: &Platform) -> (r: String)
        ensures
            r@ == spec_normalize_paths(cmd@, *target_os),
    {
        let chars = str_to_chars(cmd);
        let out = normalize_path_chars(&chars, target_os);
        chars_to_string(&out)
    }

    /// Rewrites the command's environment-variable syntax for the target
    /// platform: `$NAME` to `%NAME%` for Windows, `%NAME%` to `$NAME` for
    /// Linux-family and macOS targets, untouched for an Unknown target.
    pub fn translate_env_vars(&self, cmd: &str, target_os: &Platform) -> (r: String)
        ensures
            r@ == spec_translate_env_vars(cmd@, *target_os),
    {
        let chars = str_to_chars(cmd);
        let out = translate_env_chars(&chars, target_os);
        chars_to_string(&out)
    }

    /// The record's command string for the target platform, if the record
    /// carries one: Linux-family targets resolve to the Linux field, macOS
    /// and Windows to their own fields, and an Unknown target never resolves.
    pub fn get_command_for_platform(&self, entry: &Command, target: &Platform) -> (r: Option<
        String,
    >)
        ensures
            match spec_target_field(entry@, *target) {
                Some(t) => r matches Some(s) && s@ == t,
                None => r is None,
            },
    {
        match target {
            Platform::Linux | Platform::WSL | Platform::Docker | Platform::GitBash => clone_field(
                &entry.linux,
            ),
            Platform::MacOS => clone_field(&entry.macos),
            Platform::Windows => clone_field(&entry.windows),
            Platform::Unknown => None,
        }
    }

    /// Scans the knowledge base in order for the first record the segment
    /// matches that carries a command for the target platform, and returns
    /// that command with the segment's trailing arguments appended verbatim.
    pub fn match_in_db(&self, seg: &str, target: &Platform) -> (r: Option<String>)
        ensures
            match spec_kb_translate(self.kb(), seg@, *target) {
                Some(t) => r matches Some(s) && s@ == t,
                None => r is None,
            },
    {
        let seg_chars = str_to_chars(seg);
        let n = self.commands.len();
        let mut idx: usize = 0;
        proof {
            assert(self.kb().skip(0) =~= self.kb());
        }
        while idx < n
            invariant
                n == self.commands@.len(),
                self.kb().len() == n,
                0 <= idx <= n,
                seg_chars@ == seg@,
                forall|k: int| 0 <= k < n ==> self.kb()[k] == self.commands@[k]@,
                spec_kb_translate(self.kb(), seg@, *target) == spec_kb_translate(
                    self.kb().skip(idx as int),
                    seg@,
                    *target,
                ),
            decreases n - idx,
        {
            let entry = &self.commands[idx];
            let ghost rest = self.kb().skip(idx as int);
            proof {
                assert(rest[0] == self.kb()[idx as int]);
                assert(rest.drop_first() =~= self.kb().skip(idx as int + 1));
            }
            let stem = record_stem(entry, &seg_chars);
            match stem {
                Some(stem_len) => {
                    match self.get_command_for_platform(entry, target) {
                        Some(tf) => {
                            proof {
                                assert(stem_len <= seg_chars@.len());
                            }
                            let out = if seg_chars.len() > stem_len {
                                append_suffix(tf.as_str(), &seg_chars, stem_len)
                            } else {
                                tf
                            };
                            proof {
                                assert(spec_record_translate(entry@, seg@, *target) == Some(out@));
                            }
                            return Some(out);
                        },
                        None => {
                            proof {
                                assert(spec_record_translate(entry@, seg@, *target) is None);
                            }
                        },
                    }
                },
                None => {
                    proof {
                        assert(spec_record_translate(entry@, seg@, *target) is None);
                    }
                },
            }
            idx += 1;
        }
        proof {
            assert(self.kb().skip(n as int) =~= Seq::<CommandView>::empty());
        }
        None
    }

    /// Translates one segment: the knowledge base decides where it can;
    /// otherwise the oracle is asked, a failed oracle call yielding no
    /// translation.
    fn translate_single(&self, seg: &str, target_os: &Platform) -> (r: Option<String>)
        ensures
            match spec_kb_translate(self.kb(), seg@, *target_os) {
                Some(t) => r matches Some(s) && s@ == t,
                None => r matches Some(s) ==> exists|raw: Seq<char>|
                    s@ == spec_sanitize_translation(raw),
            },
    {
        match self.match_in_db(seg, target_os) {
            Some(t) => Some(t),
            None => match self.copilot.translate(seg, target_os) {
                Ok(t) => Some(t),
                Err(_) => None,
            },
        }
    }

    /// Translates a command line for the target platform.
    ///
    /// The line is split into pipeline segments; each segment is translated
    /// by the knowledge base or, failing that, by the oracle; the segments
    /// are rejoined with `" | "`; and the assembled pipeline has its path
    /// separators and then its environment-variable syntax normalized.
    ///
    /// A blank command yields no translation. A single segment that neither
    /// the knowledge base nor the oracle can translate yields no translation;
    /// in a multi-segment pipeline such a segment is passed through unchanged
    /// instead, so a full pipeline is always produced.
    pub fn translate(&self, cmd: &str, target_os: &Platform) -> (r: Option<String>)
        ensures
            ({
                let segs = spec_split(cmd@);
                &&& (segs.len() == 0 ==> r is None)
                &&& (segs.len() > 1 ==> r is Some)
                &&& (segs.len() == 1 && spec_kb_translate(self.kb(), segs[0], *target_os) is Some
                    ==> r is Some)
                &&& (segs.len() == 1 && r is None ==> spec_kb_translate(
                    self.kb(),
                    segs[0],
                    *target_os,
                ) is None)
                &&& (r matches Some(s) ==> exists|parts: Seq<Seq<char>>|
                    {
                        &&& parts.len() == segs.len()
                        &&& (forall|i: int|
                            0 <= i < segs.len() ==> seg_result_ok(
                                self.kb(),
                                segs[i],
                                *target_os,
                                #[trigger] parts[i],
                            ))
                        &&& s@ == spec_finalize(parts, *target_os)
                    })
            }),
    {
        let parts = self.split_cmd(cmd);
        if parts.len() == 0 {
            return None;
        }
        let single = parts.len() == 1;
        let mut outs: Vec<String> = Vec::new();
        let mut i: usize = 0;
        proof {
            assert(outs.deep_view() =~= Seq::<Seq<char>>::empty());
        }
        while i < parts.len()
            invariant
                0 <= i <= parts@.len(),
                parts.deep_view().len() == parts@.len(),
                parts.deep_view() == spec_split(cmd@),
                single == (parts@.len() == 1),
                outs.deep_view().len() == i,
                forall|j: int|
                    0 <= j < i ==> seg_result_ok(
                        self.kb(),
                        parts.deep_view()[j],
                        *target_os,
                        #[trigger] outs.deep_view()[j],
                    ),
            decreases parts@.len() - i,
        {
            proof {
                assert(parts.deep_view()[i as int] == parts@[i as int]@);
            }
            let t = self.translate_single(parts[i].as_str(), target_os);
            match t {
                Some(tp) => {
                    let ghost before = outs.deep_view();
                    outs.push(tp);
                    proof {
                        assert(outs.deep_view() =~~= before.push(tp@));
                    }
                },
                None => {
                    if single {
                        return None;
                    }
                    let ghost before = outs.deep_view();
                    let original = parts[i].clone();
                    outs.push(original);
                    proof {
                        assert(outs.deep_view() =~~= before.push(parts@[i as int]@));
                    }
                },
            }
            i += 1;
        }
        let joined = join_segments(&outs);
        let pathed = self.normalize_paths(joined.as_str(), target_os);
        let enved = self.translate_env_vars(pathed.as_str(), target_os);
        proof {
            let segs = spec_split(cmd@);
            let witness = outs.deep_view();
            assert(witness.len() == segs.len());
            assert(enved@ == spec_finalize(witness, *target_os));
        }
        Some(enved)
    }

    /// Explains a command: the stored description of the first record that
    /// lists the command verbatim in any platform field; when no record does,
    /// the oracle is asked, a failed oracle call yielding no explanation.
    pub fn explain(&self, cmd: &str) -> (r: Option<String>)
        ensures
            match spec_kb_description(self.kb(), cmd@) {
                Some(d) => r matches Some(s) && s@ == d,
                None => r matches Some(s) ==> exists|raw: Seq<char>| s@ == spec_clean_output(raw),
            },
    {
        let cmd_owned = cmd.to_owned();
        let n = self.commands.len();
        let mut idx: usize = 0;
        proof {
            assert(self.kb().skip(0) =~= self.kb());
        }
        while idx < n
            invariant
                n == self.commands@.len(),
                self.kb().len() == n,
                0 <= idx <= n,
                cmd_owned@ == cmd@,
                forall|k: int| 0 <= k < n ==> self.kb()[k] == self.commands@[k]@,
                spec_kb_description(self.kb(), cmd@) == spec_kb_description(
                    self.kb().skip(idx as int),
                    cmd@,
                ),
            decreases n - idx,
        {
            let entry = &self.commands[idx];
            let ghost rest = self.kb().skip(idx as int);
            proof {
                assert(rest[0] == self.kb()[idx as int]);
                assert(rest.drop_first() =~= self.kb().skip(idx as int + 1));
            }
            let hit = field_is(&entry.linux, &cmd_owned) || field_is(&entry.macos, &cmd_owned)
                || field_is(&entry.windows, &cmd_owned);
            if hit {
                return Some(entry.description.clone());
            }
            idx += 1;
        }
        proof {
            assert(self.kb().skip(n as int) =~= Seq::<CommandView>::empty());
        }
        match self.copilot.explain(cmd) {
            Ok(e) => Some(e),
            Err(_) => None,
        }
    }
}

/// A copy of an optional record field.
fn clone_field(field: &Option<String>) -> (r: Option<String>)
    ensures
        match field {
            Some(s) => r matches Some(c) && c@ == s@,
            None => r is None,
        },
{
    match field {
        Some(s) => Some(s.clone()),
        None => None,
    }
}

/// Whether the optional record field holds exactly the given command.
fn field_is(field: &Option<String>, cmd: &String) -> (r: bool)
    ensures
        r == match field {
            Some(s) => s@ == cmd@,
            None => false,
        },
{
    match field {
        Some(s) => *s == *cmd,
        None => false,
    }
}

/// The length of the stem of the first record slot (Linux, macOS, Windows,
/// in that order) that the segment matches, if any slot does.
fn record_stem(entry: &Command, seg: &Vec<char>) -> (r: Option<usize>)
    ensures
        match spec_first_stem(entry@, seg@) {
            Some(stem) => r matches Some(l) && l == stem.len() && l <= seg@.len(),
            None => r is None,
        },
{
    match &entry.linux {
        Some(f) => {
            let fc = str_to_chars(f.as_str());
            if stem_match(seg, &fc) {
                return Some(fc.len());
            }
        },
        None => {},
    }
    match &entry.macos {
        Some(f) => {
            let fc = str_to_chars(f.as_str());
            if stem_match(seg, &fc) {
                return Some(fc.len());
            }
        },
        None => {},
    }
    match &entry.windows {
        Some(f) => {
            let fc = str_to_chars(f.as_str());
            if stem_match(seg, &fc) {
                return Some(fc.len());
            }
        },
        None => {},
    }
    None
}

/// The translated stem with the segment's trailing arguments, from the stem's
/// end on, appended verbatim.
fn append_suffix(tf: &str, seg: &Vec<char>, stem_len: usize) -> (r: String)
    requires
        stem_len <= seg@.len(),
    ensures
        r@ == tf@ + seg@.skip(stem_len as int),
{
    let mut out = str_to_chars(tf);
    let ghost base = tf@;
    let mut k: usize = stem_len;
    while k < seg.len()
        invariant
            stem_len <= k <= seg@.len(),
            base == tf@,
            out@ == base + seg@.subrange(stem_len as int, k as int),
        decreases seg@.len() - k,
    {
        out.push(seg[k]);
        proof {
            assert(out@ =~= base + seg@.subrange(stem_len as int, k + 1 as int));
        }
        k += 1;
    }
    proof {
        assert(seg@.skip(stem_len as int) =~= seg@.subrange(stem_len as int, seg@.len() as int));
        assert(out@ =~= tf@ + seg@.skip(stem_len as int));
    }
    chars_to_string(&out)
}

} // verus!
