//! End-to-end tests of the translation engine: knowledge-base matching,
//! oracle fallback, and the explain path.

use std::cell::Cell;
use std::rc::Rc;

use shellbridge::{Command, CopilotWrapper, OracleRunner, Platform, SilentOracle, TranslationEngine};

struct CannedOracle {
    response: String,
    calls: Rc<Cell<u32>>,
}

impl CannedOracle {
    fn new(response: &str) -> CannedOracle {
        CannedOracle { response: response.to_string(), calls: Rc::new(Cell::new(0)) }
    }
}

impl OracleRunner for CannedOracle {
    fn run(&self, _prompt: &str) -> Result<String, String> {
        self.calls.set(self.calls.get() + 1);
        Ok(self.response.clone())
    }
}

struct FailingOracle;

impl OracleRunner for FailingOracle {
    fn run(&self, _prompt: &str) -> Result<String, String> {
        Err("oracle unavailable".to_string())
    }
}

fn record(id: &str, linux: Option<&str>, macos: Option<&str>, windows: Option<&str>) -> Command {
    Command {
        id: id.to_string(),
        category: "test".to_string(),
        description: format!("description of {}", id),
        linux: linux.map(|s| s.to_string()),
        macos: macos.map(|s| s.to_string()),
        windows: windows.map(|s| s.to_string()),
    }
}

fn silent_engine(commands: Vec<Command>) -> TranslationEngine<SilentOracle> {
    TranslationEngine::new(commands, CopilotWrapper::new(SilentOracle))
}

#[test]
fn stem_match_preserves_suffix() {
    let engine = silent_engine(vec![record("list", Some("ls -la"), None, Some("dir"))]);
    let r = engine.match_in_db("ls -la /tmp", &Platform::Windows);
    assert_eq!(r, Some("dir /tmp".to_string()));
}

#[test]
fn stem_match_preserves_suffix_verbatim() {
    let engine = silent_engine(vec![record("list", Some("ls -la"), None, Some("dir"))]);
    let r = engine.match_in_db("ls -la   /tmp  x", &Platform::Windows);
    assert_eq!(r, Some("dir   /tmp  x".to_string()));
}

#[test]
fn exact_match_without_suffix() {
    let engine = silent_engine(vec![record("list", Some("ls -la"), None, Some("dir"))]);
    let r = engine.match_in_db("ls -la", &Platform::Windows);
    assert_eq!(r, Some("dir".to_string()));
}

#[test]
fn stem_must_end_at_word_boundary() {
    let engine = silent_engine(vec![record("list", Some("ls"), None, Some("dir"))]);
    assert_eq!(engine.match_in_db("lsblk", &Platform::Windows), None);
}

#[test]
fn missing_target_field_is_no_match() {
    let engine = silent_engine(vec![record("list", Some("ls"), None, None)]);
    assert_eq!(engine.match_in_db("ls", &Platform::Windows), None);
}

#[test]
fn missing_target_field_falls_through_to_oracle() {
    let oracle = CannedOracle::new("dir");
    let engine = TranslationEngine::new(
        vec![record("list", Some("ls"), None, None)],
        CopilotWrapper::new(oracle),
    );
    let r = engine.translate("ls", &Platform::Windows);
    assert_eq!(r, Some("dir".to_string()));
}

#[test]
fn scanning_continues_past_record_without_target_field() {
    let engine = silent_engine(vec![
        record("first", Some("ls"), None, None),
        record("second", Some("ls"), None, Some("dir")),
    ]);
    assert_eq!(engine.match_in_db("ls", &Platform::Windows), Some("dir".to_string()));
}

#[test]
fn first_matching_record_wins() {
    let engine = silent_engine(vec![
        record("short", Some("ls"), None, Some("dir")),
        record("long", Some("ls -la"), None, Some("dir /q")),
    ]);
    assert_eq!(engine.match_in_db("ls -la", &Platform::Windows), Some("dir -la".to_string()));
}

#[test]
fn macos_field_matches_and_resolves() {
    let engine = silent_engine(vec![record("open", Some("xdg-open"), Some("open"), None)]);
    assert_eq!(
        engine.match_in_db("open file.txt", &Platform::Linux),
        Some("xdg-open file.txt".to_string())
    );
}

#[test]
fn linux_family_targets_resolve_linux_field() {
    let engine = silent_engine(vec![record("list", Some("ls"), None, Some("dir"))]);
    for target in [Platform::Linux, Platform::WSL, Platform::Docker, Platform::GitBash] {
        assert_eq!(engine.match_in_db("dir", &target), Some("ls".to_string()));
    }
}

#[test]
fn unknown_target_never_resolves() {
    let engine = silent_engine(vec![record("list", Some("ls"), Some("ls"), Some("dir"))]);
    assert_eq!(engine.match_in_db("ls", &Platform::Unknown), None);
}

#[test]
fn translate_whole_pipeline_from_knowledge_base() {
    let engine = silent_engine(vec![record("list", Some("ls"), None, Some("dir"))]);
    let r = engine.translate("ls | ls", &Platform::Windows);
    assert_eq!(r, Some("dir | dir".to_string()));
}

#[test]
fn failed_segment_passes_through_in_pipeline() {
    let engine = silent_engine(vec![record("list", Some("ls"), None, Some("dir"))]);
    let r = engine.translate("ls | frobnicate --x", &Platform::Windows);
    assert_eq!(r, Some("dir | frobnicate --x".to_string()));
}

#[test]
fn failing_oracle_does_not_abort_siblings() {
    let oracle = FailingOracle;
    let engine = TranslationEngine::new(
        vec![record("list", Some("ls"), None, Some("dir"))],
        CopilotWrapper::new(oracle),
    );
    let r = engine.translate("zzz one | ls | qqq two", &Platform::Windows);
    assert_eq!(r, Some("zzz one | dir | qqq two".to_string()));
}

#[test]
fn single_segment_with_failing_oracle_yields_none() {
    let engine = silent_engine(vec![]);
    assert_eq!(engine.translate("frobnicate", &Platform::Linux), None);
}

#[test]
fn blank_command_yields_none() {
    let engine = silent_engine(vec![record("list", Some("ls"), None, Some("dir"))]);
    assert_eq!(engine.translate("", &Platform::Windows), None);
    assert_eq!(engine.translate("   ", &Platform::Windows), None);
    assert_eq!(engine.translate(" | ", &Platform::Windows), None);
}

#[test]
fn translate_normalizes_paths_after_matching() {
    let engine = silent_engine(vec![record("list", Some("ls -la"), None, Some("dir"))]);
    let r = engine.translate("ls -la /tmp", &Platform::Windows);
    assert_eq!(r, Some("dir \\tmp".to_string()));
}

#[test]
fn translate_normalizes_env_vars_after_matching() {
    let engine = silent_engine(vec![record("print", Some("echo"), None, Some("echo"))]);
    let r = engine.translate("echo $HOME", &Platform::Windows);
    assert_eq!(r, Some("echo %HOME%".to_string()));
}

#[test]
fn oracle_translation_is_sanitized() {
    let oracle = CannedOracle::new("  `dir /q`  \n\nTotal usage est: 12 tokens\n");
    let engine = TranslationEngine::new(vec![], CopilotWrapper::new(oracle));
    let r = engine.translate("list hidden", &Platform::Unknown);
    assert_eq!(r, Some("dir /q".to_string()));
}

#[test]
fn explain_prefers_knowledge_base_over_oracle() {
    let oracle = CannedOracle::new("oracle explanation");
    let engine = TranslationEngine::new(
        vec![record("list", Some("ls"), None, Some("dir"))],
        CopilotWrapper::new(oracle),
    );
    let r = engine.explain("ls");
    assert_eq!(r, Some("description of list".to_string()));
}

#[test]
fn explain_knowledge_base_hit_never_invokes_oracle() {
    let oracle = CannedOracle::new("oracle explanation");
    let calls = Rc::clone(&oracle.calls);
    let engine = TranslationEngine::new(
        vec![record("list", Some("ls"), None, Some("dir"))],
        CopilotWrapper::new(oracle),
    );
    let _ = engine.explain("dir");
    // The record lists "dir" verbatim, so the oracle is never invoked.
    assert_eq!(calls.get(), 0);
}

#[test]
fn explain_miss_invokes_oracle_exactly_once() {
    let oracle = CannedOracle::new("Lists files.\n\nTotal usage est: 3 tokens");
    let calls = Rc::clone(&oracle.calls);
    let engine = TranslationEngine::new(
        vec![record("list", Some("ls"), None, Some("dir"))],
        CopilotWrapper::new(oracle),
    );
    let r = engine.explain("whoami");
    assert_eq!(r, Some("Lists files.".to_string()));
    assert_eq!(calls.get(), 1);
}

#[test]
fn explain_requires_exact_field_equality() {
    let engine = silent_engine(vec![record("list", Some("ls"), None, Some("dir"))]);
    // "ls -x" only matches by prefix, which explain does not do.
    assert_eq!(engine.explain("ls -x"), None);
}

#[test]
fn explain_with_failing_oracle_yields_none() {
    let engine = silent_engine(vec![]);
    assert_eq!(engine.explain("ls"), None);
}
