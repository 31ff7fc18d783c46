//! Tests of the pipeline splitter and the two normalization passes.

use shellbridge::{CopilotWrapper, Platform, SilentOracle, TranslationEngine};

fn bare_engine() -> TranslationEngine<SilentOracle> {
    TranslationEngine::new(Vec::new(), CopilotWrapper::new(SilentOracle))
}

#[test]
fn split_no_pipe_is_one_trimmed_segment() {
    let engine = bare_engine();
    assert_eq!(engine.split_cmd("ls -la"), vec!["ls -la".to_string()]);
    assert_eq!(engine.split_cmd("   ls -la  "), vec!["ls -la".to_string()]);
}

#[test]
fn split_blank_input_is_empty() {
    let engine = bare_engine();
    assert_eq!(engine.split_cmd(""), Vec::<String>::new());
    assert_eq!(engine.split_cmd("   \t "), Vec::<String>::new());
}

#[test]
fn split_three_segments_in_order() {
    let engine = bare_engine();
    assert_eq!(
        engine.split_cmd("cmd1 | cmd2 | cmd3"),
        vec!["cmd1".to_string(), "cmd2".to_string(), "cmd3".to_string()]
    );
}

#[test]
fn split_keeps_double_quoted_pipe() {
    let engine = bare_engine();
    assert_eq!(engine.split_cmd("echo \"a|b\""), vec!["echo \"a|b\"".to_string()]);
}

#[test]
fn split_keeps_single_quoted_pipe() {
    let engine = bare_engine();
    assert_eq!(engine.split_cmd("echo 'a|b'"), vec!["echo 'a|b'".to_string()]);
}

#[test]
fn split_keeps_escaped_pipe() {
    let engine = bare_engine();
    assert_eq!(engine.split_cmd("echo a\\|b"), vec!["echo a\\|b".to_string()]);
}

#[test]
fn split_quote_kinds_do_not_nest() {
    let engine = bare_engine();
    // The single quote inside double quotes does not open a region, so the
    // later pipe still separates.
    assert_eq!(
        engine.split_cmd("echo \"it's\" | wc"),
        vec!["echo \"it's\"".to_string(), "wc".to_string()]
    );
}

#[test]
fn split_discards_blank_segments() {
    let engine = bare_engine();
    assert_eq!(engine.split_cmd("a ||  b"), vec!["a".to_string(), "b".to_string()]);
    assert_eq!(engine.split_cmd("| a |"), vec!["a".to_string()]);
    assert_eq!(engine.split_cmd("|||"), Vec::<String>::new());
}

#[test]
fn paths_to_windows_replaces_slashes() {
    let engine = bare_engine();
    assert_eq!(engine.normalize_paths("ls /tmp/a/b", &Platform::Windows), "ls \\tmp\\a\\b");
}

#[test]
fn paths_to_linux_family_replaces_backslashes() {
    let engine = bare_engine();
    assert_eq!(engine.normalize_paths("dir C:\\x\\y", &Platform::Linux), "dir C:/x/y");
    assert_eq!(engine.normalize_paths("dir C:\\x", &Platform::MacOS), "dir C:/x");
    assert_eq!(engine.normalize_paths("dir C:\\x", &Platform::WSL), "dir C:/x");
}

#[test]
fn paths_unknown_target_unchanged() {
    let engine = bare_engine();
    assert_eq!(engine.normalize_paths("a/b\\c", &Platform::Unknown), "a/b\\c");
}

#[test]
fn env_vars_to_windows_form() {
    let engine = bare_engine();
    assert_eq!(
        engine.translate_env_vars("echo $HOME/$USER", &Platform::Windows),
        "echo %HOME%/%USER%"
    );
}

#[test]
fn env_then_paths_for_windows_target() {
    let engine = bare_engine();
    let enved = engine.translate_env_vars("echo $HOME/$USER", &Platform::Windows);
    let result = engine.normalize_paths(&enved, &Platform::Windows);
    assert_eq!(result, "echo %HOME%\\%USER%");
}

#[test]
fn paths_then_env_gives_the_same_result() {
    let engine = bare_engine();
    let pathed = engine.normalize_paths("echo $HOME/$USER", &Platform::Windows);
    let result = engine.translate_env_vars(&pathed, &Platform::Windows);
    assert_eq!(result, "echo %HOME%\\%USER%");
}

#[test]
fn env_vars_from_windows_form() {
    let engine = bare_engine();
    let enved = engine.translate_env_vars("dir %TEMP%\\out", &Platform::Linux);
    assert_eq!(enved, "dir $TEMP\\out");
    let result = engine.normalize_paths(&enved, &Platform::Linux);
    assert_eq!(result, "dir $TEMP/out");
}

#[test]
fn env_bare_dollar_is_kept() {
    let engine = bare_engine();
    assert_eq!(engine.translate_env_vars("echo $ end", &Platform::Windows), "echo $ end");
    assert_eq!(engine.translate_env_vars("echo $", &Platform::Windows), "echo $");
}

#[test]
fn env_underscore_names_are_rewritten() {
    let engine = bare_engine();
    assert_eq!(
        engine.translate_env_vars("echo $MY_VAR2", &Platform::Windows),
        "echo %MY_VAR2%"
    );
}

#[test]
fn env_unmatched_percent_passes_through() {
    let engine = bare_engine();
    assert_eq!(engine.translate_env_vars("100% sure", &Platform::Linux), "100% sure");
}

#[test]
fn env_empty_percent_pair_collapses() {
    let engine = bare_engine();
    assert_eq!(engine.translate_env_vars("a%%b", &Platform::Linux), "a%b");
}

#[test]
fn env_unknown_target_unchanged() {
    let engine = bare_engine();
    assert_eq!(engine.translate_env_vars("$A %B%", &Platform::Unknown), "$A %B%");
}
