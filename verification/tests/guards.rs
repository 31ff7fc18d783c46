//! Tests of the destructive-command gate, the platform names, and the oracle
//! prompt and cleanup helpers.

use shellbridge::oracle::{clean_oracle_output, explanation_prompt, strip_code_fence,
    translation_prompt};
use shellbridge::{is_dangerous, Platform};

#[test]
fn dangerous_patterns_are_recognized() {
    assert!(is_dangerous("rm -rf /"));
    assert!(is_dangerous("sudo rm file"));
    assert!(is_dangerous("dd if=/dev/zero of=/dev/sda"));
    assert!(is_dangerous("mkfs.ext4 /dev/sdb1"));
    assert!(is_dangerous(":(){:|:&};:"));
    assert!(is_dangerous("echo x > /dev/sda"));
    assert!(is_dangerous("format c:"));
    assert!(is_dangerous("del /s /q C:\\"));
    assert!(is_dangerous("rd /s /q C:\\tmp"));
}

#[test]
fn harmless_commands_are_not_flagged() {
    assert!(!is_dangerous("ls -la"));
    assert!(!is_dangerous("echo hello"));
    assert!(!is_dangerous("cat notes.txt"));
}

#[test]
fn platform_display_names() {
    assert_eq!(Platform::Linux.display_name(), "linux");
    assert_eq!(Platform::MacOS.display_name(), "macos");
    assert_eq!(Platform::Windows.display_name(), "windows");
    assert_eq!(Platform::WSL.display_name(), "wsl");
    assert_eq!(Platform::Docker.display_name(), "docker");
    assert_eq!(Platform::GitBash.display_name(), "gitbash");
    assert_eq!(Platform::Unknown.display_name(), "unknown");
}

#[test]
fn platform_linux_family_membership() {
    assert!(Platform::Linux.linux_family());
    assert!(Platform::WSL.linux_family());
    assert!(Platform::Docker.linux_family());
    assert!(Platform::GitBash.linux_family());
    assert!(!Platform::MacOS.linux_family());
    assert!(!Platform::Windows.linux_family());
    assert!(!Platform::Unknown.linux_family());
}

#[test]
fn translation_prompt_embeds_command_and_platform() {
    assert_eq!(
        translation_prompt("ls -la", &Platform::Windows),
        "Translate 'ls -la' to windows command line. Output ONLY the raw command string. \
         Do not use markdown code blocks. Do not provide any explanation."
    );
}

#[test]
fn explanation_prompt_embeds_command() {
    assert_eq!(
        explanation_prompt("ls"),
        "Explain the shell command 'ls'. Keep it concise."
    );
}

#[test]
fn clean_output_strips_trailer_after_blank_line() {
    assert_eq!(clean_oracle_output("dir /q\n\nTotal usage est: 12 tokens\n"), "dir /q");
}

#[test]
fn clean_output_strips_bare_trailer() {
    assert_eq!(clean_oracle_output("dir /q Total usage est: 12"), "dir /q");
}

#[test]
fn clean_output_without_trailer_just_trims() {
    assert_eq!(clean_oracle_output("  dir /q \n"), "dir /q");
}

#[test]
fn code_fence_pair_is_stripped_once() {
    assert_eq!(strip_code_fence("`ls -la`"), "ls -la");
    assert_eq!(strip_code_fence("  `ls -la`  "), "ls -la");
    assert_eq!(strip_code_fence("``ls -la``"), "`ls -la`");
}

#[test]
fn lone_backtick_is_kept() {
    assert_eq!(strip_code_fence("`ls"), "`ls");
    assert_eq!(strip_code_fence("ls`"), "ls`");
    assert_eq!(strip_code_fence("`"), "`");
    assert_eq!(strip_code_fence("``"), "");
}
