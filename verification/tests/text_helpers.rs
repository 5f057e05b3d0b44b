//! Tests of the text helpers, channel shapes and screen helpers.

use openfang_core::channel::{default_phase_emoji, split_message, AgentPhase};
use openfang_core::screens::audit::{friendly_action, AuditFilter};
use openfang_core::screens::logs::{classify_level, LevelFilter, LogLevel};
use openfang_core::screens::skills::ClawHubSort;
use openfang_core::screens::chat::{sanitize_function_tags, wrap_text};
use openfang_core::strutil::{bytes_to_hex, u64_string};
use openfang_core::text::{
    format_context, format_count, format_tokens, format_uptime, truncate, truncate_line,
    truncate_str,
};

#[test]
fn truncate_str_ascii() {
    assert_eq!(truncate_str("hello world", 5), "hello");
}

#[test]
fn truncate_str_chinese() {
    // Each Chinese character is 3 bytes
    let s = "\u{4F60}\u{597D}\u{4E16}\u{754C}";
    assert_eq!(truncate_str(s, 6), "\u{4F60}\u{597D}");
    assert_eq!(truncate_str(s, 7), "\u{4F60}\u{597D}");
    assert_eq!(truncate_str(s, 9), "\u{4F60}\u{597D}\u{4E16}");
}

#[test]
fn truncate_str_emoji() {
    let s = "hi\u{1F600}there"; // the emoji is 4 bytes
    assert_eq!(truncate_str(s, 3), "hi");
    assert_eq!(truncate_str(s, 6), "hi\u{1F600}");
}

#[test]
fn truncate_str_no_truncation() {
    assert_eq!(truncate_str("short", 100), "short");
}

#[test]
fn truncate_str_empty() {
    assert_eq!(truncate_str("", 10), "");
}

#[test]
fn test_split_message_short() {
    assert_eq!(split_message("hello", 100), vec!["hello"]);
}

#[test]
fn test_split_message_at_newlines() {
    let text = "line1\nline2\nline3";
    let chunks = split_message(text, 10);
    assert_eq!(chunks, vec!["line1", "line2", "line3"]);
}

#[test]
fn split_message_hard_cut_and_crlf() {
    // No newline inside the window: a hard cut on the byte budget.
    let chunks = split_message("abcdefghij", 4);
    assert_eq!(chunks, vec!["abcd", "efgh", "ij"]);
    // A CRLF directly after the cut is swallowed once.
    let chunks = split_message("abcd\r\nef", 6);
    assert_eq!(chunks, vec!["abcd\r", "ef"]);
}

#[test]
fn test_agent_phase_tool_use_sanitizes() {
    let phase = AgentPhase::tool_use("hello\x00world\x01test");
    if let AgentPhase::ToolUse { tool_name } = phase {
        assert!(!tool_name.contains('\x00'));
        assert!(!tool_name.contains('\x01'));
        assert!(tool_name.contains("hello"));
    } else {
        panic!("Expected ToolUse variant");
    }
}

#[test]
fn test_agent_phase_tool_use_truncates_long_name() {
    let long_name = "a".repeat(200);
    let phase = AgentPhase::tool_use(&long_name);
    if let AgentPhase::ToolUse { tool_name } = phase {
        assert!(tool_name.len() <= 64);
    }
}

#[test]
fn test_default_phase_emoji() {
    assert_eq!(default_phase_emoji(&AgentPhase::Thinking), "\u{1F914}");
    assert_eq!(default_phase_emoji(&AgentPhase::Done), "\u{2705}");
    assert_eq!(default_phase_emoji(&AgentPhase::Error), "\u{274C}");
}

#[test]
fn truncate_adds_ellipsis() {
    assert_eq!(truncate("hello world", 8), "hello w\u{2026}");
    assert_eq!(truncate("hello", 8), "hello");
    assert_eq!(truncate_line("hello world", 8), "hello w\u{2026}");
}

#[test]
fn uptime_rendering() {
    assert_eq!(format_uptime(45), "45s");
    assert_eq!(format_uptime(125), "2m 5s");
    assert_eq!(format_uptime(7260), "2h 1m");
    assert_eq!(format_uptime(90000), "1d 1h");
}

#[test]
fn compact_counts() {
    assert_eq!(format_tokens(999), "999");
    assert_eq!(format_tokens(1500), "1.5K");
    assert_eq!(format_tokens(2500000), "2.5M");
    assert_eq!(format_count(1500), "1.5K");
    assert_eq!(format_context(999), "999");
    assert_eq!(format_context(32000), "32K");
    assert_eq!(format_context(2000000), "2.0M");
}

#[test]
fn audit_filter_matching() {
    assert!(AuditFilter::All.matches("anything"));
    assert!(AuditFilter::AgentSpawn.matches("AgentSpawn"));
    assert!(AuditFilter::AgentSpawn.matches("created"));
    assert!(!AuditFilter::AgentSpawn.matches("ToolInvoke"));
    assert!(AuditFilter::ShellExec.matches("shell_exec"));
    assert_eq!(AuditFilter::All.next(), AuditFilter::AgentSpawn);
    assert_eq!(AuditFilter::ShellExec.next(), AuditFilter::All);
    assert_eq!(AuditFilter::ToolInvoke.label(), "Tool Used");
}

#[test]
fn friendly_action_names() {
    assert_eq!(friendly_action("AgentSpawn"), "Agent Created");
    assert_eq!(friendly_action("CapabilityDenied"), "Access Denied");
    assert_eq!(friendly_action("SomethingElse"), "SomethingElse");
}

#[test]
fn log_level_classification() {
    assert_eq!(classify_level("ToolInvoke", "all good"), LogLevel::Info);
    assert_eq!(classify_level("Error", "boom"), LogLevel::Error);
    assert_eq!(classify_level("note", "request TIMEOUT hit"), LogLevel::Warn);
    assert_eq!(classify_level("CapabilityDenied", ""), LogLevel::Warn);
    assert!(LevelFilter::All.matches(LogLevel::Info));
    assert!(!LevelFilter::Error.matches(LogLevel::Info));
    assert_eq!(LevelFilter::All.next(), LevelFilter::Error);
    assert_eq!(LogLevel::Warn.label(), "WRN");
}

#[test]
fn clawhub_sort_cycle() {
    assert_eq!(ClawHubSort::Trending.label(), "Trending");
    assert_eq!(ClawHubSort::Trending.next(), ClawHubSort::Popular);
    assert_eq!(ClawHubSort::Recent.next(), ClawHubSort::Trending);
}

#[test]
fn sanitize_strips_function_tags() {
    assert_eq!(sanitize_function_tags("plain text"), "plain text");
    assert_eq!(
        sanitize_function_tags("a<function>hidden</function>b"),
        "ab"
    );
    assert_eq!(
        sanitize_function_tags("x<function>one</function>y<function>two</function>z"),
        "xyz"
    );
    // An unclosed tag drops everything from the tag to the end.
    assert_eq!(sanitize_function_tags("keep<function>dangling"), "keep");
}

#[test]
fn wrap_text_packs_words() {
    assert_eq!(wrap_text("hello world foo", 11), vec!["hello world", "foo"]);
    assert_eq!(wrap_text("", 10), vec![""]);
    assert_eq!(wrap_text("one\n\ntwo", 10), vec!["one", "", "two"]);
    // An over-wide word stands on a line of its own.
    assert_eq!(wrap_text("tiny enormousword x", 6), vec!["tiny", "enormousword", "x"]);
    // Zero width disables wrapping.
    assert_eq!(wrap_text("a b", 0), vec!["a b"]);
}

#[test]
fn decimal_and_hex_rendering() {
    assert_eq!(u64_string(0), "0");
    assert_eq!(u64_string(90210), "90210");
    assert_eq!(bytes_to_hex(&[0x00, 0xff, 0x1a]), "00ff1a");
}
