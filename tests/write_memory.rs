use ariadne_tools::tool::{GateDecision, ToolError, ToolResult, Validated, WriteMode, WriteOutcome, WritePlan};
use ariadne_tools::write_memory::{MemoryArgs, Note, WriteMemoryTool};

fn note(text: &str, tags: &[&str]) -> MemoryArgs {
    MemoryArgs { text: Some(text.to_string()), tags: tags.iter().map(|t| t.to_string()).collect() }
}

fn ready(a: MemoryArgs) -> Note {
    match WriteMemoryTool::validate(a) {
        Ok(Validated::Ready(n)) => n,
        _ => panic!("expected a valid note"),
    }
}

fn allowed(tool: &WriteMemoryTool, n: &Note) -> WritePlan {
    match tool.plan(n, GateDecision::Allow) {
        Ok(w) => w,
        Err(r) => panic!("denied: {:?}", r.error),
    }
}

fn denied(tool: &WriteMemoryTool, n: &Note, reason: &str) -> ToolResult {
    tool.plan(n, GateDecision::Deny(reason.to_string())).err().expect("a denial plans no write")
}

/// What appending the plans one after another leaves in the file.
fn appended(plans: &[WritePlan]) -> String {
    plans.iter().map(|w| w.content.as_str()).collect()
}

#[test]
fn appends_note_creates_file_in_ariadne_memory() {
    let tool = WriteMemoryTool::new("/tmp/ws".to_string());
    let w = allowed(&tool, &ready(note("First observation", &[])));
    let result = WriteMemoryTool::finish(&w, WriteOutcome::Written).unwrap();
    assert!(result.success, "unexpected error: {:?}", result.error);
    assert_eq!(w.path, "/tmp/ws/ariadne/memory/notes.md");
    assert_eq!(w.dir, "/tmp/ws/ariadne/memory");
    assert_eq!(w.mode, WriteMode::Append);
    let content = appended(&[w]);
    assert!(content.contains("First observation"));
    assert!(content.contains("---"));
}

#[test]
fn includes_tags_in_entry() {
    let tool = WriteMemoryTool::new("/tmp/ws".to_string());
    let w = allowed(&tool, &ready(note("Decided to use SQLite", &["decision", "db"])));
    let content = appended(&[w]);
    assert!(content.contains("decision"));
    assert!(content.contains("db"));
    assert!(content.contains("Decided to use SQLite"));
    assert!(content.contains("** [decision, db]\n\n"));
}

#[test]
fn appends_multiple_notes() {
    let tool = WriteMemoryTool::new("/tmp/ws".to_string());
    let a = allowed(&tool, &ready(note("Note A", &[])));
    let b = allowed(&tool, &ready(note("Note B", &[])));
    assert_eq!(a.path, b.path);
    let content = appended(&[a, b]);
    assert!(content.contains("Note A"));
    assert!(content.contains("Note B"));
    assert!(content.find("Note A").unwrap() < content.find("Note B").unwrap());
}

#[test]
fn write_memory_blocked_in_readonly_mode() {
    let tool = WriteMemoryTool::new("/tmp/ws".to_string());
    let n = ready(note("should be blocked", &[]));
    let result = denied(&tool, &n, "Security policy: read-only mode, cannot perform 'act'");
    assert!(!result.success);
    assert!(result.error.as_deref().unwrap_or("").contains("read-only mode"));
}

#[test]
fn write_memory_blocked_when_rate_limited() {
    let tool = WriteMemoryTool::new("/tmp/ws".to_string());
    let n = ready(note("should be blocked", &[]));
    let result = denied(&tool, &n, "Rate limit exceeded: too many actions in the last hour");
    assert!(!result.success);
    assert!(result.error.as_deref().unwrap_or("").contains("Rate limit"));
}

#[test]
fn empty_text_rejected() {
    match WriteMemoryTool::validate(note("  ", &[])) {
        Ok(Validated::Rejected(result)) => {
            assert!(!result.success);
            assert!(result.error.as_deref().unwrap_or("").contains("empty"));
        }
        _ => panic!("expected a soft failure"),
    }
}

#[test]
fn missing_text_param_is_error() {
    let result = WriteMemoryTool::validate(MemoryArgs { text: None, tags: vec![] });
    assert!(result.is_err());
    match result {
        Err(ToolError::MissingParameter(name)) => assert_eq!(name, "text"),
        _ => panic!("expected a missing parameter"),
    }
}

#[test]
fn entry_format_is_exact() {
    let tool = WriteMemoryTool::new("/ws".to_string());
    let w = tool.plan_at(&ready(note("  Remember this \n", &["a", "b", "c"])), "2026-10-19T15:13:00+00:00");
    assert_eq!(w.content, "\n\n---\n**2026-10-19T15:13:00+00:00** [a, b, c]\n\nRemember this\n");
    let plain = tool.plan_at(&ready(note("x", &[])), "T");
    assert_eq!(plain.content, "\n\n---\n**T**\n\nx\n");
}

#[test]
fn earlier_entries_stay_as_written() {
    let tool = WriteMemoryTool::new("/ws".to_string());
    let first = tool.plan_at(&ready(note("one", &[])), "T1");
    let log_after_one = appended(&[tool.plan_at(&ready(note("one", &[])), "T1")]);
    let second = tool.plan_at(&ready(note("two", &["t"])), "T2");
    let third = tool.plan_at(&ready(note("three", &[])), "T3");
    let log = appended(&[first, second, third]);
    assert!(log.starts_with(&log_after_one));
    assert_eq!(
        log,
        "\n\n---\n**T1**\n\none\n\n\n---\n**T2** [t]\n\ntwo\n\n\n---\n**T3**\n\nthree\n"
    );
}

#[test]
fn notes_path_is_fixed() {
    let tool = WriteMemoryTool::new("/data/agent".to_string());
    assert_eq!(tool.name(), "write_memory");
    assert_eq!(tool.notes_path(), "/data/agent/ariadne/memory/notes.md");
    let result = WriteMemoryTool::finish(&tool.plan_at(&ready(note("x", &[])), "T"), WriteOutcome::Written).unwrap();
    assert_eq!(result.output, "Note appended to /data/agent/ariadne/memory/notes.md (15 bytes)");
}

#[test]
fn report_counts_utf8_bytes() {
    let tool = WriteMemoryTool::new("/ws".to_string());
    let w = tool.plan_at(&ready(note("é", &[])), "T");
    assert_eq!(w.content.len(), 16);
    let result = WriteMemoryTool::finish(&w, WriteOutcome::Written).unwrap();
    assert_eq!(result.output, "Note appended to /ws/ariadne/memory/notes.md (16 bytes)");
    let long = tool.plan_at(&ready(note(&"n".repeat(200), &["tag"])), "2026-10-19T15:13:00+00:00");
    let report = WriteMemoryTool::finish(&long, WriteOutcome::Written).unwrap().output;
    assert!(report.ends_with(&format!("({} bytes)", long.content.len())));
}
