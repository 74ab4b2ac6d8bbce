use ariadne_tools::config_change::{ConfigChange, ConfigChangeArgs, ConfigTarget, ProposeConfigChangeTool};
use ariadne_tools::text::trim;
use ariadne_tools::tool::{escape_colons, GateDecision, ToolResult, Validated, WriteMode, WriteOutcome};

fn args(target: &str, rationale: &str, content: &str) -> ConfigChangeArgs {
    ConfigChangeArgs {
        target: Some(target.to_string()),
        rationale: Some(rationale.to_string()),
        content: Some(content.to_string()),
    }
}

fn ready(a: ConfigChangeArgs) -> ConfigChange {
    match ProposeConfigChangeTool::validate(a) {
        Ok(Validated::Ready(c)) => c,
        _ => panic!("expected a valid change"),
    }
}

fn rejected(a: ConfigChangeArgs) -> ToolResult {
    match ProposeConfigChangeTool::validate(a) {
        Ok(Validated::Rejected(r)) => r,
        _ => panic!("expected a soft failure"),
    }
}

#[test]
fn core_identity_change_end_to_end() {
    let tool = ProposeConfigChangeTool::new("/tmp/ws".to_string());
    let c = ready(args("core-identity", "Add resilience attribute", "## Resilience"));
    let w = match tool.plan(&c, GateDecision::Allow) {
        Ok(w) => w,
        Err(r) => panic!("denied: {:?}", r.error),
    };
    assert_eq!(w.dir, "/tmp/ws/ariadne/proposals");
    let name = w.path.strip_prefix("/tmp/ws/ariadne/proposals/").unwrap();
    assert!(!name.contains('/'));
    assert!(name.contains("core-identity"));
    assert!(name.ends_with("-core-identity.md"));
    assert!(!name.contains(':'));
    assert!(w.content.contains("PENDING OPERATOR REVIEW"));
    assert!(w.content.contains("Add resilience attribute"));
    assert!(w.content.contains("## Resilience"));
    let result = ProposeConfigChangeTool::finish(&w, WriteOutcome::Written).unwrap();
    assert!(result.success);
    assert!(result.output.contains("awaiting operator review"));
}

#[test]
fn unknown_targets_are_rejected() {
    for target in ["../../etc/passwd", "core-identity/../x", "CORE-IDENTITY", "", "notes.md", " core-identity"] {
        let result = rejected(args(target, "r", "c"));
        assert!(!result.success);
        let error = result.error.unwrap();
        assert!(error.starts_with("unknown target"), "{}", error);
    }
}

#[test]
fn known_targets_parse() {
    assert_eq!(ConfigTarget::parse("core-identity"), Some(ConfigTarget::CoreIdentity));
    assert_eq!(ConfigTarget::parse("operational-mode"), Some(ConfigTarget::OperationalMode));
    assert_eq!(ConfigTarget::parse("task-keywords"), Some(ConfigTarget::TaskKeywords));
    assert_eq!(ConfigTarget::parse("task-keyword"), None);
    assert_eq!(ConfigTarget::TaskKeywords.name(), "task-keywords");
}

#[test]
fn blank_rationale_and_content_are_rejected() {
    let r = rejected(args("core-identity", " \t\n", "c"));
    assert_eq!(r.error.as_deref(), Some("rationale must not be empty"));
    let c = rejected(args("operational-mode", "r", "\u{3000}"));
    assert_eq!(c.error.as_deref(), Some("content must not be empty"));
}

#[test]
fn missing_config_fields_are_hard_failures() {
    let mut a = args("core-identity", "r", "c");
    a.rationale = None;
    match ProposeConfigChangeTool::validate(a) {
        Err(e) => assert_eq!(e.message(), "Missing 'rationale' parameter"),
        _ => panic!("expected a missing parameter"),
    }
}

#[test]
fn config_denial_carries_the_reason() {
    let tool = ProposeConfigChangeTool::new("/tmp/ws".to_string());
    let c = ready(args("core-identity", "r", "c"));
    let reason = "Security policy: read-only mode, cannot perform 'act'";
    let result = tool.plan(&c, GateDecision::Deny(reason.to_string())).err().unwrap();
    assert!(!result.success);
    assert_eq!(result.error.as_deref(), Some(reason));
}

#[test]
fn config_plan_at_is_exact() {
    let tool = ProposeConfigChangeTool::new("/ws".to_string());
    let c = ready(args("task-keywords", " Add deploy ", "+ deploy"));
    let w = tool.plan_at(&c, "2026-10-19T15:13:00Z");
    assert_eq!(w.path, "/ws/ariadne/proposals/2026-10-19T15-13-00Z-task-keywords.md");
    assert_eq!(w.mode, WriteMode::CreateNew);
    assert_eq!(
        w.content,
        "# Configuration Change Proposal: task-keywords\n\n**Timestamp:** 2026-10-19T15:13:00Z\n**Status:** PENDING OPERATOR REVIEW\n\n## Rationale\n\nAdd deploy\n\n## Proposed Content\n\n+ deploy\n\n---\n*This proposal was generated by the agent and must be reviewed and manually applied by an operator. No automatic changes are made.*\n"
    );
}

#[test]
fn trim_and_escape_helpers() {
    assert_eq!(trim("  a b \n"), "a b");
    assert_eq!(trim("\u{A0}\u{2003}x\u{205F}"), "x");
    assert_eq!(trim(" \t "), "");
    assert_eq!(escape_colons("12:34:56"), "12-34-56");
}

#[test]
fn same_second_config_change_does_not_overwrite() {
    let tool = ProposeConfigChangeTool::new("/ws".to_string());
    let first = tool.plan_at(&ready(args("core-identity", "one", "a")), "2026-10-19T15:13:00Z");
    let second = tool.plan_at(&ready(args("core-identity", "two", "b")), "2026-10-19T15:13:00Z");
    assert_eq!(first.path, second.path);
    assert_eq!(second.mode, WriteMode::CreateNew);
    assert!(ProposeConfigChangeTool::finish(&second, WriteOutcome::AlreadyExists).is_err());
}
