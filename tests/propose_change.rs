use ariadne_tools::propose_change::{ProposalArgs, Proposal, ProposeChangeTool};
use ariadne_tools::slug::slugify;
use ariadne_tools::tool::{GateDecision, ToolError, ToolResult, Validated, WriteMode, WriteOutcome, WritePlan};

fn args(title: &str, summary: &str, diff: &str) -> ProposalArgs {
    ProposalArgs {
        title: Some(title.to_string()),
        summary: Some(summary.to_string()),
        diff: Some(diff.to_string()),
        files: vec![],
        test_plan: None,
        risk: None,
    }
}

fn ready(a: ProposalArgs) -> Proposal {
    match ProposeChangeTool::validate(a) {
        Ok(Validated::Ready(p)) => p,
        Ok(Validated::Rejected(r)) => panic!("rejected: {:?}", r.error),
        Err(e) => panic!("hard failure: {}", e.message()),
    }
}

fn rejected(a: ProposalArgs) -> ToolResult {
    match ProposeChangeTool::validate(a) {
        Ok(Validated::Rejected(r)) => r,
        _ => panic!("expected a soft failure"),
    }
}

fn allowed(tool: &ProposeChangeTool, p: &Proposal) -> WritePlan {
    match tool.plan(p, GateDecision::Allow) {
        Ok(w) => w,
        Err(r) => panic!("denied: {:?}", r.error),
    }
}

fn file_name(w: &WritePlan) -> String {
    w.path.rsplit('/').next().unwrap().to_string()
}

#[test]
fn creates_proposal_file_with_all_fields() {
    let tool = ProposeChangeTool::new("/tmp/ws".to_string());
    let p = ready(ProposalArgs {
        title: Some("Add resilience attribute".to_string()),
        summary: Some("Introduce resilience to core-identity so Ariadne adapts under uncertainty.".to_string()),
        files: vec!["ai/ariadne/core-identity.md".to_string()],
        diff: Some("--- a/ai/ariadne/core-identity.md\n+++ b/ai/ariadne/core-identity.md\n@@ -5 +5 @@\n+- **Resilient**: Adapts calmly under uncertainty.".to_string()),
        test_plan: Some("Read the prompt in OPERATIONAL mode and verify no regression.".to_string()),
        risk: Some("Low — additive change to identity invariants.".to_string()),
    });
    let w = allowed(&tool, &p);
    let result = ProposeChangeTool::finish(&w, WriteOutcome::Written).unwrap();
    assert!(result.success, "unexpected error: {:?}", result.error);
    assert!(result.output.contains("awaiting operator review"));

    assert_eq!(w.dir, "/tmp/ws/ariadne/proposals");
    assert!(w.path.starts_with("/tmp/ws/ariadne/proposals/"));
    assert_eq!(w.mode, WriteMode::CreateNew);
    let name_str = file_name(&w);
    assert!(name_str.contains("add-resilience-attribute"));
    assert!(name_str.ends_with(".md"));

    let content = &w.content;
    assert!(content.contains("Add resilience attribute"));
    assert!(content.contains("PENDING OPERATOR REVIEW"));
    assert!(content.contains("core-identity.md"));
    assert!(content.contains("```diff"));
    assert!(content.contains("Add resilience"));
    assert!(content.contains("No automatic changes are made"));
}

#[test]
fn creates_proposal_with_minimal_fields() {
    let tool = ProposeChangeTool::new("/tmp/ws".to_string());
    let p = ready(args("Tune task keywords", "Add 'deploy' to task indicators.", "+  \"deploy\","));
    let w = allowed(&tool, &p);
    let result = ProposeChangeTool::finish(&w, WriteOutcome::Written).unwrap();
    assert!(result.success, "unexpected error: {:?}", result.error);
    assert!(w.path.starts_with("/tmp/ws/ariadne/proposals/"));
    assert!(w.content.contains("_(not provided)_"));
    assert!(w.content.contains("_(not specified)_"));
}

#[test]
fn propose_config_change_blocked_in_readonly_mode() {
    let tool = ProposeChangeTool::new("/tmp/ws".to_string());
    let p = ready(args("test", "test", "test"));
    let denied = GateDecision::Deny("Security policy: read-only mode, cannot perform 'act'".to_string());
    let result = tool.plan(&p, denied).err().expect("a denial plans no write");
    assert!(!result.success);
    assert!(result.error.as_deref().unwrap_or("").contains("read-only mode"));
}

#[test]
fn propose_config_change_blocked_when_rate_limited() {
    let tool = ProposeChangeTool::new("/tmp/ws".to_string());
    let p = ready(args("test", "test", "test"));
    let denied = GateDecision::Deny("Rate limit exceeded: too many actions in the last hour".to_string());
    let result = tool.plan(&p, denied).err().expect("a denial plans no write");
    assert!(!result.success);
    assert!(result.error.as_deref().unwrap_or("").contains("Rate limit"));
}

#[test]
fn rejects_empty_title() {
    let result = rejected(args("", "s", "d"));
    assert!(!result.success);
    assert!(result.error.as_deref().unwrap_or("").contains("title"));
}

#[test]
fn rejects_empty_summary() {
    let result = rejected(args("t", "  ", "d"));
    assert!(!result.success);
    assert!(result.error.as_deref().unwrap_or("").contains("summary"));
}

#[test]
fn rejects_empty_diff() {
    let result = rejected(args("t", "s", ""));
    assert!(!result.success);
    assert!(result.error.as_deref().unwrap_or("").contains("diff"));
}

#[test]
fn slugify_normalises_title() {
    assert_eq!(slugify("Add resilience attribute"), "add-resilience-attribute");
    assert_eq!(slugify("Fix: memory/notes path"), "fix-memory-notes-path");
    assert_eq!(slugify("  spaces  everywhere  "), "spaces-everywhere");
}

#[test]
fn slugify_limits_segments() {
    let long = "one two three four five six seven eight nine ten";
    let slug = slugify(long);
    assert!(slug.split('-').count() <= 8);
}

#[test]
fn slugify_keeps_exactly_eight_segments() {
    assert_eq!(
        slugify("one two three four five six seven eight nine ten"),
        "one-two-three-four-five-six-seven-eight"
    );
}

#[test]
fn slugify_is_idempotent_on_normal_slugs() {
    let once = slugify("Fix:: the  --weird__ Title!!");
    assert_eq!(once, "fix-the-weird-title");
    assert_eq!(slugify(&once), once);
    assert_eq!(slugify("already-normal-42"), "already-normal-42");
}

#[test]
fn slugify_of_symbols_only_is_empty() {
    assert_eq!(slugify(""), "");
    assert_eq!(slugify("--- ::: ///"), "");
}

#[test]
fn slugify_drops_non_ascii_letters() {
    assert_eq!(slugify("Café Überblick"), "caf-berblick");
}

#[test]
fn missing_title_is_a_hard_failure() {
    let mut a = args("t", "s", "d");
    a.title = None;
    match ProposeChangeTool::validate(a) {
        Err(ToolError::MissingParameter(name)) => assert_eq!(name, "title"),
        _ => panic!("expected a missing parameter"),
    }
    let mut b = args("t", "s", "d");
    b.diff = None;
    match ProposeChangeTool::validate(b) {
        Err(e) => assert_eq!(e.message(), "Missing 'diff' parameter"),
        _ => panic!("expected a missing parameter"),
    }
}

#[test]
fn validated_fields_are_trimmed() {
    let p = ready(args("  Title \n", "\tsummary ", " diff "));
    assert_eq!(p.title, "Title");
    assert_eq!(p.summary, "summary");
    assert_eq!(p.diff, "diff");
}

#[test]
fn plan_at_names_file_after_time_and_slug() {
    let tool = ProposeChangeTool::new("/ws".to_string());
    let mut a = args("Add resilience attribute", "Why", "+x");
    a.files = vec!["a.md".to_string(), "b.md".to_string()];
    let p = ready(a);
    let w = tool.plan_at(&p, "2026-10-19T15:13:00.123456+00:00");
    assert_eq!(
        w.path,
        "/ws/ariadne/proposals/2026-10-19T15-13-00.123456+00-00_add-resilience-attribute.md"
    );
    assert!(w.content.starts_with("# Proposal: Add resilience attribute\n\n**Timestamp:** 2026-10-19T15:13:00.123456+00:00\n"));
    assert!(w.content.contains("## Files (informational)\n\n- a.md\n- b.md\n\n"));
    assert!(w.content.contains("```diff\n+x\n```"));
}

#[test]
fn same_name_collision_is_a_hard_failure() {
    let tool = ProposeChangeTool::new("/ws".to_string());
    let first = tool.plan_at(&ready(args("Same title", "one", "+1")), "2026-10-19T15:13:00Z");
    let second = tool.plan_at(&ready(args("same  TITLE", "two", "+2")), "2026-10-19T15:13:00Z");
    assert_eq!(first.path, second.path);
    assert!(ProposeChangeTool::finish(&first, WriteOutcome::Written).unwrap().success);
    match ProposeChangeTool::finish(&second, WriteOutcome::AlreadyExists) {
        Err(ToolError::AlreadyExists(p)) => assert_eq!(p, second.path),
        _ => panic!("expected a collision"),
    }
}

#[test]
fn write_failure_is_a_hard_failure() {
    let tool = ProposeChangeTool::new("/ws".to_string());
    let w = tool.plan_at(&ready(args("t", "s", "d")), "2026-10-19T15:13:00Z");
    match ProposeChangeTool::finish(&w, WriteOutcome::Failed("disk full".to_string())) {
        Err(e) => assert_eq!(e.message(), "I/O error: disk full"),
        _ => panic!("expected an I/O failure"),
    }
}

#[test]
fn propose_change_name() {
    let tool = ProposeChangeTool::new("/ws".to_string());
    assert_eq!(tool.name(), "propose_change");
    assert_eq!(tool.proposals_dir(), "/ws/ariadne/proposals");
}

#[test]
fn slugify_output_is_lower_case_and_stable() {
    let once = slugify("KELVIN \u{212A} Über-ALL 2026");
    assert_eq!(once, "kelvin-k-ber-all-2026");
    assert!(once.chars().all(|c| c.is_ascii_lowercase() || c.is_ascii_digit() || c == '-'));
    assert_eq!(slugify(&once), once);
}
