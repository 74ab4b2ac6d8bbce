use vstd::prelude::*;

use crate::text::{is_blank, same_text, trim, trimmed};
use crate::time::{is_rfc3339_char, utc_now_rfc3339_secs};
use crate::tool::{
    colons_escaped, disclaimer, disclaimer_text, escape_colons, is_plain_name, join_path,
    lemma_concat_no_separator, lemma_escaped_no_separator, no_separator, path_join,
    proposals_dir_in, proposals_dir_of, settle, GateDecision, ToolError, ToolResult,
    Validated, WriteMode, WriteOutcome, WritePlan,
};

verus! {

/// The parts of the agent's configuration that a proposal may target. The set is closed:
/// no other name, and no path, is accepted.
#[derive(Clone, Copy, PartialEq, Eq, Debug)]
pub enum ConfigTarget {
    CoreIdentity,
    OperationalMode,
    TaskKeywords,
}

/// The symbolic name of a target.
pub open spec fn target_name(t: ConfigTarget) -> Seq<char> {
    match t {
        ConfigTarget::CoreIdentity => "core-identity"@,
        ConfigTarget::OperationalMode => "operational-mode"@,
        ConfigTarget::TaskKeywords => "task-keywords"@,
    }
}

/// Whether `s` names one of the targets.
pub open spec fn is_known_target(s: Seq<char>) -> bool {
    exists|t: ConfigTarget| target_name(t) == s
}

impl ConfigTarget {
    pub fn name(&self) -> (r: &'static str)
        ensures
            r@ == target_name(*self),
    {
        match self {
            ConfigTarget::CoreIdentity => "core-identity",
            ConfigTarget::OperationalMode => "operational-mode",
            ConfigTarget::TaskKeywords => "task-keywords",
        }
    }

    /// The target with the given name, if there is one.
    pub fn parse(s: &str) -> (r: Option<ConfigTarget>)
        ensures
            r is Some <==> is_known_target(s@),
            r matches Some(t) ==> target_name(t) == s@,
    {
        if same_text(s, "core-identity") {
            assert(target_name(ConfigTarget::CoreIdentity) == s@);
            Some(ConfigTarget::CoreIdentity)
        } else if same_text(s, "operational-mode") {
            assert(target_name(ConfigTarget::OperationalMode) == s@);
            Some(ConfigTarget::OperationalMode)
        } else if same_text(s, "task-keywords") {
            assert(target_name(ConfigTarget::TaskKeywords) == s@);
            Some(ConfigTarget::TaskKeywords)
        } else {
            assert forall|t: ConfigTarget| target_name(t) != s@ by {
                match t {
                    ConfigTarget::CoreIdentity => {},
                    ConfigTarget::OperationalMode => {},
                    ConfigTarget::TaskKeywords => {},
                }
            }
            None
        }
    }
}

/// The soft failure for a target outside the allowed set.
pub open spec fn unknown_target_message(s: Seq<char>) -> Seq<char> {
    "unknown target '"@ + s
        + "': expected one of core-identity, operational-mode, task-keywords"@
}

/// The arguments of a call, as the orchestrator supplied them.
#[derive(Debug)]
pub struct ConfigChangeArgs {
    pub target: Option<String>,
    pub rationale: Option<String>,
    pub content: Option<String>,
}

/// A validated configuration change: rationale and content trimmed, and not empty.
#[derive(Debug)]
pub struct ConfigChange {
    pub target: ConfigTarget,
    pub rationale: String,
    pub content: String,
}

impl ConfigChange {
    pub open spec fn wf(&self) -> bool {
        &&& self.rationale@.len() > 0
        &&& self.content@.len() > 0
    }
}

/// The Markdown document of a configuration change filed at time `ts`.
pub open spec fn config_document(c: ConfigChange, ts: Seq<char>) -> Seq<char> {
    "# Configuration Change Proposal: "@ + target_name(c.target) + "\n\n**Timestamp:** "@ + ts
        + "\n**Status:** PENDING OPERATOR REVIEW\n\n## Rationale\n\n"@ + c.rationale@
        + "\n\n## Proposed Content\n\n"@ + c.content@ + "\n\n---\n"@ + disclaimer() + "\n"@
}

/// The file name of a change to `target` filed at time `ts` (to the second): the time
/// with its colons escaped, then the target's name.
pub open spec fn config_file_name(target: ConfigTarget, ts: Seq<char>) -> Seq<char> {
    colons_escaped(ts) + "-"@ + target_name(target) + ".md"@
}

/// The path of a change to `target` filed at time `ts`.
pub open spec fn config_path(workspace: Seq<char>, target: ConfigTarget, ts: Seq<char>) -> Seq<
    char,
> {
    join_path(proposals_dir_of(workspace), config_file_name(target, ts))
}

/// The success report of a configuration change filed at `path`.
pub open spec fn config_report(path: Seq<char>) -> Seq<char> {
    "Configuration change proposal written to "@ + path + " — awaiting operator review"@
}

/// The Markdown document of `c` filed at time `ts`.
pub fn config_markdown(c: &ConfigChange, ts: &str) -> (r: String)
    ensures
        r@ == config_document(*c, ts@),
{
    let mut d = String::from_str("# Configuration Change Proposal: ");
    d.append(c.target.name());
    d.append("\n\n**Timestamp:** ");
    d.append(ts);
    d.append("\n**Status:** PENDING OPERATOR REVIEW\n\n## Rationale\n\n");
    d.append(c.rationale.as_str());
    d.append("\n\n## Proposed Content\n\n");
    d.append(c.content.as_str());
    d.append("\n\n---\n");
    d.append(disclaimer_text());
    d.append("\n");
    d
}

/// Files proposed changes to one of a closed set of configuration targets, for human
/// review under `<workspace>/ariadne/proposals/`. Nothing is ever applied, and, as with
/// every proposal, a file already filed is never replaced: writes are exclusive creates.
pub struct ProposeConfigChangeTool {
    pub workspace_dir: String,
}

impl ProposeConfigChangeTool {
    /// The write that files `c` at time `ts`: named after the time and the target, and
    /// created exclusively. Like every proposal, it never replaces one already filed: a
    /// second change to the same target within the same second fails instead.
    pub open spec fn is_plan_at(&self, c: ConfigChange, ts: Seq<char>, r: WritePlan) -> bool {
        &&& r.dir@ == proposals_dir_of(self.workspace_dir@)
        &&& r.path@ == config_path(self.workspace_dir@, c.target, ts)
        &&& r.content@ == config_document(c, ts)
        &&& r.mode == WriteMode::CreateNew
    }

    pub fn new(workspace_dir: String) -> (r: Self)
        ensures
            r.workspace_dir == workspace_dir,
    {
        ProposeConfigChangeTool { workspace_dir }
    }

    pub fn name(&self) -> (r: &'static str)
        ensures
            r@ == "propose_config_change"@,
    {
        "propose_config_change"
    }

    pub fn description(&self) -> (r: &'static str)
        ensures
            r@ == "Propose a change to one of the agent's configuration layers (core-identity, operational-mode, task-keywords). The proposal is written to ariadne/proposals/ and is NEVER applied automatically — a human operator must review and apply it."@,
    {
        "Propose a change to one of the agent's configuration layers (core-identity, operational-mode, task-keywords). The proposal is written to ariadne/proposals/ and is NEVER applied automatically — a human operator must review and apply it."
    }

    pub fn proposals_dir(&self) -> (r: String)
        ensures
            r@ == proposals_dir_of(self.workspace_dir@),
    {
        proposals_dir_in(self.workspace_dir.as_str())
    }

    /// Checks the arguments in order: each required field present (else a hard failure
    /// naming it), then the target known, then rationale and content non-blank (else a
    /// soft failure that says which).
    pub fn validate(args: ConfigChangeArgs) -> (r: Result<Validated<ConfigChange>, ToolError>)
        ensures
            args.target is None ==> (r is Err && r->Err_0 is MissingParameter
                && r->Err_0->MissingParameter_0@ == "target"@),
            args.target is Some && args.rationale is None ==> (r is Err
                && r->Err_0 is MissingParameter && r->Err_0->MissingParameter_0@
                == "rationale"@),
            args.target is Some && args.rationale is Some && args.content is None ==> (r is Err
                && r->Err_0 is MissingParameter && r->Err_0->MissingParameter_0@ == "content"@),
            (args.target is Some && args.rationale is Some && args.content is Some) ==> r is Ok,
            r matches Ok(Validated::Rejected(t)) ==> !t.success && t.output@.len() == 0 && t.error is Some,
            r is Ok ==> (r->Ok_0 is Rejected <==> (!is_known_target(args.target->Some_0@)
                || is_blank(args.rationale->Some_0@) || is_blank(args.content->Some_0@))),
            r is Ok && !is_known_target(args.target->Some_0@) ==> (r->Ok_0 is Rejected
                && r->Ok_0->Rejected_0.error->Some_0@ == unknown_target_message(
                args.target->Some_0@,
            )),
            r is Ok && is_known_target(args.target->Some_0@) && is_blank(args.rationale->Some_0@)
                ==> (r->Ok_0 is Rejected && r->Ok_0->Rejected_0.error->Some_0@
                == "rationale must not be empty"@),
            r is Ok && is_known_target(args.target->Some_0@) && !is_blank(
                args.rationale->Some_0@,
            ) && is_blank(args.content->Some_0@) ==> (r->Ok_0 is Rejected
                && r->Ok_0->Rejected_0.error->Some_0@ == "content must not be empty"@),
            r matches Ok(Validated::Ready(c)) ==> {
                &&& c.wf()
                &&& target_name(c.target) == args.target->Some_0@
                &&& c.rationale@ == trimmed(args.rationale->Some_0@)
                &&& c.content@ == trimmed(args.content->Some_0@)
            },
    {
        let ConfigChangeArgs { target, rationale, content } = args;
        let target = match target {
            Some(t) => t,
            None => {
                return Err(ToolError::MissingParameter(String::from_str("target")));
            },
        };
        let rationale = match &rationale {
            Some(t) => trim(t.as_str()),
            None => {
                return Err(ToolError::MissingParameter(String::from_str("rationale")));
            },
        };
        let content = match &content {
            Some(t) => trim(t.as_str()),
            None => {
                return Err(ToolError::MissingParameter(String::from_str("content")));
            },
        };
        let known = match ConfigTarget::parse(target.as_str()) {
            Some(k) => k,
            None => {
                let mut m = String::from_str("unknown target '");
                m.append(target.as_str());
                m.append("': expected one of core-identity, operational-mode, task-keywords");
                return Ok(Validated::Rejected(ToolResult::failure(m)));
            },
        };
        if rationale.as_str().is_empty() {
            return Ok(
                Validated::Rejected(
                    ToolResult::failure(String::from_str("rationale must not be empty")),
                ),
            );
        }
        if content.as_str().is_empty() {
            return Ok(
                Validated::Rejected(
                    ToolResult::failure(String::from_str("content must not be empty")),
                ),
            );
        }
        Ok(Validated::Ready(ConfigChange { target: known, rationale, content }))
    }

    /// The write that files `c` at time `ts`. A time without path separators gives a
    /// file that stands directly in the proposals directory.
    pub fn plan_at(&self, c: &ConfigChange, ts: &str) -> (r: WritePlan)
        ensures
            self.is_plan_at(*c, ts@, r),
            no_separator(ts@) ==> is_plain_name(config_file_name(c.target, ts@)),
    {
        let dir = self.proposals_dir();
        let mut name = escape_colons(ts);
        name.append("-");
        name.append(c.target.name());
        name.append(".md");
        proof {
            if no_separator(ts@) {
                reveal_strlit("-");
                reveal_strlit(".md");
                reveal_strlit("core-identity");
                reveal_strlit("operational-mode");
                reveal_strlit("task-keywords");
                let tn = target_name(c.target);
                assert(no_separator(tn));
                lemma_escaped_no_separator(ts@);
                lemma_concat_no_separator(colons_escaped(ts@), "-"@);
                lemma_concat_no_separator(colons_escaped(ts@) + "-"@, tn);
                lemma_concat_no_separator(colons_escaped(ts@) + "-"@ + tn, ".md"@);
            }
        }
        let path = path_join(dir.as_str(), name.as_str());
        let content = config_markdown(c, ts);
        WritePlan { dir, path, content, mode: WriteMode::CreateNew }
    }

    /// Takes the security gate's answer. On a denial: a soft failure with the denial
    /// reason, and no write. On an approval: the filing of `c`
    /// at the current second.
    pub fn plan(&self, c: &ConfigChange, decision: GateDecision) -> (r: Result<
        WritePlan,
        ToolResult,
    >)
        ensures
            match decision {
                GateDecision::Deny(reason) => r matches Err(t) && !t.success && t.error == Some(
                    reason,
                ) && t.output@.len() == 0,
                GateDecision::Allow => r matches Ok(w) && (exists|ts: Seq<char>|
                    self.is_plan_at(*c, ts, w)) && exists|name: Seq<char>|
                    is_plain_name(name) && w.path@ == join_path(
                        proposals_dir_of(self.workspace_dir@),
                        name,
                    ),
            },
    {
        match decision {
            GateDecision::Deny(reason) => Err(ToolResult::failure(reason)),
            GateDecision::Allow => {
                let ts = utc_now_rfc3339_secs();
                assert(no_separator(ts@)) by {
                    assert forall|i: int| 0 <= i < ts@.len() implies #[trigger] ts@[i] != '/' by {
                        assert(is_rfc3339_char(ts@[i]));
                    }
                }
                let w = self.plan_at(c, ts.as_str());
                assert(self.is_plan_at(*c, ts@, w));
                assert(is_plain_name(config_file_name(c.target, ts@)));
                Ok(w)
            },
        }
    }

    /// The result of the call once the write of `plan` was attempted.
    pub fn finish(plan: &WritePlan, outcome: WriteOutcome) -> (r: Result<ToolResult, ToolError>)
        ensures
            match outcome {
                WriteOutcome::Written => r matches Ok(t) && t.success && t.error is None
                    && t.output@ == config_report(plan.path@),
                WriteOutcome::AlreadyExists => r matches Err(ToolError::AlreadyExists(q)) && q
                    == plan.path,
                WriteOutcome::Failed(e) => r matches Err(ToolError::Io(m)) && m == e,
            },
    {
        let mut report = String::from_str("Configuration change proposal written to ");
        report.append(plan.path.as_str());
        report.append(" — awaiting operator review");
        settle(&plan.path, outcome, report)
    }
}

} // verus!
