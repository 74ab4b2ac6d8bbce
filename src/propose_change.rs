use vstd::prelude::*;

use crate::slug::{is_normal_slug, lower_of, slug_of, slugify};
use crate::text::{is_blank, trim, trimmed};
use crate::time::{is_rfc3339_char, utc_now_rfc3339};
use crate::tool::{
    apply_write, colons_escaped, disclaimer, disclaimer_text, escape_colons, is_plain_name,
    join_path, lemma_concat_no_separator, lemma_escaped_no_separator,
    lemma_exclusive_create_once, no_separator, path_join, proposals_dir_in, proposals_dir_of,
    settle,
    write_succeeds, Files, GateDecision,
    ToolError, ToolResult, Validated, WriteMode, WriteOutcome, WritePlan,
};

verus! {

/// What stands in the document for an optional section that was not given.
pub open spec fn not_provided() -> Seq<char> {
    "_(not provided)_"@
}

/// What stands in the document for an empty file list.
pub open spec fn not_specified() -> Seq<char> {
    "_(not specified)_"@
}

/// The arguments of a call, as the orchestrator supplied them.
#[derive(Debug)]
pub struct ProposalArgs {
    pub title: Option<String>,
    pub summary: Option<String>,
    pub diff: Option<String>,
    pub files: Vec<String>,
    pub test_plan: Option<String>,
    pub risk: Option<String>,
}

/// A validated proposal: title, summary and diff trimmed, and not empty.
#[derive(Debug)]
pub struct Proposal {
    pub title: String,
    pub summary: String,
    pub diff: String,
    pub files: Vec<String>,
    pub test_plan: Option<String>,
    pub risk: Option<String>,
}

impl Proposal {
    pub open spec fn wf(&self) -> bool {
        &&& self.title@.len() > 0
        &&& self.summary@.len() > 0
        &&& self.diff@.len() > 0
    }
}

/// The views of a list of strings.
pub open spec fn texts(v: Seq<String>) -> Seq<Seq<char>> {
    v.map_values(|s: String| s@)
}

/// One `- item` line per entry, joined by newlines.
pub open spec fn bullet_lines(items: Seq<Seq<char>>) -> Seq<char>
    decreases items.len(),
{
    if items.len() == 0 {
        seq![]
    } else if items.len() == 1 {
        "- "@ + items[0]
    } else {
        bullet_lines(items.drop_last()) + "\n"@ + "- "@ + items.last()
    }
}

/// The file section of a proposal.
pub open spec fn files_section(items: Seq<Seq<char>>) -> Seq<char> {
    if items.len() == 0 {
        not_specified()
    } else {
        bullet_lines(items)
    }
}

/// An optional section's text, or the placeholder.
pub open spec fn or_not_provided(s: Option<String>) -> Seq<char> {
    match s {
        Some(t) => t@,
        None => not_provided(),
    }
}

/// The Markdown document of a proposal filed at time `ts`.
pub open spec fn proposal_document(p: Proposal, ts: Seq<char>) -> Seq<char> {
    "# Proposal: "@ + p.title@ + "\n\n**Timestamp:** "@ + ts
        + "\n**Status:** PENDING OPERATOR REVIEW\n\n## Summary\n\n"@ + p.summary@
        + "\n\n## Files (informational)\n\n"@ + files_section(texts(p.files@))
        + "\n\n## Patch (unified diff)\n\n```diff\n"@ + p.diff@ + "\n```\n\n## Test Plan\n\n"@
        + or_not_provided(p.test_plan) + "\n\n## Risk / Notes\n\n"@ + or_not_provided(p.risk)
        + "\n\n---\n"@ + disclaimer() + "\n"@
}

/// The file name of a proposal with the given title filed at time `ts`: the time with its
/// colons escaped, then the slug of the title.
pub open spec fn proposal_file_name(title: Seq<char>, ts: Seq<char>) -> Seq<char> {
    colons_escaped(ts) + "_"@ + slug_of(lower_of(title)) + ".md"@
}

/// The path of a proposal with the given title filed at time `ts`.
pub open spec fn proposal_path(workspace: Seq<char>, title: Seq<char>, ts: Seq<char>) -> Seq<char> {
    join_path(proposals_dir_of(workspace), proposal_file_name(title, ts))
}

/// The success report of a proposal filed at `path`.
pub open spec fn proposal_report(path: Seq<char>) -> Seq<char> {
    "Proposal written to "@ + path + " — awaiting operator review"@
}

/// Files proposals for human review under `<workspace>/ariadne/proposals/`. A proposal
/// is never applied and never overwrites another.
pub struct ProposeChangeTool {
    pub workspace_dir: String,
}

impl ProposeChangeTool {
    /// The write that files `p` at time `ts`.
    pub open spec fn is_plan_at(&self, p: Proposal, ts: Seq<char>, r: WritePlan) -> bool {
        &&& r.dir@ == proposals_dir_of(self.workspace_dir@)
        &&& r.path@ == proposal_path(self.workspace_dir@, p.title@, ts)
        &&& r.content@ == proposal_document(p, ts)
        &&& r.mode == WriteMode::CreateNew
    }

    pub fn new(workspace_dir: String) -> (r: Self)
        ensures
            r.workspace_dir == workspace_dir,
    {
        ProposeChangeTool { workspace_dir }
    }

    pub fn name(&self) -> (r: &'static str)
        ensures
            r@ == "propose_change"@,
    {
        "propose_change"
    }

    pub fn description(&self) -> (r: &'static str)
        ensures
            r@ == "Write a change proposal to ariadne/proposals/ for operator review. The proposal is NEVER applied automatically — a human operator must approve and apply it. Include a unified diff, rationale, test plan, and risk notes."@,
    {
        "Write a change proposal to ariadne/proposals/ for operator review. The proposal is NEVER applied automatically — a human operator must approve and apply it. Include a unified diff, rationale, test plan, and risk notes."
    }

    pub fn proposals_dir(&self) -> (r: String)
        ensures
            r@ == proposals_dir_of(self.workspace_dir@),
    {
        proposals_dir_in(self.workspace_dir.as_str())
    }

    /// Checks the arguments in order: each required field present (else a hard failure
    /// naming it), then each non-blank (else a soft failure naming it).
    pub fn validate(args: ProposalArgs) -> (r: Result<Validated<Proposal>, ToolError>)
        ensures
            args.title is None ==> (r is Err && r->Err_0 is MissingParameter
                && r->Err_0->MissingParameter_0@ == "title"@),
            args.title is Some && args.summary is None ==> (r is Err && r->Err_0 is MissingParameter
                && r->Err_0->MissingParameter_0@ == "summary"@),
            args.title is Some && args.summary is Some && args.diff is None ==> (r is Err
                && r->Err_0 is MissingParameter && r->Err_0->MissingParameter_0@ == "diff"@),
            (args.title is Some && args.summary is Some && args.diff is Some) ==> r is Ok,
            r matches Ok(Validated::Rejected(t)) ==> !t.success && t.output@.len() == 0 && t.error is Some,
            r is Ok ==> (r->Ok_0 is Rejected <==> (is_blank(args.title->Some_0@) || is_blank(
                args.summary->Some_0@,
            ) || is_blank(args.diff->Some_0@))),
            r is Ok && is_blank(args.title->Some_0@) ==> (r->Ok_0 is Rejected
                && r->Ok_0->Rejected_0.error->Some_0@ == "title must not be empty"@),
            r is Ok && !is_blank(args.title->Some_0@) && is_blank(args.summary->Some_0@) ==> (
            r->Ok_0 is Rejected && r->Ok_0->Rejected_0.error->Some_0@
                == "summary must not be empty"@),
            r is Ok && !is_blank(args.title->Some_0@) && !is_blank(args.summary->Some_0@)
                && is_blank(args.diff->Some_0@) ==> (r->Ok_0 is Rejected
                && r->Ok_0->Rejected_0.error->Some_0@ == "diff must not be empty"@),
            r matches Ok(Validated::Ready(p)) ==> {
                &&& p.wf()
                &&& p.title@ == trimmed(args.title->Some_0@)
                &&& p.summary@ == trimmed(args.summary->Some_0@)
                &&& p.diff@ == trimmed(args.diff->Some_0@)
                &&& p.files@ == args.files@
                &&& p.test_plan == args.test_plan
                &&& p.risk == args.risk
            },
    {
        let ProposalArgs { title, summary, diff, files, test_plan, risk } = args;
        let title = match &title {
            Some(t) => trim(t.as_str()),
            None => {
                return Err(ToolError::MissingParameter(String::from_str("title")));
            },
        };
        let summary = match &summary {
            Some(t) => trim(t.as_str()),
            None => {
                return Err(ToolError::MissingParameter(String::from_str("summary")));
            },
        };
        let diff = match &diff {
            Some(t) => trim(t.as_str()),
            None => {
                return Err(ToolError::MissingParameter(String::from_str("diff")));
            },
        };
        if title.as_str().is_empty() {
            return Ok(
                Validated::Rejected(
                    ToolResult::failure(String::from_str("title must not be empty")),
                ),
            );
        }
        if summary.as_str().is_empty() {
            return Ok(
                Validated::Rejected(
                    ToolResult::failure(String::from_str("summary must not be empty")),
                ),
            );
        }
        if diff.as_str().is_empty() {
            return Ok(
                Validated::Rejected(ToolResult::failure(String::from_str("diff must not be empty"))),
            );
        }
        Ok(
            Validated::Ready(
                Proposal {
                    title,
                    summary,
                    diff,
                    files,
                    test_plan,
                    risk,
                },
            ),
        )
    }
}

/// The file section of a proposal, in Markdown.
pub fn files_markdown(files: &Vec<String>) -> (r: String)
    ensures
        r@ == files_section(texts(files@)),
{
    if files.len() == 0 {
        return String::from_str("_(not specified)_");
    }
    let ghost items = texts(files@);
    let mut out = String::new();
    let mut i: usize = 0;
    while i < files.len()
        invariant
            i <= files.len(),
            items == texts(files@),
            out@ == bullet_lines(items.take(i as int)),
        decreases files.len() - i,
    {
        if i > 0 {
            out.append("\n");
        }
        out.append("- ");
        out.append(files[i].as_str());
        proof {
            let next = items.take(i + 1);
            assert(next.drop_last() == items.take(i as int));
            assert(next.last() == files@[i as int]@);
            if i == 0 {
                assert(out@ == "- "@ + next[0]);
            }
        }
        i = i + 1;
    }
    assert(items.take(files.len() as int) == items);
    out
}

/// The Markdown document of `p` filed at time `ts`.
pub fn proposal_markdown(p: &Proposal, ts: &str) -> (r: String)
    ensures
        r@ == proposal_document(*p, ts@),
{
    let files_md = files_markdown(&p.files);
    let mut d = String::from_str("# Proposal: ");
    d.append(p.title.as_str());
    d.append("\n\n**Timestamp:** ");
    d.append(ts);
    d.append("\n**Status:** PENDING OPERATOR REVIEW\n\n## Summary\n\n");
    d.append(p.summary.as_str());
    d.append("\n\n## Files (informational)\n\n");
    d.append(files_md.as_str());
    d.append("\n\n## Patch (unified diff)\n\n```diff\n");
    d.append(p.diff.as_str());
    d.append("\n```\n\n## Test Plan\n\n");
    match &p.test_plan {
        Some(t) => d.append(t.as_str()),
        None => d.append("_(not provided)_"),
    }
    d.append("\n\n## Risk / Notes\n\n");
    match &p.risk {
        Some(t) => d.append(t.as_str()),
        None => d.append("_(not provided)_"),
    }
    d.append("\n\n---\n");
    d.append(disclaimer_text());
    d.append("\n");
    d
}

impl ProposeChangeTool {
    /// The write that files `p` at time `ts`: an exclusive create under the proposals
    /// directory, named after the time and the title's slug. A time without path
    /// separators gives a file that stands directly in that directory.
    pub fn plan_at(&self, p: &Proposal, ts: &str) -> (r: WritePlan)
        ensures
            self.is_plan_at(*p, ts@, r),
            no_separator(ts@) ==> is_plain_name(proposal_file_name(p.title@, ts@)),
    {
        let dir = self.proposals_dir();
        let mut name = escape_colons(ts);
        name.append("_");
        let slug = slugify(p.title.as_str());
        name.append(slug.as_str());
        name.append(".md");
        proof {
            if no_separator(ts@) {
                reveal_strlit("_");
                reveal_strlit(".md");
                assert(is_normal_slug(slug@));
                assert(no_separator(slug@));
                lemma_escaped_no_separator(ts@);
                lemma_concat_no_separator(colons_escaped(ts@), "_"@);
                lemma_concat_no_separator(colons_escaped(ts@) + "_"@, slug@);
                lemma_concat_no_separator(colons_escaped(ts@) + "_"@ + slug@, ".md"@);
            }
        }
        let path = path_join(dir.as_str(), name.as_str());
        let content = proposal_markdown(p, ts);
        WritePlan { dir, path, content, mode: WriteMode::CreateNew }
    }

    /// Takes the security gate's answer. On a denial: a soft failure with the denial
    /// reason, and no write. On an approval: the filing of `p`
    /// at the current time.
    pub fn plan(&self, p: &Proposal, decision: GateDecision) -> (r: Result<WritePlan, ToolResult>)
        ensures
            match decision {
                GateDecision::Deny(reason) => r matches Err(t) && !t.success && t.error == Some(
                    reason,
                ) && t.output@.len() == 0,
                GateDecision::Allow => r matches Ok(w) && (exists|ts: Seq<char>|
                    self.is_plan_at(*p, ts, w)) && exists|name: Seq<char>|
                    is_plain_name(name) && w.path@ == join_path(
                        proposals_dir_of(self.workspace_dir@),
                        name,
                    ),
            },
    {
        match decision {
            GateDecision::Deny(reason) => Err(ToolResult::failure(reason)),
            GateDecision::Allow => {
                let ts = utc_now_rfc3339();
                assert(no_separator(ts@)) by {
                    assert forall|i: int| 0 <= i < ts@.len() implies #[trigger] ts@[i] != '/' by {
                        assert(is_rfc3339_char(ts@[i]));
                    }
                }
                let w = self.plan_at(p, ts.as_str());
                assert(self.is_plan_at(*p, ts@, w));
                assert(is_plain_name(proposal_file_name(p.title@, ts@)));
                Ok(w)
            },
        }
    }

    /// The result of the call once the write of `plan` was attempted; a file already at
    /// the path is a hard failure.
    pub fn finish(plan: &WritePlan, outcome: WriteOutcome) -> (r: Result<ToolResult, ToolError>)
        ensures
            match outcome {
                WriteOutcome::Written => r matches Ok(t) && t.success && t.error is None
                    && t.output@ == proposal_report(plan.path@),
                WriteOutcome::AlreadyExists => r matches Err(ToolError::AlreadyExists(q)) && q
                    == plan.path,
                WriteOutcome::Failed(e) => r matches Err(ToolError::Io(m)) && m == e,
            },
    {
        let mut report = String::from_str("Proposal written to ");
        report.append(plan.path.as_str());
        report.append(" — awaiting operator review");
        settle(&plan.path, outcome, report)
    }
}

/// Two proposals that come to the same path, filed one after the other where that path
/// was free: the first is written, the second is refused, and the first one's document
/// stays as it was.
pub proof fn lemma_colliding_proposals(
    tool: ProposeChangeTool,
    fs: Files,
    p1: Proposal,
    ts1: Seq<char>,
    first: WritePlan,
    p2: Proposal,
    ts2: Seq<char>,
    second: WritePlan,
)
    requires
        tool.is_plan_at(p1, ts1, first),
        tool.is_plan_at(p2, ts2, second),
        first.path@ == second.path@,
        !fs.contains_key(first.path@),
    ensures
        write_succeeds(fs, first),
        !write_succeeds(apply_write(fs, first), second),
        apply_write(apply_write(fs, first), second)[first.path@] == proposal_document(p1, ts1),
{
    lemma_exclusive_create_once(fs, first, second);
}

} // verus!
