use vstd::prelude::*;
use vstd::utf8::encode_utf8;

use crate::text::{decimal, decimal_text, is_blank, trim, trimmed};
use crate::time::utc_now_rfc3339;
use crate::tool::{
    apply_writes, contents, join_path, lemma_appends_accumulate, path_join, settle, Files,
    GateDecision, ToolError, ToolResult, Validated, WriteMode, WriteOutcome, WritePlan,
};

verus! {

/// The directory of the memory notes, relative to the workspace.
pub open spec fn memory_subdir() -> Seq<char> {
    "ariadne/memory"@
}

/// The memory directory of a workspace.
pub open spec fn memory_dir_of(workspace: Seq<char>) -> Seq<char> {
    join_path(workspace, memory_subdir())
}

/// The one file that memory notes go to.
pub open spec fn notes_path_of(workspace: Seq<char>) -> Seq<char> {
    join_path(memory_dir_of(workspace), "notes.md"@)
}

/// The arguments of a call, as the orchestrator supplied them.
#[derive(Debug)]
pub struct MemoryArgs {
    pub text: Option<String>,
    pub tags: Vec<String>,
}

/// A validated note: its text trimmed and not empty.
#[derive(Debug)]
pub struct Note {
    pub text: String,
    pub tags: Vec<String>,
}

impl Note {
    pub open spec fn wf(&self) -> bool {
        self.text@.len() > 0
    }
}

/// The texts joined by `, `.
pub open spec fn comma_joined(items: Seq<Seq<char>>) -> Seq<char>
    decreases items.len(),
{
    if items.len() == 0 {
        seq![]
    } else if items.len() == 1 {
        items[0]
    } else {
        comma_joined(items.drop_last()) + ", "@ + items.last()
    }
}

/// The tag list as it follows the timestamp of an entry: nothing when there are no tags.
pub open spec fn tag_suffix(tags: Seq<Seq<char>>) -> Seq<char> {
    if tags.len() == 0 {
        seq![]
    } else {
        " ["@ + comma_joined(tags) + "]"@
    }
}

/// One log entry: a separator, the time and tags in bold, then the text.
pub open spec fn memory_entry(n: Note, ts: Seq<char>) -> Seq<char> {
    "\n\n---\n**"@ + ts + "**"@ + tag_suffix(n.tags@.map_values(|s: String| s@)) + "\n\n"@
        + n.text@ + "\n"@
}

/// The entries of the notes, each stamped with its time, one after another.
pub open spec fn entries(notes: Seq<Note>, stamps: Seq<Seq<char>>) -> Seq<char>
    decreases notes.len(),
{
    if notes.len() == 0 || stamps.len() == 0 {
        seq![]
    } else {
        entries(notes.drop_last(), stamps.drop_last()) + memory_entry(notes.last(), stamps.last())
    }
}

/// The success report of an entry of `size` bytes appended at `path`.
pub open spec fn memory_report(path: Seq<char>, size: nat) -> Seq<char> {
    "Note appended to "@ + path + " ("@ + decimal(size) + " bytes)"@
}

/// The tag list of an entry.
pub fn tag_text(tags: &Vec<String>) -> (r: String)
    ensures
        r@ == tag_suffix(tags@.map_values(|s: String| s@)),
{
    let ghost items = tags@.map_values(|s: String| s@);
    if tags.len() == 0 {
        return String::new();
    }
    let mut out = String::from_str(" [");
    let mut i: usize = 0;
    while i < tags.len()
        invariant
            i <= tags.len(),
            items == tags@.map_values(|s: String| s@),
            out@ == " ["@ + comma_joined(items.take(i as int)),
        decreases tags.len() - i,
    {
        if i > 0 {
            out.append(", ");
        }
        out.append(tags[i].as_str());
        proof {
            let next = items.take(i + 1);
            assert(next.drop_last() == items.take(i as int));
            assert(next.last() == tags@[i as int]@);
            if i == 0 {
                assert(items.take(0) == Seq::<Seq<char>>::empty());
                assert(" ["@ + comma_joined(items.take(0)) == " ["@);
            }
        }
        i = i + 1;
    }
    assert(items.take(tags.len() as int) == items);
    out.append("]");
    out
}

/// The entry of `n` stamped with time `ts`.
pub fn entry_text(n: &Note, ts: &str) -> (r: String)
    ensures
        r@ == memory_entry(*n, ts@),
{
    let tags = tag_text(&n.tags);
    let mut e = String::from_str("\n\n---\n**");
    e.append(ts);
    e.append("**");
    e.append(tags.as_str());
    e.append("\n\n");
    e.append(n.text.as_str());
    e.append("\n");
    e
}

/// Appends notes to the agent's persistent memory, `<workspace>/ariadne/memory/notes.md`.
/// The path is fixed: no argument can move it, and the file is only ever appended to.
pub struct WriteMemoryTool {
    pub workspace_dir: String,
}

impl WriteMemoryTool {
    /// The write that appends `n` stamped with time `ts`.
    pub open spec fn is_plan_at(&self, n: Note, ts: Seq<char>, r: WritePlan) -> bool {
        &&& r.dir@ == memory_dir_of(self.workspace_dir@)
        &&& r.path@ == notes_path_of(self.workspace_dir@)
        &&& r.content@ == memory_entry(n, ts)
        &&& r.mode == WriteMode::Append
    }

    pub fn new(workspace_dir: String) -> (r: Self)
        ensures
            r.workspace_dir == workspace_dir,
    {
        WriteMemoryTool { workspace_dir }
    }

    pub fn name(&self) -> (r: &'static str)
        ensures
            r@ == "write_memory"@,
    {
        "write_memory"
    }

    pub fn description(&self) -> (r: &'static str)
        ensures
            r@ == "Append a timestamped note to the agent's persistent memory file (ariadne/memory/notes.md). Optionally tag the note for later filtering. Each call appends — existing notes are never overwritten. Use for observations, decisions, preferences, or reminders that should persist across sessions."@,
    {
        "Append a timestamped note to the agent's persistent memory file (ariadne/memory/notes.md). Optionally tag the note for later filtering. Each call appends — existing notes are never overwritten. Use for observations, decisions, preferences, or reminders that should persist across sessions."
    }

    pub fn memory_dir(&self) -> (r: String)
        ensures
            r@ == memory_dir_of(self.workspace_dir@),
    {
        path_join(self.workspace_dir.as_str(), "ariadne/memory")
    }

    /// The path of the notes file within the workspace.
    pub fn notes_path(&self) -> (r: String)
        ensures
            r@ == notes_path_of(self.workspace_dir@),
    {
        let dir = self.memory_dir();
        path_join(dir.as_str(), "notes.md")
    }

    /// Checks the arguments: the text present (else a hard failure), then non-blank (else
    /// a soft failure).
    pub fn validate(args: MemoryArgs) -> (r: Result<Validated<Note>, ToolError>)
        ensures
            args.text is None ==> (r is Err && r->Err_0 is MissingParameter
                && r->Err_0->MissingParameter_0@ == "text"@),
            args.text is Some ==> r is Ok,
            r is Ok ==> (r->Ok_0 is Rejected <==> is_blank(args.text->Some_0@)),
            r matches Ok(Validated::Rejected(t)) ==> !t.success && t.output@.len() == 0 && t.error is Some
                && t.error->Some_0@ == "text must not be empty"@,
            r matches Ok(Validated::Ready(n)) ==> {
                &&& n.wf()
                &&& n.text@ == trimmed(args.text->Some_0@)
                &&& n.tags@ == args.tags@
            },
    {
        let MemoryArgs { text, tags } = args;
        let text = match &text {
            Some(t) => trim(t.as_str()),
            None => {
                return Err(ToolError::MissingParameter(String::from_str("text")));
            },
        };
        if text.as_str().is_empty() {
            return Ok(
                Validated::Rejected(ToolResult::failure(String::from_str("text must not be empty"))),
            );
        }
        Ok(Validated::Ready(Note { text, tags }))
    }

    /// The write that appends `n` stamped with time `ts`.
    pub fn plan_at(&self, n: &Note, ts: &str) -> (r: WritePlan)
        ensures
            self.is_plan_at(*n, ts@, r),
    {
        let dir = self.memory_dir();
        let path = path_join(dir.as_str(), "notes.md");
        let content = entry_text(n, ts);
        WritePlan { dir, path, content, mode: WriteMode::Append }
    }

    /// Takes the security gate's answer. On a denial: a soft failure with the denial
    /// reason, and no write. On an approval: the append of `n`
    /// stamped with the current time.
    pub fn plan(&self, n: &Note, decision: GateDecision) -> (r: Result<WritePlan, ToolResult>)
        ensures
            match decision {
                GateDecision::Deny(reason) => r matches Err(t) && !t.success && t.error == Some(
                    reason,
                ) && t.output@.len() == 0,
                GateDecision::Allow => r matches Ok(w) && exists|ts: Seq<char>|
                    self.is_plan_at(*n, ts, w),
            },
    {
        match decision {
            GateDecision::Deny(reason) => Err(ToolResult::failure(reason)),
            GateDecision::Allow => {
                let ts = utc_now_rfc3339();
                let w = self.plan_at(n, ts.as_str());
                assert(self.is_plan_at(*n, ts@, w));
                Ok(w)
            },
        }
    }

    /// The result of the call once the append of `plan` was attempted.
    pub fn finish(plan: &WritePlan, outcome: WriteOutcome) -> (r: Result<ToolResult, ToolError>)
        ensures
            match outcome {
                WriteOutcome::Written => r matches Ok(t) && t.success && t.error is None
                    && t.output@ == memory_report(
                    plan.path@,
                    (encode_utf8(plan.content@).len() as usize) as nat,
                ),
                WriteOutcome::AlreadyExists => r matches Err(ToolError::AlreadyExists(q)) && q
                    == plan.path,
                WriteOutcome::Failed(e) => r matches Err(ToolError::Io(m)) && m == e,
            },
    {
        let size = decimal_text(plan.content.as_str().len());
        let mut report = String::from_str("Note appended to ");
        report.append(plan.path.as_str());
        report.append(" (");
        report.append(size.as_str());
        report.append(" bytes)");
        settle(&plan.path, outcome, report)
    }
}

proof fn lemma_contents_are_entries(
    tool: WriteMemoryTool,
    notes: Seq<Note>,
    stamps: Seq<Seq<char>>,
    plans: Seq<WritePlan>,
)
    requires
        notes.len() == stamps.len(),
        plans.len() == notes.len(),
        forall|i: int| 0 <= i < plans.len() ==> tool.is_plan_at(notes[i], stamps[i], #[trigger] plans[i]),
    ensures
        contents(plans) == entries(notes, stamps),
    decreases plans.len(),
{
    if plans.len() > 0 {
        let k = plans.len() - 1;
        assert forall|i: int| 0 <= i < k implies tool.is_plan_at(
            notes.drop_last()[i],
            stamps.drop_last()[i],
            #[trigger] plans.drop_last()[i],
        ) by {
            assert(tool.is_plan_at(notes[i], stamps[i], plans[i]));
        }
        lemma_contents_are_entries(tool, notes.drop_last(), stamps.drop_last(), plans.drop_last());
        assert(tool.is_plan_at(notes[k], stamps[k], plans[k]));
    }
}

/// After a run of admitted notes, each appended in its turn, the notes file holds what it
/// held before, unchanged, followed by every entry in call order.
pub proof fn lemma_notes_accumulate(
    tool: WriteMemoryTool,
    fs: Files,
    notes: Seq<Note>,
    stamps: Seq<Seq<char>>,
    plans: Seq<WritePlan>,
)
    requires
        notes.len() == stamps.len(),
        plans.len() == notes.len(),
        forall|i: int| 0 <= i < plans.len() ==> tool.is_plan_at(notes[i], stamps[i], #[trigger] plans[i]),
    ensures
        ({
            let path = notes_path_of(tool.workspace_dir@);
            let before = if fs.contains_key(path) {
                fs[path]
            } else {
                seq![]
            };
            let after = apply_writes(fs, plans);
            &&& after.contains_key(path) <==> (fs.contains_key(path) || plans.len() > 0)
            &&& after.contains_key(path) ==> after[path] == before + entries(notes, stamps)
            &&& after.contains_key(path) ==> after[path].take(before.len() as int) == before
        }),
{
    let path = notes_path_of(tool.workspace_dir@);
    assert forall|i: int| 0 <= i < plans.len() implies (#[trigger] plans[i]).mode
        == WriteMode::Append && plans[i].path@ == path by {
        assert(tool.is_plan_at(notes[i], stamps[i], plans[i]));
    }
    lemma_appends_accumulate(fs, path, plans);
    lemma_contents_are_entries(tool, notes, stamps, plans);
    let before = if fs.contains_key(path) {
        fs[path]
    } else {
        seq![]
    };
    assert((before + entries(notes, stamps)).take(before.len() as int) == before);
}

} // verus!
