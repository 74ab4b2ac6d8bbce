use vstd::prelude::*;

verus! {

/// The soft-failure channel: what a tool call reports back to its caller.
#[derive(Debug)]
pub struct ToolResult {
    pub success: bool,
    pub output: String,
    pub error: Option<String>,
}

impl ToolResult {
    /// A failed call with the given reason.
    pub fn failure(message: String) -> (r: ToolResult)
        ensures
            !r.success,
            r.output@ == Seq::<char>::empty(),
            r.error == Some(message),
    {
        ToolResult { success: false, output: String::new(), error: Some(message) }
    }

    /// A successful call with the given report.
    pub fn done(output: String) -> (r: ToolResult)
        ensures
            r.success,
            r.output == output,
            r.error is None,
    {
        ToolResult { success: true, output, error: None }
    }
}

/// The kind of operation a tool asks the security gate for.
#[derive(Clone, Copy, PartialEq, Eq, Debug)]
pub enum ToolOperation {
    Read,
    Act,
}

/// What the security gate answered: go ahead, or no with its reason.
#[derive(Debug)]
pub enum GateDecision {
    Allow,
    Deny(String),
}

/// A hard failure: the call itself is malformed or its write could not happen.
#[derive(Debug)]
pub enum ToolError {
    /// A required parameter is absent.
    MissingParameter(String),
    /// An exclusive create found a file already at the path.
    AlreadyExists(String),
    /// The filesystem refused the write.
    Io(String),
}

impl ToolError {
    /// A one-line description of the failure.
    pub fn message(&self) -> (r: String)
        ensures
            r@ == error_message(*self),
    {
        match self {
            ToolError::MissingParameter(name) => {
                let mut m = String::from_str("Missing '");
                m.append(name.as_str());
                m.append("' parameter");
                m
            },
            ToolError::AlreadyExists(path) => {
                let mut m = String::from_str("File already exists: ");
                m.append(path.as_str());
                m
            },
            ToolError::Io(reason) => {
                let mut m = String::from_str("I/O error: ");
                m.append(reason.as_str());
                m
            },
        }
    }
}

pub open spec fn error_message(e: ToolError) -> Seq<char> {
    match e {
        ToolError::MissingParameter(name) => "Missing '"@ + name@ + "' parameter"@,
        ToolError::AlreadyExists(path) => "File already exists: "@ + path@,
        ToolError::Io(reason) => "I/O error: "@ + reason@,
    }
}

/// The outcome of validating a call's arguments: accepted, or a soft failure.
#[derive(Debug)]
pub enum Validated<T> {
    Ready(T),
    Rejected(ToolResult),
}

/// How a write treats a file already at its path.
#[derive(Clone, Copy, PartialEq, Eq, Debug)]
pub enum WriteMode {
    /// Fail if a file is there.
    CreateNew,
    /// Create the file if absent and add to its end; never truncate.
    Append,
}

/// The one filesystem side effect of an admitted call: make `dir`, then write
/// `content` at `path` (inside `dir`) in the given mode.
#[derive(Debug)]
pub struct WritePlan {
    pub dir: String,
    pub path: String,
    pub content: String,
    pub mode: WriteMode,
}

/// What happened when the write of a plan was attempted.
#[derive(Debug)]
pub enum WriteOutcome {
    Written,
    AlreadyExists,
    Failed(String),
}

/// The result of an attempted write: a success with `report`, or the hard failure that
/// the outcome calls for.
pub fn settle(path: &String, outcome: WriteOutcome, report: String) -> (r: Result<
    ToolResult,
    ToolError,
>)
    ensures
        match outcome {
            WriteOutcome::Written => r matches Ok(t) && t.success && t.error is None && t.output
                == report,
            WriteOutcome::AlreadyExists => r matches Err(ToolError::AlreadyExists(q)) && q
                == *path,
            WriteOutcome::Failed(e) => r matches Err(ToolError::Io(m)) && m == e,
        },
{
    match outcome {
        WriteOutcome::Written => Ok(ToolResult::done(report)),
        WriteOutcome::AlreadyExists => Err(ToolError::AlreadyExists(path.clone())),
        WriteOutcome::Failed(e) => Err(ToolError::Io(e)),
    }
}

/// The workspace's files, path to content.
pub type Files = Map<Seq<char>, Seq<char>>;

/// The content a write leaves at its path, or `None` when the write is refused.
pub open spec fn written(existing: Option<Seq<char>>, content: Seq<char>, mode: WriteMode) -> Option<
    Seq<char>,
> {
    match mode {
        WriteMode::CreateNew => if existing is Some {
            None
        } else {
            Some(content)
        },
        WriteMode::Append => match existing {
            Some(old) => Some(old + content),
            None => Some(content),
        },
    }
}

/// Whether the write of `p` succeeds on `fs`.
pub open spec fn write_succeeds(fs: Files, p: WritePlan) -> bool {
    written(if fs.contains_key(p.path@) { Some(fs[p.path@]) } else { None }, p.content@, p.mode) is Some
}

/// The files after the write of `p` was attempted on `fs`: unchanged when it is refused.
pub open spec fn apply_write(fs: Files, p: WritePlan) -> Files {
    match written(
        if fs.contains_key(p.path@) {
            Some(fs[p.path@])
        } else {
            None
        },
        p.content@,
        p.mode,
    ) {
        Some(c) => fs.insert(p.path@, c),
        None => fs,
    }
}

/// Two exclusive creates at one path, on a workspace where it is free: the first
/// succeeds, the second fails, and the first one's content stays as it was written.
pub proof fn lemma_exclusive_create_once(fs: Files, first: WritePlan, second: WritePlan)
    requires
        first.mode == WriteMode::CreateNew,
        second.mode == WriteMode::CreateNew,
        first.path@ == second.path@,
        !fs.contains_key(first.path@),
    ensures
        write_succeeds(fs, first),
        !write_succeeds(apply_write(fs, first), second),
        apply_write(apply_write(fs, first), second) == apply_write(fs, first),
        apply_write(apply_write(fs, first), second)[first.path@] == first.content@,
{
}

/// The files after the writes of `ps` were attempted one after another.
pub open spec fn apply_writes(fs: Files, ps: Seq<WritePlan>) -> Files
    decreases ps.len(),
{
    if ps.len() == 0 {
        fs
    } else {
        apply_write(apply_writes(fs, ps.drop_last()), ps.last())
    }
}

/// The contents of the plans, one after another.
pub open spec fn contents(ps: Seq<WritePlan>) -> Seq<char>
    decreases ps.len(),
{
    if ps.len() == 0 {
        seq![]
    } else {
        contents(ps.drop_last()) + ps.last().content@
    }
}

/// Appends to one path accumulate in order: the file ends as it began followed by every
/// appended content, so no byte written before is changed.
pub proof fn lemma_appends_accumulate(fs: Files, path: Seq<char>, ps: Seq<WritePlan>)
    requires
        forall|i: int| 0 <= i < ps.len() ==> (#[trigger] ps[i]).mode == WriteMode::Append
            && ps[i].path@ == path,
    ensures
        apply_writes(fs, ps).contains_key(path) <==> (fs.contains_key(path) || ps.len() > 0),
        apply_writes(fs, ps).contains_key(path) ==> apply_writes(fs, ps)[path] == (if fs.contains_key(
            path,
        ) {
            fs[path]
        } else {
            seq![]
        }) + contents(ps),
    decreases ps.len(),
{
    if ps.len() > 0 {
        let init = ps.drop_last();
        assert forall|i: int| 0 <= i < init.len() implies (#[trigger] init[i]).mode
            == WriteMode::Append && init[i].path@ == path by {
            assert(init[i] == ps[i]);
        }
        lemma_appends_accumulate(fs, path, init);
        let last = ps[ps.len() - 1];
        let before = apply_writes(fs, init);
        let start = if fs.contains_key(path) {
            fs[path]
        } else {
            seq![]
        };
        if before.contains_key(path) {
            assert(before[path] + last.content@ == start + contents(ps));
        } else {
            assert(init.len() == 0);
            assert(start == Seq::<char>::empty());
            assert(contents(init) == Seq::<char>::empty());
            assert(start + contents(ps) == last.content@);
        }
    }
}

/// `a` and `b` joined by a path separator.
pub open spec fn join_path(a: Seq<char>, b: Seq<char>) -> Seq<char> {
    a + "/"@ + b
}

pub fn path_join(a: &str, b: &str) -> (r: String)
    ensures
        r@ == join_path(a@, b@),
{
    let mut r = String::from_str(a);
    r.append("/");
    r.append(b);
    r
}

/// Where proposals are filed, relative to the workspace. Both proposal tools use this
/// one directory.
pub const PROPOSALS_SUBDIR: &'static str = "ariadne/proposals";

/// `PROPOSALS_SUBDIR`, as a text.
pub open spec fn proposals_subdir() -> Seq<char> {
    PROPOSALS_SUBDIR@
}

/// The proposals directory of a workspace.
pub open spec fn proposals_dir_of(workspace: Seq<char>) -> Seq<char> {
    join_path(workspace, proposals_subdir())
}

/// The proposals directory of the workspace at `workspace`.
pub fn proposals_dir_in(workspace: &str) -> (r: String)
    ensures
        r@ == proposals_dir_of(workspace@),
{
    path_join(workspace, PROPOSALS_SUBDIR)
}

/// A text with no path separator in it.
pub open spec fn no_separator(s: Seq<char>) -> bool {
    forall|i: int| 0 <= i < s.len() ==> #[trigger] s[i] != '/'
}

/// A file name that stands directly in its directory: not empty, and no separator.
pub open spec fn is_plain_name(s: Seq<char>) -> bool {
    s.len() > 0 && no_separator(s)
}

pub proof fn lemma_concat_no_separator(a: Seq<char>, b: Seq<char>)
    requires
        no_separator(a),
        no_separator(b),
    ensures
        no_separator(a + b),
{
    assert forall|i: int| 0 <= i < (a + b).len() implies #[trigger] (a + b)[i] != '/' by {
        if i < a.len() {
            assert((a + b)[i] == a[i]);
        } else {
            assert((a + b)[i] == b[i - a.len()]);
        }
    }
}

pub proof fn lemma_escaped_no_separator(s: Seq<char>)
    requires
        no_separator(s),
    ensures
        no_separator(colons_escaped(s)),
{
    assert forall|i: int| 0 <= i < colons_escaped(s).len() implies #[trigger] colons_escaped(s)[i]
        != '/' by {
        assert(s[i] != '/');
    }
}

/// `s` with every `:` replaced by `-`.
pub open spec fn colons_escaped(s: Seq<char>) -> Seq<char> {
    s.map_values(|c: char| if c == ':' { '-' } else { c })
}

pub fn escape_colons(s: &str) -> (r: String)
    ensures
        r@ == colons_escaped(s@),
{
    let v = crate::text::chars_of(s);
    let mut out: Vec<char> = Vec::new();
    let mut i: usize = 0;
    while i < v.len()
        invariant
            v@ == s@,
            i <= v.len(),
            out@ == colons_escaped(v@.take(i as int)),
        decreases v.len() - i,
    {
        let c = v[i];
        if c == ':' {
            out.push('-');
        } else {
            out.push(c);
        }
        assert(v@.take(i + 1) == v@.take(i as int).push(c));
        assert(colons_escaped(v@.take(i + 1)) == colons_escaped(v@.take(i as int)).push(
            if c == ':' {
                '-'
            } else {
                c
            },
        ));
        i = i + 1;
    }
    assert(v@.take(v.len() as int) == s@);
    crate::text::string_of(&out)
}

/// The closing line of every proposal: nothing is applied without an operator.
pub open spec fn disclaimer() -> Seq<char> {
    "*This proposal was generated by the agent and must be reviewed and manually applied by an operator. No automatic changes are made.*"@
}

pub fn disclaimer_text() -> (r: &'static str)
    ensures
        r@ == disclaimer(),
{
    "*This proposal was generated by the agent and must be reviewed and manually applied by an operator. No automatic changes are made.*"
}

} // verus!
