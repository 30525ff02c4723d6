//! The agent's system prompt, assembled from sections.
//!
//! The caller gathers what lives outside the process (workspace files, host
//! name, local time, rendered skills) into a `PromptContext`; every section's
//! text is then a function of that context.
use vstd::prelude::*;
use crate::channel::opt_string_chars;
use crate::text::{chars_of, is_whitespace, is_ws, push_char, push_str, string_of, trim, trim_bounds};

verus! {

/// A tool as the prompt lists it.
pub struct ToolInfo {
    /// The tool's name.
    pub name: String,
    /// What it does.
    pub description: String,
    /// Its parameter schema, as JSON text.
    pub parameters: String,
}

/// A workspace file read for the identity section; `None` when it is missing.
pub struct WorkspaceFile {
    /// The file name, e.g. `AGENTS.md`.
    pub name: String,
    /// Its content, if the file exists.
    pub content: Option<String>,
}

/// A bot of the team.
pub struct TeamBotEntry {
    /// Its Mattermost username.
    pub username: String,
    /// Its role.
    pub role: String,
    /// What it handles.
    pub description: String,
}

/// The bot team the agent belongs to.
pub struct TeamConfig {
    /// The human operator, if any.
    pub human_username: Option<String>,
    /// The bots.
    pub bots: Vec<TeamBotEntry>,
}

/// Everything the sections read.
pub struct PromptContext {
    /// The workspace directory.
    pub workspace_dir: String,
    /// The model's name.
    pub model_name: String,
    /// The tools offered.
    pub tools: Vec<ToolInfo>,
    /// The skills section, already rendered.
    pub skills_prompt: String,
    /// The rendered identity document, when one is configured.
    pub identity_prompt: Option<String>,
    /// The workspace files, in the order they are injected.
    pub workspace_files: Vec<WorkspaceFile>,
    /// Tool-call instructions for providers without native tools.
    pub dispatcher_instructions: String,
    /// The bot team, if configured.
    pub team_config: Option<TeamConfig>,
    /// The host name.
    pub host: String,
    /// The operating system.
    pub os: String,
    /// The local date and time, `YYYY-MM-DD HH:MM:SS`.
    pub local_time: String,
    /// The local time zone's name.
    pub time_zone: String,
}

/// Longest workspace file injected, in characters.
pub const BOOTSTRAP_MAX_CHARS: usize = 20_000;

/// A part of the system prompt.
pub trait PromptSection {
    /// The section's name.
    fn name(&self) -> &str;

    /// The section's text for a context; empty when it has nothing to say.
    fn build(&self, ctx: &PromptContext) -> String;
}

// ---- spec of each section ----

/// The tools section.
pub open spec fn tool_lines(tools: Seq<ToolInfo>) -> Seq<char>
    decreases tools.len(),
{
    if tools.len() == 0 {
        Seq::empty()
    } else {
        let t = tools.last();
        tool_lines(tools.drop_last()) + "- **"@ + t.name@ + "**: "@ + t.description@
            + "\n  Parameters: `"@ + t.parameters@ + "`\n"@
    }
}

/// The tools section's text.
pub open spec fn tools_text(tools: Seq<ToolInfo>, instructions: Seq<char>) -> Seq<char> {
    "## Tools\n\n"@ + tool_lines(tools) + if instructions.len() > 0 {
        "\n"@ + instructions
    } else {
        Seq::empty()
    }
}

/// The safety section's text.
pub open spec fn safety_text() -> Seq<char> {
    "## Safety\n\n- Do not exfiltrate private data.\n- Do not run destructive commands without asking.\n- Do not bypass oversight or approval mechanisms.\n- Prefer `trash` over `rm`.\n- When in doubt, ask before acting externally."@
}

/// The workspace section's text.
pub open spec fn workspace_text(dir: Seq<char>) -> Seq<char> {
    "## Workspace\n\nWorking directory: `"@ + dir + "`"@
}

/// The runtime section's text.
pub open spec fn runtime_text(host: Seq<char>, os: Seq<char>, model: Seq<char>) -> Seq<char> {
    "## Runtime\n\nHost: "@ + host + " | OS: "@ + os + " | Model: "@ + model
}

/// The date and time section's text.
pub open spec fn datetime_text(time: Seq<char>, zone: Seq<char>) -> Seq<char> {
    "## Current Date & Time\n\n"@ + time + " ("@ + zone + ")"@
}

/// The lines for the team's bots; bots without a username are skipped.
pub open spec fn bot_lines(bots: Seq<TeamBotEntry>) -> Seq<char>
    decreases bots.len(),
{
    if bots.len() == 0 {
        Seq::empty()
    } else {
        let b = bots.last();
        bot_lines(bots.drop_last()) + if b.username@.len() == 0 {
            Seq::empty()
        } else {
            "- **@"@ + b.username@ + "** ("@ + b.role@ + "): "@ + b.description@ + "\n"@
        }
    }
}

/// The line for the human operator, when there is one with a name.
pub open spec fn human_line(human: Option<Seq<char>>) -> Seq<char> {
    match human {
        Some(h) => if h.len() > 0 {
            "- **@"@ + h
                + "**: Human operator \u{2014} @mention when you need clarification, approval, or when the request is outside the team's scope\n"@
        } else {
            Seq::empty()
        },
        None => Seq::empty(),
    }
}

/// Heading and introduction of the team section.
pub open spec fn team_intro() -> Seq<char> {
    "## Your Team\n\nYou are part of a bot team on Mattermost. When a request falls outside your expertise or tool allowlist, @mention the appropriate teammate in the current thread rather than attempting it yourself.\n\n### Team Members\n\n"@
}

/// Closing rules of the team section.
pub open spec fn team_rules() -> Seq<char> {
    "\n### Delegation Rules\n\n- When a request falls outside your tool allowlist, @mention the appropriate team member in the current thread\n- When delegating, provide enough context for the receiving bot to act without asking follow-up questions\n- Do not attempt tasks outside your capabilities \u{2014} delegate instead"@
}

/// The team section's text: empty without a team or without bots.
pub open spec fn team_text(bots: Seq<TeamBotEntry>, human: Option<Seq<char>>) -> Seq<char> {
    if bots.len() == 0 {
        Seq::empty()
    } else {
        team_intro() + bot_lines(bots) + human_line(human) + team_rules()
    }
}

/// The block for one workspace file.
pub open spec fn file_block(name: Seq<char>, content: Option<Seq<char>>) -> Seq<char> {
    match content {
        None => "### "@ + name + "\n\n[File not found: "@ + name + "]\n\n"@,
        Some(c) => {
            let t = trim(c);
            if t.len() == 0 {
                Seq::empty()
            } else if t.len() > BOOTSTRAP_MAX_CHARS {
                "### "@ + name + "\n\n"@ + t.take(BOOTSTRAP_MAX_CHARS as int)
                    + "\n\n[... truncated at 20000 chars \u{2014} use `read` for full file]\n\n"@
            } else {
                "### "@ + name + "\n\n"@ + t + "\n\n"@
            }
        },
    }
}

/// The optional content of a workspace file.
pub open spec fn file_content(f: WorkspaceFile) -> Option<Seq<char>> {
    match f.content {
        Some(c) => Some(c@),
        None => None,
    }
}

/// The blocks of all workspace files, in order.
pub open spec fn file_blocks(files: Seq<WorkspaceFile>) -> Seq<char>
    decreases files.len(),
{
    if files.len() == 0 {
        Seq::empty()
    } else {
        file_blocks(files.drop_last()) + file_block(files.last().name@, file_content(files.last()))
    }
}

/// The identity section's text.
pub open spec fn identity_text(identity: Option<Seq<char>>, files: Seq<WorkspaceFile>) -> Seq<char> {
    "## Project Context\n\n"@ + (match identity {
        Some(p) if p.len() > 0 => p + "\n\n"@,
        _ => "The following workspace files define your identity, behavior, and context.\n\n"@,
    }) + file_blocks(files)
}

// ---- section texts ----

/// Builds the tools section.
pub fn tools_section_text(ctx: &PromptContext) -> (r: String)
    ensures
        r@ == tools_text(ctx.tools@, ctx.dispatcher_instructions@),
{
    proof {
        reveal_strlit("## Tools\n\n");
        reveal_strlit("- **");
        reveal_strlit("**: ");
        reveal_strlit("\n  Parameters: `");
        reveal_strlit("`\n");
        reveal_strlit("\n");
    }
    let mut r = String::new();
    push_str(&mut r, "## Tools\n\n");
    let ghost head = r@;
    let mut i: usize = 0;
    while i < ctx.tools.len()
        invariant
            i <= ctx.tools@.len(),
            head == "## Tools\n\n"@,
            r@ == head + tool_lines(ctx.tools@.take(i as int)),
        decreases ctx.tools.len() - i,
    {
        assert(ctx.tools@.take(i + 1).drop_last() =~= ctx.tools@.take(i as int));
        let t = &ctx.tools[i];
        push_str(&mut r, "- **");
        push_str(&mut r, t.name.as_str());
        push_str(&mut r, "**: ");
        push_str(&mut r, t.description.as_str());
        push_str(&mut r, "\n  Parameters: `");
        push_str(&mut r, t.parameters.as_str());
        push_str(&mut r, "`\n");
        assert(r@ =~= head + tool_lines(ctx.tools@.take(i + 1)));
        i = i + 1;
    }
    assert(ctx.tools@.take(ctx.tools@.len() as int) =~= ctx.tools@);
    let ghost body = r@;
    if !ctx.dispatcher_instructions.as_str().is_empty() {
        push_char(&mut r, '\n');
        push_str(&mut r, ctx.dispatcher_instructions.as_str());
        assert(r@ =~= body + "\n"@ + ctx.dispatcher_instructions@);
    }
    assert(r@ =~= tools_text(ctx.tools@, ctx.dispatcher_instructions@));
    r
}

/// Builds the safety section.
pub fn safety_section_text() -> (r: String)
    ensures
        r@ == safety_text(),
{
    let mut r = String::new();
    push_str(&mut r, "## Safety\n\n- Do not exfiltrate private data.\n- Do not run destructive commands without asking.\n- Do not bypass oversight or approval mechanisms.\n- Prefer `trash` over `rm`.\n- When in doubt, ask before acting externally.");
    r
}

/// Builds the workspace section.
pub fn workspace_section_text(ctx: &PromptContext) -> (r: String)
    ensures
        r@ == workspace_text(ctx.workspace_dir@),
{
    let mut r = String::new();
    push_str(&mut r, "## Workspace\n\nWorking directory: `");
    push_str(&mut r, ctx.workspace_dir.as_str());
    push_str(&mut r, "`");
    r
}

/// Builds the runtime section.
pub fn runtime_section_text(ctx: &PromptContext) -> (r: String)
    ensures
        r@ == runtime_text(ctx.host@, ctx.os@, ctx.model_name@),
{
    let mut r = String::new();
    push_str(&mut r, "## Runtime\n\nHost: ");
    push_str(&mut r, ctx.host.as_str());
    push_str(&mut r, " | OS: ");
    push_str(&mut r, ctx.os.as_str());
    push_str(&mut r, " | Model: ");
    push_str(&mut r, ctx.model_name.as_str());
    r
}

/// Builds the date and time section.
pub fn datetime_section_text(ctx: &PromptContext) -> (r: String)
    ensures
        r@ == datetime_text(ctx.local_time@, ctx.time_zone@),
{
    let mut r = String::new();
    push_str(&mut r, "## Current Date & Time\n\n");
    push_str(&mut r, ctx.local_time.as_str());
    push_str(&mut r, " (");
    push_str(&mut r, ctx.time_zone.as_str());
    push_str(&mut r, ")");
    r
}

/// Builds the team section; empty without a team or without bots.
pub fn team_section_text(ctx: &PromptContext) -> (r: String)
    ensures
        ctx.team_config is None ==> r@.len() == 0,
        ctx.team_config matches Some(team) ==> r@ == team_text(
            team.bots@,
            opt_string_chars(team.human_username),
        ),
{
    let mut r = String::new();
    let team = match &ctx.team_config {
        None => return r,
        Some(t) => t,
    };
    if team.bots.len() == 0 {
        return r;
    }
    push_str(&mut r, "## Your Team\n\nYou are part of a bot team on Mattermost. When a request falls outside your expertise or tool allowlist, @mention the appropriate teammate in the current thread rather than attempting it yourself.\n\n### Team Members\n\n");
    let ghost head = r@;
    proof {
        reveal_strlit("- **@");
        reveal_strlit("** (");
        reveal_strlit("): ");
        reveal_strlit("\n");
    }
    let mut i: usize = 0;
    while i < team.bots.len()
        invariant
            i <= team.bots@.len(),
            r@ == head + bot_lines(team.bots@.take(i as int)),
        decreases team.bots.len() - i,
    {
        assert(team.bots@.take(i + 1).drop_last() =~= team.bots@.take(i as int));
        let b = &team.bots[i];
        if !b.username.as_str().is_empty() {
            push_str(&mut r, "- **@");
            push_str(&mut r, b.username.as_str());
            push_str(&mut r, "** (");
            push_str(&mut r, b.role.as_str());
            push_str(&mut r, "): ");
            push_str(&mut r, b.description.as_str());
            push_str(&mut r, "\n");
        }
        assert(r@ =~= head + bot_lines(team.bots@.take(i + 1)));
        i = i + 1;
    }
    assert(team.bots@.take(team.bots@.len() as int) =~= team.bots@);
    let ghost with_bots = r@;
    if let Some(h) = &team.human_username {
        if !h.as_str().is_empty() {
            push_str(&mut r, "- **@");
            push_str(&mut r, h.as_str());
            push_str(&mut r, "**: Human operator \u{2014} @mention when you need clarification, approval, or when the request is outside the team's scope\n");
        }
    }
    let ghost with_human = r@;
    push_str(&mut r, "\n### Delegation Rules\n\n- When a request falls outside your tool allowlist, @mention the appropriate team member in the current thread\n- When delegating, provide enough context for the receiving bot to act without asking follow-up questions\n- Do not attempt tasks outside your capabilities \u{2014} delegate instead");
    proof {
        let human = opt_string_chars(team.human_username);
        assert(with_human =~= with_bots + human_line(human));
        assert(r@ =~= team_text(team.bots@, human));
    }
    r
}

fn push_file_block(r: &mut String, f: &WorkspaceFile)
    ensures
        final(r)@ == old(r)@ + file_block(f.name@, file_content(*f)),
{
    proof {
        reveal_strlit("### ");
        reveal_strlit("\n\n[File not found: ");
        reveal_strlit("]\n\n");
        reveal_strlit("\n\n");
        reveal_strlit("\n\n[... truncated at 20000 chars \u{2014} use `read` for full file]\n\n");
    }
    match &f.content {
        None => {
            push_str(r, "### ");
            push_str(r, f.name.as_str());
            push_str(r, "\n\n[File not found: ");
            push_str(r, f.name.as_str());
            push_str(r, "]\n\n");
            assert(r@ =~= old(r)@ + file_block(f.name@, file_content(*f)));
        },
        Some(c) => {
            let cs = chars_of(c.as_str());
            let (lo, hi) = trim_bounds(&cs);
            if lo == hi {
                assert(r@ =~= old(r)@ + file_block(f.name@, file_content(*f)));
                return;
            }
            push_str(r, "### ");
            push_str(r, f.name.as_str());
            push_str(r, "\n\n");
            let ghost t = cs@.subrange(lo as int, hi as int);
            if hi - lo > BOOTSTRAP_MAX_CHARS {
                let cut = string_of(&cs, lo, lo + BOOTSTRAP_MAX_CHARS);
                assert(cut@ =~= t.take(BOOTSTRAP_MAX_CHARS as int));
                push_str(r, cut.as_str());
                push_str(r, "\n\n[... truncated at 20000 chars \u{2014} use `read` for full file]\n\n");
            } else {
                let whole = string_of(&cs, lo, hi);
                push_str(r, whole.as_str());
                push_str(r, "\n\n");
            }
            assert(r@ =~= old(r)@ + file_block(f.name@, file_content(*f)));
        },
    }
}

/// Builds the identity section: the identity document if one is configured,
/// else an introduction; then each workspace file (trimmed, cut to
/// `BOOTSTRAP_MAX_CHARS` characters, or a not-found notice).
pub fn identity_section_text(ctx: &PromptContext) -> (r: String)
    ensures
        r@ == identity_text(
            opt_string_chars(ctx.identity_prompt),
            ctx.workspace_files@,
        ),
{
    proof {
        reveal_strlit("## Project Context\n\n");
        reveal_strlit("\n\n");
        reveal_strlit("The following workspace files define your identity, behavior, and context.\n\n");
    }
    let mut r = String::new();
    push_str(&mut r, "## Project Context\n\n");
    let mut has_identity = false;
    if let Some(p) = &ctx.identity_prompt {
        if !p.as_str().is_empty() {
            push_str(&mut r, p.as_str());
            push_str(&mut r, "\n\n");
            has_identity = true;
        }
    }
    if !has_identity {
        push_str(&mut r, "The following workspace files define your identity, behavior, and context.\n\n");
    }
    let ghost head = r@;
    let mut i: usize = 0;
    while i < ctx.workspace_files.len()
        invariant
            i <= ctx.workspace_files@.len(),
            r@ == head + file_blocks(ctx.workspace_files@.take(i as int)),
        decreases ctx.workspace_files.len() - i,
    {
        assert(ctx.workspace_files@.take(i + 1).drop_last() =~= ctx.workspace_files@.take(i as int));
        push_file_block(&mut r, &ctx.workspace_files[i]);
        assert(r@ =~= head + file_blocks(ctx.workspace_files@.take(i + 1)));
        i = i + 1;
    }
    assert(ctx.workspace_files@.take(ctx.workspace_files@.len() as int) =~= ctx.workspace_files@);
    assert(r@ =~= identity_text(
        opt_string_chars(ctx.identity_prompt),
        ctx.workspace_files@,
    ));
    r
}

// ---- sections ----

/// The identity section: workspace files and identity document.
pub struct IdentitySection;

/// The tools section.
pub struct ToolsSection;

/// The safety rules.
pub struct SafetySection;

/// The skills section, rendered by the caller.
pub struct SkillsSection;

/// The workspace directory.
pub struct WorkspaceSection;

/// Host, OS and model.
pub struct RuntimeSection;

/// The local date and time.
pub struct DateTimeSection;

/// The bot team and the delegation rules.
pub struct TeamSection;

impl PromptSection for IdentitySection {
    fn name(&self) -> &str {
        "identity"
    }

    fn build(&self, ctx: &PromptContext) -> String {
        identity_section_text(ctx)
    }
}

impl PromptSection for ToolsSection {
    fn name(&self) -> &str {
        "tools"
    }

    fn build(&self, ctx: &PromptContext) -> String {
        tools_section_text(ctx)
    }
}

impl PromptSection for SafetySection {
    fn name(&self) -> &str {
        "safety"
    }

    fn build(&self, ctx: &PromptContext) -> String {
        safety_section_text()
    }
}

impl PromptSection for SkillsSection {
    fn name(&self) -> &str {
        "skills"
    }

    fn build(&self, ctx: &PromptContext) -> String {
        ctx.skills_prompt.clone()
    }
}

impl PromptSection for WorkspaceSection {
    fn name(&self) -> &str {
        "workspace"
    }

    fn build(&self, ctx: &PromptContext) -> String {
        workspace_section_text(ctx)
    }
}

impl PromptSection for RuntimeSection {
    fn name(&self) -> &str {
        "runtime"
    }

    fn build(&self, ctx: &PromptContext) -> String {
        runtime_section_text(ctx)
    }
}

impl PromptSection for DateTimeSection {
    fn name(&self) -> &str {
        "datetime"
    }

    fn build(&self, ctx: &PromptContext) -> String {
        datetime_section_text(ctx)
    }
}

impl PromptSection for TeamSection {
    fn name(&self) -> &str {
        "team"
    }

    fn build(&self, ctx: &PromptContext) -> String {
        team_section_text(ctx)
    }
}

/// Injects a `## Response Policy` section: when to answer and in what tone.
pub struct ResponsePolicySection {
    policy: String,
}

impl ResponsePolicySection {
    /// A section with the given policy text.
    pub fn new(policy: &str) -> (r: Self)
        ensures
            r.policy_text() == policy@,
    {
        let mut p = String::new();
        push_str(&mut p, policy);
        ResponsePolicySection { policy: p }
    }

    /// The policy text.
    pub closed spec fn policy_text(&self) -> Seq<char> {
        self.policy@
    }

    /// The section's text: the heading, then the policy.
    pub fn text(&self) -> (r: String)
        ensures
            r@ == "## Response Policy\n\n"@ + self.policy_text(),
    {
        let mut r = String::new();
        push_str(&mut r, "## Response Policy\n\n");
        push_str(&mut r, self.policy.as_str());
        r
    }
}

impl PromptSection for ResponsePolicySection {
    fn name(&self) -> &str {
        "response_policy"
    }

    fn build(&self, ctx: &PromptContext) -> String {
        self.text()
    }
}

/// The sections a builder can hold.
pub enum Section {
    Identity(IdentitySection),
    Tools(ToolsSection),
    Safety(SafetySection),
    Skills(SkillsSection),
    Workspace(WorkspaceSection),
    DateTime(DateTimeSection),
    Runtime(RuntimeSection),
    Team(TeamSection),
    ResponsePolicy(ResponsePolicySection),
}

/// The text of a section for a context.
pub open spec fn section_text(s: Section, ctx: PromptContext) -> Seq<char> {
    match s {
        Section::Identity(_) => identity_text(
            opt_string_chars(ctx.identity_prompt),
            ctx.workspace_files@,
        ),
        Section::Tools(_) => tools_text(ctx.tools@, ctx.dispatcher_instructions@),
        Section::Safety(_) => safety_text(),
        Section::Skills(_) => ctx.skills_prompt@,
        Section::Workspace(_) => workspace_text(ctx.workspace_dir@),
        Section::DateTime(_) => datetime_text(ctx.local_time@, ctx.time_zone@),
        Section::Runtime(_) => runtime_text(ctx.host@, ctx.os@, ctx.model_name@),
        Section::Team(_) => match ctx.team_config {
            Some(team) => team_text(
                team.bots@,
                opt_string_chars(team.human_username),
            ),
            None => Seq::empty(),
        },
        Section::ResponsePolicy(p) => "## Response Policy\n\n"@ + p.policy_text(),
    }
}

impl Section {
    /// The section's text for a context.
    pub fn text(&self, ctx: &PromptContext) -> (r: String)
        ensures
            r@ == section_text(*self, *ctx),
    {
        match self {
            Section::Identity(_) => identity_section_text(ctx),
            Section::Tools(_) => tools_section_text(ctx),
            Section::Safety(_) => safety_section_text(),
            Section::Skills(_) => {
                let mut r = String::new();
                push_str(&mut r, ctx.skills_prompt.as_str());
                assert(r@ =~= ctx.skills_prompt@);
                r
            },
            Section::Workspace(_) => workspace_section_text(ctx),
            Section::DateTime(_) => datetime_section_text(ctx),
            Section::Runtime(_) => runtime_section_text(ctx),
            Section::Team(_) => team_section_text(ctx),
            Section::ResponsePolicy(p) => p.text(),
        }
    }
}

/// `s` without trailing whitespace.
pub open spec fn strip_end(s: Seq<char>) -> Seq<char>
    decreases s.len(),
{
    if s.len() > 0 && is_ws(s.last()) {
        strip_end(s.drop_last())
    } else {
        s
    }
}

/// The prompt made of the given section texts: each one that is not blank,
/// trailing whitespace removed, followed by a blank line.
pub open spec fn assembled(parts: Seq<Seq<char>>) -> Seq<char>
    decreases parts.len(),
{
    if parts.len() == 0 {
        Seq::empty()
    } else {
        let p = strip_end(parts.last());
        assembled(parts.drop_last()) + if p.len() == 0 {
            Seq::empty()
        } else {
            p + "\n\n"@
        }
    }
}

/// The texts of the sections, in order.
pub open spec fn section_texts(sections: Seq<Section>, ctx: PromptContext) -> Seq<Seq<char>> {
    sections.map_values(|s: Section| section_text(s, ctx))
}

fn strip_end_len(cs: &Vec<char>) -> (r: usize)
    ensures
        r <= cs.len(),
        cs@.take(r as int) == strip_end(cs@),
{
    let mut hi: usize = cs.len();
    assert(cs@.take(hi as int) =~= cs@);
    while hi > 0 && is_whitespace(cs[hi - 1])
        invariant
            hi <= cs.len(),
            strip_end(cs@.take(hi as int)) == strip_end(cs@),
        decreases hi,
    {
        assert(cs@.take(hi as int).drop_last() =~= cs@.take(hi - 1));
        hi = hi - 1;
    }
    hi
}

/// Assembles the system prompt from its sections.
pub struct SystemPromptBuilder {
    sections: Vec<Section>,
}

impl SystemPromptBuilder {
    /// The sections, in order.
    pub closed spec fn sections(&self) -> Seq<Section> {
        self.sections@
    }

    /// A builder with the default sections: identity, tools, safety, skills,
    /// workspace, date and time, runtime, team.
    pub fn with_defaults() -> (r: Self)
        ensures
            r.sections().len() == 8,
            r.sections()[0] is Identity,
            r.sections()[1] is Tools,
            r.sections()[2] is Safety,
            r.sections()[3] is Skills,
            r.sections()[4] is Workspace,
            r.sections()[5] is DateTime,
            r.sections()[6] is Runtime,
            r.sections()[7] is Team,
    {
        let mut v: Vec<Section> = Vec::new();
        v.push(Section::Identity(IdentitySection));
        v.push(Section::Tools(ToolsSection));
        v.push(Section::Safety(SafetySection));
        v.push(Section::Skills(SkillsSection));
        v.push(Section::Workspace(WorkspaceSection));
        v.push(Section::DateTime(DateTimeSection));
        v.push(Section::Runtime(RuntimeSection));
        v.push(Section::Team(TeamSection));
        SystemPromptBuilder { sections: v }
    }

    /// The builder with one more section at the end.
    pub fn add_section(self, section: Section) -> (r: Self)
        ensures
            r.sections() == self.sections().push(section),
    {
        let mut s = self;
        s.sections.push(section);
        s
    }

    /// The system prompt: every section's text, blank ones left out.
    pub fn build(&self, ctx: &PromptContext) -> (r: String)
        ensures
            r@ == assembled(section_texts(self.sections(), *ctx)),
    {
        let mut out = String::new();
        let mut i: usize = 0;
        while i < self.sections.len()
            invariant
                i <= self.sections@.len(),
                out@ == assembled(section_texts(self.sections@.take(i as int), *ctx)),
            decreases self.sections.len() - i,
        {
            proof {
                reveal_strlit("\n\n");
                let pre = self.sections@.take(i as int);
                let nxt = self.sections@.take(i + 1);
                assert(section_texts(nxt, *ctx).drop_last() =~= section_texts(pre, *ctx));
                assert(section_texts(nxt, *ctx).last() == section_text(self.sections@[i as int], *ctx));
            }
            let part = self.sections[i].text(ctx);
            let cs = chars_of(part.as_str());
            let n = strip_end_len(&cs);
            if n > 0 {
                let kept = string_of(&cs, 0, n);
                assert(cs@.subrange(0, n as int) =~= cs@.take(n as int));
                push_str(&mut out, kept.as_str());
                push_str(&mut out, "\n\n");
            }
            assert(out@ =~= assembled(section_texts(self.sections@.take(i + 1), *ctx)));
            i = i + 1;
        }
        assert(self.sections@.take(self.sections@.len() as int) =~= self.sections@);
        out
    }
}

} // verus!
