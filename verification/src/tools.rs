//! The tools that a model may call: what each call asks for, and what its outcome says.

use vstd::prelude::*;

use crate::config;
use crate::json;
use crate::json::{Json, JsonView};
use crate::text;

verus! {

/// The tools of every agent.
pub const BASE_TOOLS: [&'static str; 5] = [
    "read_file",
    "write_file",
    "list_dir",
    "patch_file",
    "run_command",
];

/// The tools of the root of a team.
pub const MAESTRO_TOOLS: [&'static str; 4] = [
    "list_agents",
    "read_agent",
    "create_agent",
    "ask_agent",
];

/// The tools that run only with the user's permission.
pub const TOOLS_REQUIRING_PERMISSION: [&'static str; 1] = ["fetch_url"];

/// The longest result of a tool, in bytes.
pub const MAX_RESULT_CHARS: usize = 24_000;

/// The tools as the model is told of them.
pub const TOOLS_JSON: &'static str = r#"[
  {
    "type": "function",
    "function": {
      "name": "read_file",
      "description": "Read a text file from disk. Use offset/limit to read a slice of long files.",
      "parameters": {
        "type": "object",
        "properties": {
          "path": { "type": "string", "description": "absolute or relative file path" },
          "offset": { "type": "integer", "description": "line number to start from (0-based)" },
          "limit": { "type": "integer", "description": "max number of lines to read" }
        },
        "required": ["path"]
      }
    }
  },
  {
    "type": "function",
    "function": {
      "name": "write_file",
      "description": "Create or overwrite a text file with the given content.",
      "parameters": {
        "type": "object",
        "properties": {
          "path": { "type": "string", "description": "absolute or relative file path" },
          "content": { "type": "string", "description": "full new file content" }
        },
        "required": ["path", "content"]
      }
    }
  },
  {
    "type": "function",
    "function": {
      "name": "list_dir",
      "description": "List directory entries with sizes and kind.",
      "parameters": {
        "type": "object",
        "properties": {
          "path": { "type": "string", "description": "directory path (default '.')" }
        }
      }
    }
  },
  {
    "type": "function",
    "function": {
      "name": "patch_file",
      "description": "Replace a target block of text in a file with a new block of text.",
      "parameters": {
        "type": "object",
        "properties": {
          "path": { "type": "string", "description": "relative or absolute path to the file" },
          "old_str": { "type": "string", "description": "exact block of text to be replaced" },
          "new_str": { "type": "string", "description": "new block of text to insert in place of old_str" }
        },
        "required": ["path", "old_str", "new_str"]
      }
    }
  },
  {
    "type": "function",
    "function": {
      "name": "run_command",
      "description": "Run a shell command (bash -lc) in the project directory. Returns stdout+stderr. Capable of running build tools, git, ls, grep, etc.",
      "parameters": {
        "type": "object",
        "properties": {
          "command": { "type": "string", "description": "the shell command to execute" },
          "timeout_ms": { "type": "integer", "description": "timeout in milliseconds (default 60000)" }
        },
        "required": ["command"]
      }
    }
  },
  {
    "type": "function",
    "function": {
      "name": "fetch_url",
      "description": "Fetch the raw text content of a URL via HTTP GET. Requires explicit permission from the user before it runs (a confirmation prompt is shown). Only http/https URLs are allowed and only text-like responses (text/*, json, xml, javascript) are returned, truncated if large. IMPORTANT for GitHub files: always use the raw content URL in the exact format https://raw.githubusercontent.com/<owner>/<repo>/<branch>/<path-to-file> — NEVER the rendered 'colorful' page at github.com/<owner>/<repo>/blob/<branch>/<path-to-file> (a github.com/blob URL is auto-converted, but pass raw directly when you can). BRANCH NAME WARNING: GitHub repos use either 'main' or 'master' as the default branch and there is NO way to know which one without checking — do not assume 'main' just because it is more common today, many repos still use 'master'. You do not need to get this right on the first try: if the branch guessed in the URL is wrong, this tool automatically detects the 404 and retries with the repository's real default branch, so just pick one ('main' is a reasonable first guess) and let the tool self-correct.",
      "parameters": {
        "type": "object",
        "properties": {
          "url": { "type": "string", "description": "http(s) URL to fetch; prefer raw/plain-text endpoints (e.g. raw.githubusercontent.com for GitHub files)" },
          "timeout_ms": { "type": "integer", "description": "timeout in milliseconds (default 15000)" }
        },
        "required": ["url"]
      }
    }
  },
  {
    "type": "function",
    "function": {
      "name": "list_agents",
      "description": "List the available subagents (files drill.<nome>.agent.json found in ~/.drill/agents and the project dir). Returns name, description, tools and temperature of each.",
      "parameters": {
        "type": "object",
        "properties": {}
      }
    }
  },
  {
    "type": "function",
    "function": {
      "name": "read_agent",
      "description": "Read the full definition (JSON file) of one subagent by name.",
      "parameters": {
        "type": "object",
        "properties": {
          "name": { "type": "string", "description": "subagent name (e.g. lucy)" }
        },
        "required": ["name"]
      }
    }
  },
  {
    "type": "function",
    "function": {
      "name": "create_agent",
      "description": "Create a new subagent and save it as ~/.drill/agents/drill.<name>.agent.json. Only 'name' is required; persona is optional and auto-generated from name+description when omitted.",
      "parameters": {
        "type": "object",
        "properties": {
          "name": { "type": "string", "description": "unique agent name, alphanumeric plus _ - ." },
          "description": { "type": "string", "description": "what this agent is specialized in" },
          "persona": { "type": "string", "description": "system prompt/persona of the subagent (optional)" },
          "temp": { "type": "number", "description": "sampling temperature (default 0.6)" },
          "max_tool_rounds": { "type": "integer", "description": "max tool rounds (default 4)" },
          "allowed_tools": { "type": "array", "items": { "type": "string" }, "description": "tools this agent may use" }
        },
        "required": ["name"]
      }
    }
  },
  {
    "type": "function",
    "function": {
      "name": "ask_agent",
      "description": "Delegate a task to a subagent by name. Runs the subagent on the same model with its own persona and conversation history, then returns its reply.",
      "parameters": {
        "type": "object",
        "properties": {
          "name": { "type": "string", "description": "subagent name" },
          "prompt": { "type": "string", "description": "task/prompt to send to the subagent" }
        },
        "required": ["name", "prompt"]
      }
    }
  }
]"#;

/// A name is that of a tool of the root of a team.
pub open spec fn maestro_tool(name: Seq<char>) -> bool {
    ||| name == "list_agents"@
    ||| name == "read_agent"@
    ||| name == "create_agent"@
    ||| name == "ask_agent"@
}

/// Whether a name is that of a tool of the root of a team.
pub fn is_maestro_tool(name: &str) -> (r: bool)
    ensures
        r == maestro_tool(name@),
{
    let mut i: usize = 0;
    while i < MAESTRO_TOOLS.len()
        invariant
            i <= 4,
            forall|k: int| 0 <= k < i ==> name@ != MAESTRO_TOOLS@[k]@,
        decreases 4 - i,
    {
        if text::same(name, MAESTRO_TOOLS[i]) {
            return true;
        }
        i = i + 1;
    }
    assert(MAESTRO_TOOLS@[0]@ == "list_agents"@);
    assert(MAESTRO_TOOLS@[1]@ == "read_agent"@);
    assert(MAESTRO_TOOLS@[2]@ == "create_agent"@);
    assert(MAESTRO_TOOLS@[3]@ == "ask_agent"@);
    false
}

/// A call of a tool.
#[derive(Debug, PartialEq)]
pub struct ToolCall {
    pub name: String,
    pub call_id: String,
    pub args: Json,
}

/// The arguments of a call, taken out of the envelope in which some models wrap them: an object
/// that names the tool and holds the arguments in a member.
pub open spec fn unwrapped(args: JsonView) -> JsonView {
    let inner = args.field("arguments"@) is Some || args.field("args"@) is Some || args.field(
        "parameters"@,
    ) is Some;
    let named = args.field("name"@) is Some || args.field("tool"@) is Some || args.field(
        "tool_name"@,
    ) is Some;
    if inner && named {
        match args.field("arguments"@) {
            Some(v) if v is Object => v,
            _ => match args.field("args"@) {
                Some(v) if v is Object => v,
                _ => match args.field("parameters"@) {
                    Some(v) if v is Object => v,
                    _ => args,
                },
            },
        }
    } else {
        args
    }
}

fn is_object(v: &Json) -> (r: bool)
    ensures
        r == (v@ is Object),
{
    match v {
        Json::Object(_) => true,
        _ => false,
    }
}

/// Takes the arguments of a call out of their envelope.
pub fn unwrap_value(args: &Json) -> (r: &Json)
    ensures
        r@ == unwrapped(args@),
{
    let inner = args.get("arguments").is_some() || args.get("args").is_some() || args.get(
        "parameters",
    ).is_some();
    let named = args.get("name").is_some() || args.get("tool").is_some() || args.get(
        "tool_name",
    ).is_some();
    if inner && named {
        match args.get("arguments") {
            Some(v) => if is_object(v) {
                return v;
            },
            None => {},
        }
        match args.get("args") {
            Some(v) => if is_object(v) {
                return v;
            },
            None => {},
        }
        match args.get("parameters") {
            Some(v) => if is_object(v) {
                return v;
            },
            None => {},
        }
    }
    args
}

/// The text argument of a call. A path may also be called `file_path`.
pub open spec fn text_arg(args: JsonView, key: Seq<char>) -> Option<Seq<char>> {
    let root = unwrapped(args);
    match root.field(key) {
        Some(v) => v.as_text(),
        None => if key == "path"@ {
            root.text_field("file_path"@)
        } else {
            None
        },
    }
}

/// The integer argument of a call.
pub open spec fn int_arg(args: JsonView, key: Seq<char>) -> Option<int> {
    unwrapped(args).int_field(key)
}

/// Reads a text argument of a call.
pub fn arg_str(call: &ToolCall, key: &str) -> (r: Option<String>)
    ensures
        text::opt_view(r) == text_arg(call.args@, key@),
{
    let root = unwrap_value(&call.args);
    let found = match root.get(key) {
        Some(v) => v.as_text(),
        None => if text::same(key, "path") {
            root.text_field("file_path")
        } else {
            None
        },
    };
    match found {
        Some(t) => Some(t.to_string()),
        None => None,
    }
}

/// Reads an integer argument of a call.
pub fn arg_i64(call: &ToolCall, key: &str) -> (r: Option<i64>)
    ensures
        match r {
            Some(n) => int_arg(call.args@, key@) == Some(n as int),
            None => int_arg(call.args@, key@) is None,
        },
{
    unwrap_value(&call.args).int_field(key)
}

/// A path as the project sees it: an absolute one as it is, any other below the project.
pub open spec fn resolved(path: Seq<char>, project_dir: Seq<char>) -> Seq<char> {
    if text::has_prefix(path, "/"@) {
        path
    } else {
        config::path_below(project_dir, path)
    }
}

/// Resolves a path against the project.
pub fn resolve(path: &str, project_dir: &str) -> (r: String)
    ensures
        r@ == resolved(path@, project_dir@),
{
    if text::starts_with(path, "/") {
        path.to_string()
    } else {
        config::join_path(project_dir, path)
    }
}

/// The bytes of a text in UTF-8.
pub open spec fn bytes(s: Seq<char>) -> Seq<u8> {
    vstd::utf8::encode_utf8(s)
}

/// A text may be cut at `max` bytes: it is no longer, or a character ends there.
pub open spec fn can_cut(s: Seq<char>, max: nat) -> bool {
    bytes(s).len() <= max || vstd::utf8::is_char_boundary(bytes(s), max as int)
}

/// A text cut at `max` bytes, with a note of what was left out; a shorter one as it is.
pub open spec fn cut(s: Seq<char>, max: nat) -> Seq<char> {
    if bytes(s).len() <= max {
        s
    } else {
        vstd::utf8::decode_utf8(bytes(s).subrange(0, max as int)) + "...[TRUNCATED "@
            + text::decimal((bytes(s).len() - max) as nat) + " chars omitted]"@
    }
}

/// The length of a text in bytes.
pub fn byte_len(s: &str) -> (r: usize)
    ensures
        r == bytes(s@).len(),
{
    s.as_bytes().len()
}

/// Whether a text may be cut at `max` bytes.
pub fn fits_cut(s: &str, max: usize) -> (r: bool)
    ensures
        r == can_cut(s@, max as nat),
{
    byte_len(s) <= max || s.is_char_boundary(max)
}

/// Cuts a text at `max` bytes and notes what was left out.
pub fn truncate_at(s: String, max: usize) -> (r: String)
    requires
        can_cut(s@, max as nat),
    ensures
        r@ == cut(s@, max as nat),
{
    let n = byte_len(s.as_str());
    if n <= max {
        return s;
    }
    let (head, _tail) = s.as_str().split_at(max);
    proof {
        vstd::utf8::encode_utf8_decode_utf8(head@);
    }
    let omitted = text::write_usize(n - max);
    text::cat4(head, "...[TRUNCATED ", omitted.as_str(), " chars omitted]")
}

/// Cuts the result of a tool to the longest that is handed on.
pub fn truncate(s: String) -> (r: String)
    requires
        can_cut(s@, MAX_RESULT_CHARS as nat),
    ensures
        r@ == cut(s@, MAX_RESULT_CHARS as nat),
{
    truncate_at(s, MAX_RESULT_CHARS)
}

/// A request for the user's permission.
#[derive(Debug, PartialEq)]
pub struct PermissionRequest {
    pub tool: String,
    pub detail: String,
}

/// The model of a request for permission.
#[verifier::ext_equal]
pub struct PermissionView {
    pub tool: Seq<char>,
    pub detail: Seq<char>,
}

impl View for PermissionRequest {
    type V = PermissionView;

    open spec fn view(&self) -> PermissionView {
        PermissionView { tool: self.tool@, detail: self.detail@ }
    }
}

/// The place at which permission is asked: it works once someone listens there.
#[derive(Debug, Clone, Copy, PartialEq, Eq, Structural)]
pub struct PermissionDesk {
    pub installed: bool,
}

/// Opens the place at which permission is asked; says whether it was closed before, so that the
/// requests come to this caller.
pub fn install_permission_channel(desk: &mut PermissionDesk) -> (r: bool)
    ensures
        final(desk).installed,
        r == !old(desk).installed,
{
    let first = !desk.installed;
    desk.installed = true;
    first
}

/// The request to hand to whoever listens; none where nobody does, which is a refusal.
pub fn ask_permission(desk: &PermissionDesk, tool: &str, detail: &str) -> (r: Option<
    PermissionRequest,
>)
    ensures
        match r {
            Some(q) => desk.installed && q.tool@ == tool@ && q.detail@ == detail@,
            None => !desk.installed,
        },
{
    if desk.installed {
        Some(PermissionRequest { tool: tool.to_string(), detail: detail.to_string() })
    } else {
        None
    }
}

/// Whether permission was given: someone listens, the request was handed over and the answer was
/// yes. Without any of these it was not.
pub fn permission_given(desk: &PermissionDesk, delivered: bool, reply: Option<bool>) -> (r: bool)
    ensures
        r == (desk.installed && delivered && reply == Some(true)),
{
    match reply {
        Some(yes) => desk.installed && delivered && yes,
        None => false,
    }
}

/// A tool runs only with the user's permission.
pub open spec fn needs_permission(name: Seq<char>) -> bool {
    name == "fetch_url"@
}

/// What the user is asked about a call: the address, or all arguments where it has none.
pub open spec fn permission_detail(args: JsonView) -> Seq<char> {
    match text_arg(args, "url"@) {
        Some(u) => u,
        None => json::compact_json(args),
    }
}

/// What to ask the user before a call runs; none for tools that run without asking.
pub fn permission_needed(call: &ToolCall) -> (r: Option<String>)
    ensures
        text::opt_view(r) == if needs_permission(call.name@) {
            Some(permission_detail(call.args@))
        } else {
            None
        },
{
    let mut needed = false;
    let mut i: usize = 0;
    while i < TOOLS_REQUIRING_PERMISSION.len()
        invariant
            i <= 1,
            needed == (i == 1 && call.name@ == "fetch_url"@),
            TOOLS_REQUIRING_PERMISSION@[0]@ == "fetch_url"@,
        decreases 1 - i,
    {
        if text::same(call.name.as_str(), TOOLS_REQUIRING_PERMISSION[i]) {
            needed = true;
        }
        i = i + 1;
    }
    if !needed {
        return None;
    }
    match arg_str(call, "url") {
        Some(u) => Some(u),
        None => Some(json::write(&call.args)),
    }
}

/// What the model is told where the user refused.
pub open spec fn denial(name: Seq<char>, detail: Seq<char>) -> Seq<char> {
    "ERROR: acesso negado pelo usuario para '"@ + name + "' ("@ + detail + ")"@
}

/// Words the refusal of a call.
pub fn denied(name: &str, detail: &str) -> (r: String)
    ensures
        r@ == denial(name@, detail@),
{
    text::cat5("ERROR: acesso negado pelo usuario para '", name, "' (", detail, ")")
}

/// What a call asks for.
#[derive(Debug, PartialEq)]
pub enum ToolPlan {
    ReadFile { path: String, full: String, offset: u64, limit: Option<u64> },
    WriteFile { full: String, content: String },
    ListDir { full: String },
    PatchFile { path: String, full: String, old_str: String, new_str: String },
    RunCommand { command: String, timeout_ms: u64 },
    FetchUrl { url: String, note: String, timeout_ms: u64 },
}

/// The model of what a call asks for.
#[verifier::ext_equal]
pub enum PlanView {
    ReadFile { path: Seq<char>, full: Seq<char>, offset: nat, limit: Option<nat> },
    WriteFile { full: Seq<char>, content: Seq<char> },
    ListDir { full: Seq<char> },
    PatchFile { path: Seq<char>, full: Seq<char>, old_str: Seq<char>, new_str: Seq<char> },
    RunCommand { command: Seq<char>, timeout_ms: nat },
    FetchUrl { url: Seq<char>, note: Seq<char>, timeout_ms: nat },
}

impl View for ToolPlan {
    type V = PlanView;

    open spec fn view(&self) -> PlanView {
        match self {
            ToolPlan::ReadFile { path, full, offset, limit } => PlanView::ReadFile {
                path: path@,
                full: full@,
                offset: *offset as nat,
                limit: match limit {
                    Some(n) => Some(*n as nat),
                    None => None,
                },
            },
            ToolPlan::WriteFile { full, content } => PlanView::WriteFile {
                full: full@,
                content: content@,
            },
            ToolPlan::ListDir { full } => PlanView::ListDir { full: full@ },
            ToolPlan::PatchFile { path, full, old_str, new_str } => PlanView::PatchFile {
                path: path@,
                full: full@,
                old_str: old_str@,
                new_str: new_str@,
            },
            ToolPlan::RunCommand { command, timeout_ms } => PlanView::RunCommand {
                command: command@,
                timeout_ms: *timeout_ms as nat,
            },
            ToolPlan::FetchUrl { url, note, timeout_ms } => PlanView::FetchUrl {
                url: url@,
                note: note@,
                timeout_ms: *timeout_ms as nat,
            },
        }
    }
}

/// A number kept between two bounds.
pub open spec fn clamped(n: int, lo: int, hi: int) -> int {
    if n < lo {
        lo
    } else if n > hi {
        hi
    } else {
        n
    }
}

/// The time that a call may take, kept between one second and the longest allowed.
pub open spec fn timeout_of(args: JsonView, default: int, hi: int) -> nat {
    clamped(
        match int_arg(args, "timeout_ms"@) {
            Some(n) => n,
            None => default,
        },
        1_000,
        hi,
    ) as nat
}

/// An integer that counts something: negative ones are zero.
pub open spec fn count_of(n: int) -> nat {
    if n < 0 {
        0
    } else {
        n as nat
    }
}

/// The address of the plain text behind a page that shows a file of a GitHub repository; any
/// other address as it is.
pub open spec fn raw_github(url: Seq<char>) -> Seq<char> {
    let rest = match text::after_prefix(url, "https://github.com/"@) {
        Some(r) => Some(r),
        None => text::after_prefix(url, "http://github.com/"@),
    };
    match rest {
        None => url,
        Some(r) => {
            let p = text::first_parts(r, '/', 5);
            if p.len() == 5 && p[2] == "blob"@ {
                raw_url(p[0], p[1], p[3], p[4])
            } else {
                url
            }
        },
    }
}

/// The address of a file of a GitHub repository as plain text.
pub open spec fn raw_url(
    owner: Seq<char>,
    repo: Seq<char>,
    branch: Seq<char>,
    path: Seq<char>,
) -> Seq<char> {
    "https://raw.githubusercontent.com/"@ + owner + "/"@ + repo + "/"@ + branch + "/"@ + path
}

fn make_raw_url(owner: &str, repo: &str, branch: &str, path: &str) -> (r: String)
    ensures
        r@ == raw_url(owner@, repo@, branch@, path@),
{
    let mut out = text::cat5("https://raw.githubusercontent.com/", owner, "/", repo, "/");
    out.append(branch);
    out.append("/");
    out.append(path);
    out
}

/// Turns the address of a page that shows a GitHub file into that of its plain text.
pub fn normalize_github_url(url: &str) -> (r: String)
    ensures
        r@ == raw_github(url@),
{
    let rest = match text::strip_prefix(url, "https://github.com/") {
        Some(r) => Some(r),
        None => text::strip_prefix(url, "http://github.com/"),
    };
    match rest {
        None => url.to_string(),
        Some(rest) => {
            let p = text::splitn(rest.as_str(), '/', 5);
            assert(text::views(p@).len() == p@.len());
            if p.len() == 5 && text::same(p[2].as_str(), "blob") {
                make_raw_url(p[0].as_str(), p[1].as_str(), p[3].as_str(), p[4].as_str())
            } else {
                url.to_string()
            }
        },
    }
}

/// The owner, the repository, the branch and the path in the address of a GitHub file as plain
/// text.
pub open spec fn raw_github_parts(url: Seq<char>) -> Option<
    (Seq<char>, Seq<char>, Seq<char>, Seq<char>),
> {
    let rest = match text::after_prefix(url, "https://raw.githubusercontent.com/"@) {
        Some(r) => Some(r),
        None => text::after_prefix(url, "http://raw.githubusercontent.com/"@),
    };
    match rest {
        None => None,
        Some(r) => {
            let p = text::first_parts(r, '/', 4);
            if p.len() == 4 {
                Some((p[0], p[1], p[2], p[3]))
            } else {
                None
            }
        },
    }
}

/// Splits the address of a GitHub file as plain text.
pub fn parse_raw_github_url(url: &str) -> (r: Option<(String, String, String, String)>)
    ensures
        match r {
            Some(p) => raw_github_parts(url@) == Some((p.0@, p.1@, p.2@, p.3@)),
            None => raw_github_parts(url@) is None,
        },
{
    let rest = match text::strip_prefix(url, "https://raw.githubusercontent.com/") {
        Some(r) => Some(r),
        None => text::strip_prefix(url, "http://raw.githubusercontent.com/"),
    };
    match rest {
        None => None,
        Some(rest) => {
            let p = text::splitn(rest.as_str(), '/', 4);
            assert(text::views(p@).len() == p@.len());
            if p.len() == 4 {
                Some((p[0].clone(), p[1].clone(), p[2].clone(), p[3].clone()))
            } else {
                None
            }
        },
    }
}

/// A web address.
pub open spec fn is_web(url: Seq<char>) -> bool {
    text::has_prefix(url, "http://"@) || text::has_prefix(url, "https://"@)
}

/// What is noted where an address was changed.
pub open spec fn conversion_note(raw: Seq<char>) -> Seq<char> {
    if raw_github(raw) != raw {
        "(github.com/.../blob convertido para raw: "@ + raw_github(raw) + ")\n"@
    } else {
        ""@
    }
}

/// What a call asks for, or why it cannot be done.
pub open spec fn planned(name: Seq<char>, args: JsonView, project_dir: Seq<char>) -> Result<
    PlanView,
    Seq<char>,
> {
    if name == "read_file"@ {
        match text_arg(args, "path"@) {
            None => Err("missing 'path'"@),
            Some(path) => Ok(
                PlanView::ReadFile {
                    path,
                    full: resolved(path, project_dir),
                    offset: match int_arg(args, "offset"@) {
                        Some(n) => count_of(n),
                        None => 0,
                    },
                    limit: match int_arg(args, "limit"@) {
                        Some(n) => Some(count_of(n)),
                        None => None,
                    },
                },
            ),
        }
    } else if name == "write_file"@ {
        match (text_arg(args, "path"@), text_arg(args, "content"@)) {
            (None, _) => Err("missing 'path'"@),
            (_, None) => Err("missing 'content'"@),
            (Some(path), Some(content)) => Ok(
                PlanView::WriteFile { full: resolved(path, project_dir), content },
            ),
        }
    } else if name == "list_dir"@ {
        let path = match text_arg(args, "path"@) {
            Some(p) => p,
            None => "."@,
        };
        Ok(PlanView::ListDir { full: resolved(path, project_dir) })
    } else if name == "patch_file"@ {
        match (text_arg(args, "path"@), text_arg(args, "old_str"@), text_arg(args, "new_str"@)) {
            (None, _, _) => Err("missing 'path'"@),
            (_, None, _) => Err("missing 'old_str'"@),
            (_, _, None) => Err("missing 'new_str'"@),
            (Some(path), Some(old_str), Some(new_str)) => Ok(
                PlanView::PatchFile { path, full: resolved(path, project_dir), old_str, new_str },
            ),
        }
    } else if name == "run_command"@ {
        match text_arg(args, "command"@) {
            None => Err("missing 'command'"@),
            Some(command) => Ok(
                PlanView::RunCommand { command, timeout_ms: timeout_of(args, 60_000, 600_000) },
            ),
        }
    } else if name == "fetch_url"@ {
        match text_arg(args, "url"@) {
            None => Err("missing 'url'"@),
            Some(url) => if is_web(url) {
                Ok(
                    PlanView::FetchUrl {
                        url: raw_github(url),
                        note: conversion_note(url),
                        timeout_ms: timeout_of(args, 15_000, 60_000),
                    },
                )
            } else {
                Err("apenas URLs http/https sao permitidas"@)
            },
        }
    } else {
        Err("unknown tool: "@ + name)
    }
}

/// The model of what came of planning.
pub open spec fn plan_view(r: Result<ToolPlan, String>) -> Result<PlanView, Seq<char>> {
    match r {
        Ok(p) => Ok(p@),
        Err(e) => Err(e@),
    }
}

fn timeout_arg(call: &ToolCall, default: i64, hi: i64) -> (r: u64)
    requires
        1_000 <= hi,
    ensures
        r == timeout_of(call.args@, default as int, hi as int),
{
    let n: i64 = match arg_i64(call, "timeout_ms") {
        Some(n) => n,
        None => default,
    };
    if n < 1_000 {
        1_000
    } else if n > hi {
        hi as u64
    } else {
        n as u64
    }
}

fn count_arg(n: i64) -> (r: u64)
    ensures
        r == count_of(n as int),
{
    if n < 0 {
        0
    } else {
        n as u64
    }
}

fn plan_fetch(call: &ToolCall) -> (r: Result<ToolPlan, String>)
    requires
        call.name@ == "fetch_url"@,
    ensures
        forall|project_dir: Seq<char>|
            plan_view(r) == #[trigger] planned(call.name@, call.args@, project_dir),
{
    proof {
        reveal_strlit("read_file");
        reveal_strlit("write_file");
        reveal_strlit("list_dir");
        reveal_strlit("patch_file");
        reveal_strlit("run_command");
        reveal_strlit("fetch_url");
        assert("read_file"@[0] == 'r' && "write_file"@[0] == 'w' && "list_dir"@[0] == 'l'
            && "patch_file"@[0] == 'p' && "run_command"@[0] == 'r' && "fetch_url"@[0] == 'f');
    }
    match arg_str(call, "url") {
        None => Err("missing 'url'".to_string()),
        Some(raw) => {
            if !(text::starts_with(raw.as_str(), "http://") || text::starts_with(
                raw.as_str(),
                "https://",
            )) {
                return Err("apenas URLs http/https sao permitidas".to_string());
            }
            let url = normalize_github_url(raw.as_str());
            let note = if !text::same(url.as_str(), raw.as_str()) {
                text::cat3("(github.com/.../blob convertido para raw: ", url.as_str(), ")\n")
            } else {
                "".to_string()
            };
            let timeout_ms = timeout_arg(call, 15_000, 60_000);
            Ok(ToolPlan::FetchUrl { url, note, timeout_ms })
        },
    }
}

/// Works out what a call asks for.
pub fn plan(call: &ToolCall, project_dir: &str) -> (r: Result<ToolPlan, String>)
    ensures
        plan_view(r) == planned(call.name@, call.args@, project_dir@),
{
    let name = call.name.as_str();
    if text::same(name, "read_file") {
        match arg_str(call, "path") {
            None => Err("missing 'path'".to_string()),
            Some(path) => {
                let full = resolve(path.as_str(), project_dir);
                let offset = match arg_i64(call, "offset") {
                    Some(n) => count_arg(n),
                    None => 0,
                };
                let limit = match arg_i64(call, "limit") {
                    Some(n) => Some(count_arg(n)),
                    None => None,
                };
                Ok(ToolPlan::ReadFile { path, full, offset, limit })
            },
        }
    } else if text::same(name, "write_file") {
        match (arg_str(call, "path"), arg_str(call, "content")) {
            (None, _) => Err("missing 'path'".to_string()),
            (_, None) => Err("missing 'content'".to_string()),
            (Some(path), Some(content)) => {
                let full = resolve(path.as_str(), project_dir);
                Ok(ToolPlan::WriteFile { full, content })
            },
        }
    } else if text::same(name, "list_dir") {
        let path = match arg_str(call, "path") {
            Some(p) => p,
            None => ".".to_string(),
        };
        let full = resolve(path.as_str(), project_dir);
        Ok(ToolPlan::ListDir { full })
    } else if text::same(name, "patch_file") {
        match (arg_str(call, "path"), arg_str(call, "old_str"), arg_str(call, "new_str")) {
            (None, _, _) => Err("missing 'path'".to_string()),
            (_, None, _) => Err("missing 'old_str'".to_string()),
            (_, _, None) => Err("missing 'new_str'".to_string()),
            (Some(path), Some(old_str), Some(new_str)) => {
                let full = resolve(path.as_str(), project_dir);
                Ok(ToolPlan::PatchFile { path, full, old_str, new_str })
            },
        }
    } else if text::same(name, "run_command") {
        match arg_str(call, "command") {
            None => Err("missing 'command'".to_string()),
            Some(command) => {
                let timeout_ms = timeout_arg(call, 60_000, 600_000);
                Ok(ToolPlan::RunCommand { command, timeout_ms })
            },
        }
    } else if text::same(name, "fetch_url") {
        plan_fetch(call)
    } else {
        Err(text::cat2("unknown tool: ", name))
    }
}

/// The lines from `offset` on.
pub open spec fn skipped(lines: Seq<Seq<char>>, offset: nat) -> Seq<Seq<char>> {
    if offset >= lines.len() {
        Seq::empty()
    } else {
        lines.subrange(offset as int, lines.len() as int)
    }
}

/// The first lines, at most `limit` where there is a limit.
pub open spec fn taken(lines: Seq<Seq<char>>, limit: Option<nat>) -> Seq<Seq<char>> {
    match limit {
        Some(n) if n < lines.len() => lines.subrange(0, n as int),
        _ => lines,
    }
}

/// What reading a file says.
pub open spec fn read_report(
    path: Seq<char>,
    raw: Seq<char>,
    offset: nat,
    limit: Option<nat>,
) -> Seq<char> {
    let rest = skipped(text::line_seq(raw), offset);
    let shown = taken(rest, limit);
    let body = text::joined(shown, "\n"@);
    if shown.len() == rest.len() {
        "--- "@ + path + " ("@ + text::decimal(rest.len()) + " lines) ---\n"@ + body
    } else {
        "--- "@ + path + " lines "@ + text::decimal(offset) + "-"@ + text::decimal(
            offset + shown.len(),
        ) + " of "@ + text::decimal(rest.len()) + " ---\n"@ + body
    }
}

/// Words what reading a file says.
pub fn read_file_result(path: &str, raw: &str, offset: u64, limit: Option<u64>) -> (r: String)
    ensures
        r@ == read_report(
            path@,
            raw@,
            offset as nat,
            match limit {
                Some(n) => Some(n as nat),
                None => None,
            },
        ),
{
    let lines = text::lines(raw);
    let ghost all = text::views(lines@);
    let ghost lim = match limit {
        Some(n) => Some(n as nat),
        None => None,
    };
    let total: usize = lines.len();
    let from: usize = if offset >= total as u64 {
        total
    } else {
        offset as usize
    };
    let rest: usize = total - from;
    let take: usize = match limit {
        Some(n) => if n < rest as u64 {
            n as usize
        } else {
            rest
        },
        None => rest,
    };
    let mut shown: Vec<String> = Vec::new();
    let mut i: usize = 0;
    while i < take
        invariant
            i <= take,
            from + take <= lines.len(),
            shown@.len() == i,
            all == text::views(lines@),
            forall|k: int| 0 <= k < i ==> (#[trigger] shown@[k])@ == all[from + k],
        decreases take - i,
    {
        shown.push(lines[from + i].clone());
        i = i + 1;
    }
    let ghost rest_view = skipped(all, offset as nat);
    assert(text::views(shown@) =~= taken(rest_view, lim));
    assert(rest_view.len() == rest);
    let body = text::join(&shown, "\n");
    let rest_text = text::write_usize(rest);
    if take == rest {
        let mut out = text::cat5("--- ", path, " (", rest_text.as_str(), " lines) ---\n");
        out.append(body.as_str());
        out
    } else {
        let start = text::write_u64(offset);
        let end = text::write_u64(offset + take as u64);
        let mut out = text::cat5("--- ", path, " lines ", start.as_str(), "-");
        out.append(end.as_str());
        out.append(" of ");
        out.append(rest_text.as_str());
        out.append(" ---\n");
        out.append(body.as_str());
        out
    }
}

/// Words what writing a file says.
pub fn write_file_result(content: &str, full: &str) -> (r: String)
    ensures
        r@ == "wrote "@ + text::decimal(bytes(content@).len()) + " bytes to "@ + full@,
{
    let n = text::write_usize(byte_len(content));
    text::cat4("wrote ", n.as_str(), " bytes to ", full)
}

/// An entry of a directory.
#[derive(Debug, PartialEq)]
pub struct DirEntry {
    pub name: String,
    pub is_dir: bool,
    pub size: u64,
}

/// The line that shows an entry of a directory.
pub open spec fn entry_line(e: DirEntry) -> Seq<char> {
    (if e.is_dir {
        text::padded("DIR"@, 6)
    } else {
        text::padded("FILE"@, 6)
    }) + " "@ + text::decimal(e.size as nat) + " "@ + e.name@ + "\n"@
}

/// The lines that show the entries of a directory.
pub open spec fn dir_report(entries: Seq<DirEntry>) -> Seq<char>
    decreases entries.len(),
{
    if entries.len() == 0 {
        Seq::empty()
    } else {
        dir_report(entries.drop_last()) + entry_line(entries.last())
    }
}

/// Words what listing a directory says.
pub fn list_dir_result(entries: &Vec<DirEntry>) -> (r: String)
    ensures
        r@ == dir_report(entries@),
{
    let mut out = String::new();
    let mut i: usize = 0;
    assert(entries@.subrange(0, 0) =~= Seq::empty());
    assert(out@ =~= Seq::empty());
    while i < entries.len()
        invariant
            i <= entries@.len(),
            out@ == dir_report(entries@.subrange(0, i as int)),
        decreases entries@.len() - i,
    {
        let e = &entries[i];
        let kind = text::pad(
            if e.is_dir {
                "DIR"
            } else {
                "FILE"
            },
            6,
        );
        let size = text::write_u64(e.size);
        let mut line = text::cat5(kind.as_str(), " ", size.as_str(), " ", e.name.as_str());
        line.append("\n");
        assert(line@ == entry_line(entries@[i as int]));
        out.append(line.as_str());
        assert(entries@.subrange(0, i + 1).drop_last() =~= entries@.subrange(0, i as int));
        i = i + 1;
    }
    assert(entries@.subrange(0, entries@.len() as int) =~= entries@);
    out
}

/// The content of a file after a patch: every occurrence of the old text is replaced; a file
/// without one is an error.
pub fn patch_file_apply(path: &str, raw: &str, old_str: &str, new_str: &str) -> (r: Result<
    String,
    String,
>)
    ensures
        match r {
            Ok(t) => text::has(raw@, old_str@) && t@ == text::replaced(raw@, old_str@, new_str@),
            Err(e) => !text::has(raw@, old_str@) && e@ == "'old_str' não encontrado em "@ + path@,
        },
{
    if !text::contains(raw, old_str) {
        return Err(text::cat2("'old_str' não encontrado em ", path));
    }
    Ok(text::replace(raw, old_str, new_str))
}

/// How a line changed.
#[derive(Debug, Clone, Copy, PartialEq, Eq, Structural)]
pub enum ChangeTag {
    Delete,
    Insert,
    Equal,
}

/// A line of a comparison, with its line end.
#[derive(Debug, PartialEq)]
pub struct LineChange {
    pub tag: ChangeTag,
    pub line: String,
}

/// The model of a line of a comparison.
#[verifier::ext_equal]
pub struct LineChangeView {
    pub tag: ChangeTag,
    pub line: Seq<char>,
}

impl View for LineChange {
    type V = LineChangeView;

    open spec fn view(&self) -> LineChangeView {
        LineChangeView { tag: self.tag, line: self.line@ }
    }
}

/// The changes, line by line, that `similar` finds between two texts.
pub uninterp spec fn line_changes(old: Seq<char>, new: Seq<char>) -> Seq<LineChangeView>;

/// Compares two texts line by line (`similar::TextDiff::from_lines` and the changes of
/// `iter_all_changes`, each shown as `Change` shows itself, with a line end). The outcome is named
/// `line_changes`: no deadline is set, so it depends on the two texts alone.
#[verifier::external_body]
fn compare_lines(old: &str, new: &str) -> (r: Vec<LineChange>)
    ensures
        text::views(r@) == line_changes(old@, new@),
{
    let diff = similar::TextDiff::from_lines(old, new);
    diff.iter_all_changes().map(|c| LineChange {
        tag: match c.tag() {
            similar::ChangeTag::Delete => ChangeTag::Delete,
            similar::ChangeTag::Insert => ChangeTag::Insert,
            similar::ChangeTag::Equal => ChangeTag::Equal,
        },
        line: c.to_string(),
    }).collect()
}

/// The sign before a line of a comparison.
pub open spec fn change_sign(tag: ChangeTag) -> Seq<char> {
    match tag {
        ChangeTag::Delete => "-"@,
        ChangeTag::Insert => "+"@,
        ChangeTag::Equal => " "@,
    }
}

/// The lines of a comparison, each behind its sign.
pub open spec fn signed_lines(changes: Seq<LineChangeView>) -> Seq<char>
    decreases changes.len(),
{
    if changes.len() == 0 {
        Seq::empty()
    } else {
        signed_lines(changes.drop_last()) + change_sign(changes.last().tag) + changes.last().line
    }
}

/// What patching a file says, given the changes.
pub open spec fn patch_report(path: Seq<char>, changes: Seq<LineChangeView>) -> Seq<char> {
    "--- Edit "@ + path + " ---\n"@ + signed_lines(changes)
}

/// Words what patching a file says, given the changes.
pub fn show_changes(path: &str, changes: &Vec<LineChange>) -> (r: String)
    ensures
        r@ == patch_report(path@, text::views(changes@)),
{
    let ghost all = text::views(changes@);
    let mut lines = String::new();
    let mut i: usize = 0;
    assert(all.subrange(0, 0) =~= Seq::empty());
    assert(lines@ =~= Seq::empty());
    while i < changes.len()
        invariant
            i <= changes@.len(),
            all == text::views(changes@),
            lines@ == signed_lines(all.subrange(0, i as int)),
        decreases changes@.len() - i,
    {
        let sign = match changes[i].tag {
            ChangeTag::Delete => "-",
            ChangeTag::Insert => "+",
            ChangeTag::Equal => " ",
        };
        lines.append(sign);
        lines.append(changes[i].line.as_str());
        assert(all.subrange(0, i + 1).drop_last() =~= all.subrange(0, i as int));
        assert(all.subrange(0, i + 1).last() == changes@[i as int]@);
        i = i + 1;
    }
    assert(all.subrange(0, all.len() as int) =~= all);
    text::cat4("--- Edit ", path, " ---\n", lines.as_str())
}

/// Words what patching a file says.
pub fn patch_file_result(path: &str, old_str: &str, new_str: &str) -> (r: String)
    ensures
        r@ == patch_report(path@, line_changes(old_str@, new_str@)),
{
    let changes = compare_lines(old_str, new_str);
    show_changes(path, &changes)
}

/// How a command ended.
#[derive(Debug, Clone, Copy, PartialEq, Eq, Structural)]
pub enum CommandEnd {
    Exit(u32),
    Timeout(u64),
}

/// The words for how a command ended.
pub open spec fn end_text(end: CommandEnd) -> Seq<char> {
    match end {
        CommandEnd::Exit(code) => "exit code: "@ + text::decimal(code as nat),
        CommandEnd::Timeout(ms) => "TIMEOUT after "@ + text::decimal(ms as nat)
            + "ms (process killed)"@,
    }
}

/// What running a command says: its output, and how it ended unless it ended well; only how it
/// ended where it wrote nothing.
pub open spec fn command_report(end: CommandEnd, output: Seq<char>) -> Seq<char> {
    let shown = text::trimmed_end(output);
    let status = end_text(end);
    if shown.len() == 0 {
        status
    } else if text::has_prefix(status, "exit code: 0"@) {
        shown
    } else {
        shown + ("\n--- "@ + status + " ---\n"@)
    }
}

/// Words what running a command says.
pub fn run_command_result(end: CommandEnd, output: &str) -> (r: String)
    ensures
        r@ == command_report(end, output@),
{
    let status = match end {
        CommandEnd::Exit(code) => {
            let n = text::write_u64(code as u64);
            text::cat2("exit code: ", n.as_str())
        },
        CommandEnd::Timeout(ms) => {
            let n = text::write_u64(ms);
            text::cat3("TIMEOUT after ", n.as_str(), "ms (process killed)")
        },
    };
    let shown = text::trim_end(output);
    if shown.as_str().unicode_len() == 0 {
        status
    } else if text::starts_with(status.as_str(), "exit code: 0") {
        shown
    } else {
        let suffix = text::cat3("\n--- ", status.as_str(), " ---\n");
        text::cat2(shown.as_str(), suffix.as_str())
    }
}

/// The default branch that GitHub's answer about a repository names.
pub fn default_branch(answer: &Json) -> (r: Option<String>)
    ensures
        text::opt_view(r) == answer@.text_field("default_branch"@),
{
    match answer.text_field("default_branch") {
        Some(b) => Some(b.to_string()),
        None => None,
    }
}

/// The branch to try after a guess that was not found: the repository's own where it is another,
/// or else the other of the two usual names.
pub open spec fn other_branch(default: Option<Seq<char>>, guessed: Seq<char>) -> Option<Seq<char>> {
    match default {
        Some(b) if b != guessed => Some(b),
        _ => if guessed == "main"@ {
            Some("master"@)
        } else if guessed == "master"@ {
            Some("main"@)
        } else {
            None
        },
    }
}

/// Picks the branch to try after a guess that was not found.
pub fn alternative_branch(default: Option<String>, guessed: &str) -> (r: Option<String>)
    ensures
        text::opt_view(r) == other_branch(text::opt_view(default), guessed@),
{
    match default {
        Some(b) => {
            if !text::same(b.as_str(), guessed) {
                return Some(b);
            }
        },
        None => {},
    }
    if text::same(guessed, "main") {
        Some("master".to_string())
    } else if text::same(guessed, "master") {
        Some("main".to_string())
    } else {
        None
    }
}

/// The second attempt to fetch a file: the address and the note for when it works.
pub fn retry_fetch(owner: &str, repo: &str, guessed: &str, branch: &str, path: &str) -> (r: (
    String,
    String,
))
    ensures
        r.0@ == raw_url(owner@, repo@, branch@, path@),
        r.1@ == "(branch '"@ + guessed@ + "' nao existe nesse repo; tentei '"@ + branch@
            + "' e funcionou: "@ + r.0@ + ")\n"@,
{
    let url = make_raw_url(owner, repo, branch, path);
    let mut note = text::cat5(
        "(branch '",
        guessed,
        "' nao existe nesse repo; tentei '",
        branch,
        "' e funcionou: ",
    );
    note.append(url.as_str());
    note.append(")\n");
    (url, note)
}

/// A type of content that is text.
pub open spec fn texty(content_type: Seq<char>) -> bool {
    ||| content_type.len() == 0
    ||| text::has_prefix(content_type, "text/"@)
    ||| text::has(content_type, "json"@)
    ||| text::has(content_type, "xml"@)
    ||| text::has(content_type, "javascript"@)
}

/// Refuses content that is no text.
pub fn check_content_type(content_type: &str) -> (r: Result<(), String>)
    ensures
        match r {
            Ok(_) => texty(content_type@),
            Err(e) => !texty(content_type@) && e@ == "content-type '"@ + content_type@
                + "' nao e texto; fetch_url so devolve conteudo textual"@,
        },
{
    if content_type.unicode_len() == 0 || text::starts_with(content_type, "text/")
        || text::contains(content_type, "json") || text::contains(content_type, "xml")
        || text::contains(content_type, "javascript") {
        Ok(())
    } else {
        Err(
            text::cat3(
                "content-type '",
                content_type,
                "' nao e texto; fetch_url so devolve conteudo textual",
            ),
        )
    }
}

/// Words what fetching an address says.
pub fn fetch_url_result(note: &str, url: &str, status: u16, body: &str) -> (r: String)
    ensures
        r@ == note@ + "--- GET "@ + url@ + " ["@ + text::decimal(status as nat) + "] ---\n"@ + body@,
{
    let code = text::write_u64(status as u64);
    let mut out = text::cat5(note, "--- GET ", url, " [", code.as_str());
    out.append("] ---\n");
    out.append(body);
    out
}

/// What the model is told of a call that ran: its result, or the error behind a mark; long ones
/// are cut.
pub open spec fn told(result: Result<Seq<char>, Seq<char>>) -> Seq<char> {
    match result {
        Ok(t) => cut(t, MAX_RESULT_CHARS as nat),
        Err(e) => "ERROR: "@ + cut(e, MAX_RESULT_CHARS as nat),
    }
}

/// Words what the model is told of a call that ran.
pub fn execute(result: Result<String, String>) -> (r: String)
    requires
        match result {
            Ok(t) => can_cut(t@, MAX_RESULT_CHARS as nat),
            Err(e) => can_cut(e@, MAX_RESULT_CHARS as nat),
        },
    ensures
        r@ == told(
            match result {
                Ok(t) => Ok(t@),
                Err(e) => Err(e@),
            },
        ),
{
    match result {
        Ok(t) => truncate(t),
        Err(e) => {
            let shown = truncate(e);
            text::cat2("ERROR: ", shown.as_str())
        },
    }
}

/// What is to be done for a call.
#[derive(Debug, PartialEq)]
pub enum ToolStep {
    /// The user is to be asked.
    Ask(PermissionRequest),
    /// The call is to run.
    Run(ToolPlan),
    /// The call cannot run, for this reason.
    Fail(String),
    /// The model is told that the user refused.
    Refuse(String),
}

/// The model of what is to be done for a call.
#[verifier::ext_equal]
pub enum StepView {
    Ask(PermissionView),
    Run(PlanView),
    Fail(Seq<char>),
    Refuse(Seq<char>),
}

impl View for ToolStep {
    type V = StepView;

    open spec fn view(&self) -> StepView {
        match self {
            ToolStep::Ask(q) => StepView::Ask(q@),
            ToolStep::Run(p) => StepView::Run(p@),
            ToolStep::Fail(e) => StepView::Fail(e@),
            ToolStep::Refuse(t) => StepView::Refuse(t@),
        }
    }
}

/// What is to be done for a call that may run.
pub open spec fn allowed_step(name: Seq<char>, args: JsonView, dir: Seq<char>) -> StepView {
    match planned(name, args, dir) {
        Ok(p) => StepView::Run(p),
        Err(e) => StepView::Fail(e),
    }
}

/// What is to be done for a call that the user refused.
pub open spec fn refused_step(name: Seq<char>, args: JsonView) -> StepView {
    StepView::Refuse(denial(name, permission_detail(args)))
}

/// What is to be done first for a call: the user is asked where the tool needs
/// permission, and has refused where nobody listens.
pub open spec fn first_step(
    desk: PermissionDesk,
    name: Seq<char>,
    args: JsonView,
    dir: Seq<char>,
) -> StepView {
    if !needs_permission(name) {
        allowed_step(name, args, dir)
    } else if desk.installed {
        StepView::Ask(PermissionView { tool: name, detail: permission_detail(args) })
    } else {
        refused_step(name, args)
    }
}

/// What is to be done for a call once the user was asked.
pub open spec fn step_after(
    desk: PermissionDesk,
    name: Seq<char>,
    args: JsonView,
    dir: Seq<char>,
    delivered: bool,
    reply: Option<bool>,
) -> StepView {
    if desk.installed && delivered && reply == Some(true) {
        allowed_step(name, args, dir)
    } else {
        refused_step(name, args)
    }
}

fn allow(call: &ToolCall, project_dir: &str) -> (r: ToolStep)
    ensures
        r@ == allowed_step(call.name@, call.args@, project_dir@),
{
    match plan(call, project_dir) {
        Ok(p) => ToolStep::Run(p),
        Err(e) => ToolStep::Fail(e),
    }
}

/// Says what is to be done first for a call.
pub fn begin_call(desk: &PermissionDesk, call: &ToolCall, project_dir: &str) -> (r: ToolStep)
    ensures
        r@ == first_step(*desk, call.name@, call.args@, project_dir@),
{
    match permission_needed(call) {
        None => allow(call, project_dir),
        Some(detail) => match ask_permission(desk, call.name.as_str(), detail.as_str()) {
            Some(q) => ToolStep::Ask(q),
            None => ToolStep::Refuse(denied(call.name.as_str(), detail.as_str())),
        },
    }
}

/// Says what is to be done for a call once the user was asked: whether the
/// request reached the user, and the answer if there was one.
pub fn on_permission(
    desk: &PermissionDesk,
    call: &ToolCall,
    project_dir: &str,
    delivered: bool,
    reply: Option<bool>,
) -> (r: ToolStep)
    requires
        needs_permission(call.name@),
    ensures
        r@ == step_after(*desk, call.name@, call.args@, project_dir@, delivered, reply),
{
    if permission_given(desk, delivered, reply) {
        return allow(call, project_dir);
    }
    let detail = match permission_needed(call) {
        Some(d) => d,
        None => String::new(),
    };
    ToolStep::Refuse(denied(call.name.as_str(), detail.as_str()))
}

/// A tool that needs permission never runs before the user was asked, and runs
/// after that only if the answer was yes; else the model is told so.
pub proof fn law_sensitive_tool_waits_for_consent(
    desk: PermissionDesk,
    name: Seq<char>,
    args: JsonView,
    dir: Seq<char>,
    delivered: bool,
    reply: Option<bool>,
)
    requires
        needs_permission(name),
    ensures
        !(first_step(desk, name, args, dir) is Run),
        step_after(desk, name, args, dir, delivered, reply) is Run ==> reply == Some(true),
        reply != Some(true) ==> step_after(desk, name, args, dir, delivered, reply)
            == StepView::Refuse(denial(name, permission_detail(args))),
{
}

/// An address that was turned into that of plain text stays as it is.
pub proof fn law_raw_url_is_stable(url: Seq<char>)
    ensures
        raw_github(raw_github(url)) == raw_github(url),
{
    let raw = raw_github(url);
    if raw != url {
        reveal_strlit("https://raw.githubusercontent.com/");
        reveal_strlit("https://github.com/");
        reveal_strlit("http://github.com/");
        assert(raw[8] == 'r');
        assert(raw[4] == 's');
        if text::has_prefix(raw, "https://github.com/"@) {
            assert(raw.subrange(0, "https://github.com/"@.len() as int)[8] == 'g');
        }
        if text::has_prefix(raw, "http://github.com/"@) {
            assert(raw.subrange(0, "http://github.com/"@.len() as int)[4] == ':');
        }
    }
}

proof fn lemma_first_parts_head(a: Seq<char>, rest: Seq<char>, n: nat)
    requires
        n >= 2,
        !a.contains('/'),
    ensures
        text::first_parts(a + "/"@ + rest, '/', n) == seq![a] + text::first_parts(
            rest,
            '/',
            (n - 1) as nat,
        ),
{
    reveal_strlit("/");
    let s = a + "/"@ + rest;
    let mark = seq!['/'];
    text::lemma_first_from(s, mark, 0);
    assert(s.subrange(a.len() as int, a.len() as int + 1) =~= mark);
    assert(text::occurs_at(s, mark, a.len() as int));
    let k = text::first_at(s, mark)->0;
    if k < a.len() {
        assert(s.subrange(k, k + 1)[0] == a[k]);
        assert(a.contains(a[k]));
    }
    assert(k == a.len());
    assert(s.subrange(0, k) =~= a);
    assert(s.subrange(k + 1, s.len() as int) =~= rest);
}

/// The page of a GitHub file leads to the plain text of that file: owner, repository, branch and
/// path stay what they are.
pub proof fn law_blob_page_leads_to_file(
    owner: Seq<char>,
    repo: Seq<char>,
    branch: Seq<char>,
    path: Seq<char>,
)
    requires
        !owner.contains('/'),
        !repo.contains('/'),
        !branch.contains('/'),
    ensures
        raw_github(
            "https://github.com/"@ + (owner + "/"@ + (repo + "/"@ + ("blob"@ + "/"@ + (branch
                + "/"@ + path)))),
        ) == raw_url(owner, repo, branch, path),
        raw_github_parts(raw_url(owner, repo, branch, path)) == Some((owner, repo, branch, path)),
{
    reveal_strlit("https://github.com/");
    reveal_strlit("https://raw.githubusercontent.com/");
    reveal_strlit("blob");
    let last = branch + "/"@ + path;
    let third = "blob"@ + "/"@ + last;
    let second = repo + "/"@ + third;
    let first = owner + "/"@ + second;
    let page = "https://github.com/"@ + first;
    assert(page.subrange(0, "https://github.com/"@.len() as int) =~= "https://github.com/"@);
    assert(page.subrange("https://github.com/"@.len() as int, page.len() as int) =~= first);
    assert(!"blob"@.contains('/'));
    lemma_first_parts_head(owner, second, 5);
    lemma_first_parts_head(repo, third, 4);
    lemma_first_parts_head("blob"@, last, 3);
    lemma_first_parts_head(branch, path, 2);
    assert(text::first_parts(path, '/', 1) =~= seq![path]);
    assert(text::first_parts(first, '/', 5) =~= seq![owner, repo, "blob"@, branch, path]);
    let raw_rest = owner + "/"@ + (repo + "/"@ + last);
    let raw = raw_url(owner, repo, branch, path);
    assert(raw =~= "https://raw.githubusercontent.com/"@ + raw_rest);
    assert(raw.subrange(0, "https://raw.githubusercontent.com/"@.len() as int)
        =~= "https://raw.githubusercontent.com/"@);
    assert(raw.subrange("https://raw.githubusercontent.com/"@.len() as int, raw.len() as int)
        =~= raw_rest);
    lemma_first_parts_head(owner, repo + "/"@ + last, 4);
    lemma_first_parts_head(repo, last, 3);
    assert(text::first_parts(raw_rest, '/', 4) =~= seq![owner, repo, branch, path]);
}

/// A cut text keeps the beginning of the text, of the cut's length, and a text that is short
/// enough is kept whole.
pub proof fn law_cut_keeps_beginning(s: Seq<char>, max: nat)
    requires
        can_cut(s, max),
    ensures
        bytes(s).len() <= max ==> cut(s, max) == s,
        bytes(s).len() > max ==> exists|head: Seq<char>|
            #![trigger bytes(head)]
            bytes(head) == bytes(s).subrange(0, max as int) && text::has_prefix(cut(s, max), head),
{
    if bytes(s).len() > max {
        let head = vstd::utf8::decode_utf8(bytes(s).subrange(0, max as int));
        vstd::utf8::encode_utf8_valid_utf8(s);
        vstd::utf8::valid_utf8_split(bytes(s), max as int);
        vstd::utf8::decode_utf8_encode_utf8(bytes(s).subrange(0, max as int));
        assert(bytes(head) == bytes(s).subrange(0, max as int));
        assert(cut(s, max).subrange(0, head.len() as int) =~= head);
        assert(text::has_prefix(cut(s, max), head));
    }
}

/// The arguments of a call stand in no envelope: nothing among them names a tool.
pub open spec fn bare(args: JsonView) -> bool {
    args.field("name"@) is None && args.field("tool"@) is None && args.field("tool_name"@) is None
}

/// A file as the project sees it: an absolute path is kept, any other is looked up below the
/// project.
pub open spec fn leads_to(full: Seq<char>, path: Seq<char>, dir: Seq<char>) -> bool {
    &&& path.len() > 0 && path[0] == '/' ==> full == path
    &&& path.len() == 0 || path[0] != '/' ==> {
        &&& dir.len() > 0 && dir.last() != '/' ==> full == dir + seq!['/'] + path
        &&& dir.len() == 0 || dir.last() == '/' ==> full == dir + path
    }
}

proof fn lemma_leads_to(path: Seq<char>, dir: Seq<char>)
    ensures
        leads_to(resolved(path, dir), path, dir),
{
    reveal_strlit("/");
    assert("/"@ =~= seq!['/']);
    if path.len() > 0 {
        assert(path.subrange(0, 1)[0] == path[0]);
        if path[0] == '/' {
            assert(path.subrange(0, 1) =~= "/"@);
        }
    }
}

proof fn lemma_tool_names()
    ensures
        "read_file"@ != "write_file"@,
        "read_file"@ != "list_dir"@,
        "read_file"@ != "patch_file"@,
        "read_file"@ != "run_command"@,
        "read_file"@ != "fetch_url"@,
        "write_file"@ != "list_dir"@,
        "write_file"@ != "patch_file"@,
        "write_file"@ != "run_command"@,
        "write_file"@ != "fetch_url"@,
        "list_dir"@ != "patch_file"@,
        "list_dir"@ != "run_command"@,
        "list_dir"@ != "fetch_url"@,
        "patch_file"@ != "run_command"@,
        "patch_file"@ != "fetch_url"@,
        "run_command"@ != "fetch_url"@,
{
    reveal_strlit("read_file");
    reveal_strlit("write_file");
    reveal_strlit("list_dir");
    reveal_strlit("patch_file");
    reveal_strlit("run_command");
    reveal_strlit("fetch_url");
    assert("read_file"@.len() == 9);
    assert("write_file"@.len() == 10);
    assert("list_dir"@.len() == 8);
    assert("patch_file"@.len() == 10);
    assert("run_command"@.len() == 11);
    assert("fetch_url"@.len() == 9);
    assert("read_file"@[0] != "fetch_url"@[0]);
    assert("write_file"@[0] != "patch_file"@[0]);
}

/// A patch asks to put the argument `new_str` in the place of the argument `old_str` in the file
/// of the argument `path`: applied to a text in which the old text first stands between `pre`
/// and `post`, it leaves `pre`, puts the new text, and goes on in `post`.
pub proof fn law_patch_puts_new_for_old(
    args: JsonView,
    dir: Seq<char>,
    path: Seq<char>,
    before: Seq<char>,
    after: Seq<char>,
    pre: Seq<char>,
    post: Seq<char>,
)
    requires
        bare(args),
        args.field("path"@) == Some(JsonView::Text(path)),
        args.field("old_str"@) == Some(JsonView::Text(before)),
        args.field("new_str"@) == Some(JsonView::Text(after)),
    ensures
        planned("patch_file"@, args, dir) matches Ok(
            PlanView::PatchFile { path: p, full, old_str, new_str },
        ) && {
            &&& p == path
            &&& leads_to(full, path, dir)
            &&& old_str == before
            &&& new_str == after
            &&& before.len() > 0 && (forall|j: int|
                0 <= j < pre.len() ==> !text::occurs_at(pre + before + post, before, j))
                ==> text::has(pre + before + post, old_str) && text::replaced(
                pre + before + post,
                old_str,
                new_str,
            ) == pre + after + text::replaced(post, before, after)
            &&& before.len() > 0 && !text::has(post, before) ==> text::replaced(
                post,
                old_str,
                new_str,
            ) == post
        },
{
    lemma_tool_names();
    lemma_leads_to(path, dir);
    let raw = pre + before + post;
    if before.len() > 0 && (forall|j: int|
        0 <= j < pre.len() ==> !text::occurs_at(raw, before, j)) {
        text::law_occurrences_are_replaced(pre, before, post, after);
        let at = pre.len() as int;
        assert(raw.subrange(at, at + before.len()) =~= before);
        assert(text::occurs_at(raw, before, at));
    }
    if before.len() > 0 && !text::has(post, before) {
        text::lemma_first_from(post, before, 0);
        assert(post.subrange(0, post.len() as int) =~= post);
    }
}

/// Writing a file asks for the argument `content` in the file of the argument `path`.
pub proof fn law_file_is_written_whole(
    args: JsonView,
    dir: Seq<char>,
    path: Seq<char>,
    content: Seq<char>,
)
    requires
        bare(args),
        args.field("path"@) == Some(JsonView::Text(path)),
        args.field("content"@) == Some(JsonView::Text(content)),
    ensures
        planned("write_file"@, args, dir) matches Ok(PlanView::WriteFile { full, content: c })
            && leads_to(full, path, dir) && c == content,
{
    lemma_tool_names();
    lemma_leads_to(path, dir);
}

/// Reading a file asks for the file of the argument `path`, from the line `offset` on, at most
/// `limit` lines; without these arguments for all of it. Negative ones count as zero.
pub proof fn law_file_is_read_in_part(args: JsonView, dir: Seq<char>, path: Seq<char>, n: i64)
    requires
        bare(args),
        args.field("path"@) == Some(JsonView::Text(path)),
    ensures
        planned("read_file"@, args, dir) matches Ok(
            PlanView::ReadFile { path: p, full, offset, limit },
        ) && {
            &&& p == path
            &&& leads_to(full, path, dir)
            &&& args.field("offset"@) is None ==> offset == 0
            &&& args.field("offset"@) == Some(JsonView::Int(n as int)) && n >= 0 ==> offset == n
            &&& args.field("offset"@) == Some(JsonView::Int(n as int)) && n < 0 ==> offset == 0
            &&& args.field("limit"@) is None ==> limit is None
            &&& args.field("limit"@) == Some(JsonView::Int(n as int)) && n >= 0 ==> limit == Some(
                n as nat,
            )
            &&& args.field("limit"@) == Some(JsonView::Int(n as int)) && n < 0 ==> limit == Some(
                0nat,
            )
        },
{
    lemma_tool_names();
    lemma_leads_to(path, dir);
}

/// Listing a directory asks for the directory of the argument `path`, or for the project.
pub proof fn law_directory_is_listed(args: JsonView, dir: Seq<char>, path: Seq<char>)
    requires
        bare(args),
        args.field("file_path"@) is None,
    ensures
        args.field("path"@) == Some(JsonView::Text(path)) ==> (planned(
            "list_dir"@,
            args,
            dir,
        ) matches Ok(PlanView::ListDir { full }) && leads_to(full, path, dir)),
        args.field("path"@) is None ==> (planned("list_dir"@, args, dir) matches Ok(
            PlanView::ListDir { full },
        ) && leads_to(full, "."@, dir)),
{
    lemma_tool_names();
    lemma_leads_to(path, dir);
    lemma_leads_to("."@, dir);
}

/// Running a command asks for the argument `command`, for as long as `timeout_ms` says, a minute
/// without it, never less than a second and never more than ten minutes.
pub proof fn law_command_is_run(args: JsonView, dir: Seq<char>, command: Seq<char>, ms: i64)
    requires
        bare(args),
        args.field("command"@) == Some(JsonView::Text(command)),
    ensures
        planned("run_command"@, args, dir) matches Ok(
            PlanView::RunCommand { command: c, timeout_ms },
        ) && {
            &&& c == command
            &&& args.field("timeout_ms"@) is None ==> timeout_ms == 60_000
            &&& args.field("timeout_ms"@) == Some(JsonView::Int(ms as int)) && 1_000 <= ms
                <= 600_000 ==> timeout_ms == ms
            &&& args.field("timeout_ms"@) == Some(JsonView::Int(ms as int)) && ms < 1_000
                ==> timeout_ms == 1_000
            &&& args.field("timeout_ms"@) == Some(JsonView::Int(ms as int)) && ms > 600_000
                ==> timeout_ms == 600_000
        },
{
    lemma_tool_names();
}

/// Fetching asks for the argument `url`, as it is unless it is a page of GitHub, for fifteen
/// seconds or as long as `timeout_ms` says, never less than one second and never more than a
/// minute; what is no web address is refused. The user is asked about that very address.
pub proof fn law_address_is_fetched(
    desk: PermissionDesk,
    args: JsonView,
    dir: Seq<char>,
    url: Seq<char>,
    ms: i64,
)
    requires
        bare(args),
        args.field("url"@) == Some(JsonView::Text(url)),
    ensures
        !text::has_prefix(url, "http://"@) && !text::has_prefix(url, "https://"@) ==> planned(
            "fetch_url"@,
            args,
            dir,
        ) is Err,
        text::has_prefix(url, "http://"@) || text::has_prefix(url, "https://"@) ==> (planned(
            "fetch_url"@,
            args,
            dir,
        ) matches Ok(PlanView::FetchUrl { url: u, note, timeout_ms }) && {
            &&& !text::has_prefix(url, "http://github.com/"@) && !text::has_prefix(
                url,
                "https://github.com/"@,
            ) ==> u == url && note == ""@
            &&& u == url ==> note == ""@
            &&& args.field("timeout_ms"@) is None ==> timeout_ms == 15_000
            &&& args.field("timeout_ms"@) == Some(JsonView::Int(ms as int)) && 1_000 <= ms
                <= 60_000 ==> timeout_ms == ms
            &&& args.field("timeout_ms"@) == Some(JsonView::Int(ms as int)) && ms < 1_000
                ==> timeout_ms == 1_000
            &&& args.field("timeout_ms"@) == Some(JsonView::Int(ms as int)) && ms > 60_000
                ==> timeout_ms == 60_000
        }),
        desk.installed ==> first_step(desk, "fetch_url"@, args, dir) == StepView::Ask(
            PermissionView { tool: "fetch_url"@, detail: url },
        ),
        !desk.installed ==> first_step(desk, "fetch_url"@, args, dir) == StepView::Refuse(
            "ERROR: acesso negado pelo usuario para 'fetch_url' ("@ + url + ")"@,
        ),
{
    lemma_tool_names();
    reveal_strlit("url");
    reveal_strlit("path");
    reveal_strlit("ERROR: acesso negado pelo usuario para 'fetch_url' (");
    reveal_strlit("ERROR: acesso negado pelo usuario para '");
    reveal_strlit("' (");
    reveal_strlit("fetch_url");
    assert("ERROR: acesso negado pelo usuario para '"@ + "fetch_url"@ + "' ("@
        =~= "ERROR: acesso negado pelo usuario para 'fetch_url' ("@);
}

/// A call without an argument that its tool needs is not run: the reason names the first one
/// that is missing. A tool that nobody knows is not run either.
pub proof fn law_missing_argument_is_named(args: JsonView, dir: Seq<char>, name: Seq<char>)
    requires
        bare(args),
    ensures
        args.field("path"@) is None && args.field("file_path"@) is None ==> planned(
            "read_file"@,
            args,
            dir,
        ) == Err::<PlanView, Seq<char>>("missing 'path'"@) && planned("write_file"@, args, dir)
            == Err::<PlanView, Seq<char>>("missing 'path'"@) && planned("patch_file"@, args, dir)
            == Err::<PlanView, Seq<char>>("missing 'path'"@),
        args.field("path"@) is Some && args.field("path"@)->0 is Text && args.field("content"@)
            is None ==> planned("write_file"@, args, dir) == Err::<PlanView, Seq<char>>(
            "missing 'content'"@,
        ),
        args.field("path"@) is Some && args.field("path"@)->0 is Text && args.field("old_str"@)
            is None ==> planned("patch_file"@, args, dir) == Err::<PlanView, Seq<char>>(
            "missing 'old_str'"@,
        ),
        args.field("command"@) is None ==> planned("run_command"@, args, dir) == Err::<
            PlanView,
            Seq<char>,
        >("missing 'command'"@),
        args.field("url"@) is None ==> planned("fetch_url"@, args, dir) == Err::<
            PlanView,
            Seq<char>,
        >("missing 'url'"@),
        name != "read_file"@ && name != "write_file"@ && name != "list_dir"@ && name
            != "patch_file"@ && name != "run_command"@ && name != "fetch_url"@ ==> planned(
            name,
            args,
            dir,
        ) == Err::<PlanView, Seq<char>>("unknown tool: "@ + name),
{
    lemma_tool_names();
    reveal_strlit("path");
    reveal_strlit("content");
    reveal_strlit("old_str");
    reveal_strlit("command");
    reveal_strlit("url");
    assert("path"@.len() == 4);
    assert("content"@.len() == 7);
    assert("old_str"@.len() == 7);
    assert("command"@.len() == 7);
    assert("url"@.len() == 3);
}

/// An envelope that names the tool around the arguments changes nothing of what a call asks for,
/// under whichever of its three names the arguments stand in it.
pub proof fn law_envelope_changes_nothing(
    outer: JsonView,
    inner: JsonView,
    name: Seq<char>,
    dir: Seq<char>,
)
    requires
        !bare(outer),
        inner is Object,
        bare(inner),
        outer.field("arguments"@) == Some(inner) || (outer.field("arguments"@) is None && (
        outer.field("args"@) == Some(inner) || (outer.field("args"@) is None && outer.field(
            "parameters"@,
        ) == Some(inner)))),
    ensures
        planned(name, outer, dir) == planned(name, inner, dir),
        needs_permission(name) && inner.field("url"@) is Some && inner.field("url"@)->0 is Text
            ==> permission_detail(outer) == permission_detail(inner),
{
    assert(unwrapped(outer) == inner);
    assert(unwrapped(inner) == inner);
}

/// A path may be called `file_path` where there is no `path`.
pub proof fn law_path_has_two_names(args: JsonView, dir: Seq<char>, path: Seq<char>)
    requires
        bare(args),
        args.field("path"@) is None,
        args.field("file_path"@) == Some(JsonView::Text(path)),
    ensures
        planned("read_file"@, args, dir) matches Ok(PlanView::ReadFile { path: p, full, .. }) && p
            == path && leads_to(full, path, dir),
        planned("list_dir"@, args, dir) matches Ok(PlanView::ListDir { full }) && leads_to(
            full,
            path,
            dir,
        ),
{
    lemma_tool_names();
    lemma_leads_to(path, dir);
}

/// Reading a file shows its lines from the offset on, no more than the limit, joined as they
/// stood, under a heading with the path and the numbers of lines.
pub proof fn law_read_shows_lines(path: Seq<char>, raw: Seq<char>, offset: nat, n: nat)
    ensures
        ({
            let lines = text::line_seq(raw);
            let count = lines.len();
            &&& offset <= count ==> read_report(path, raw, offset, None) == "--- "@ + path + " ("@
                + text::decimal((count - offset) as nat) + " lines) ---\n"@ + text::joined(
                lines.subrange(offset as int, count as int),
                "\n"@,
            )
            &&& offset + n < count ==> read_report(path, raw, offset, Some(n)) == "--- "@ + path
                + " lines "@ + text::decimal(offset) + "-"@ + text::decimal(offset + n) + " of "@
                + text::decimal((count - offset) as nat) + " ---\n"@ + text::joined(
                lines.subrange(offset as int, (offset + n) as int),
                "\n"@,
            )
            &&& offset + n >= count ==> read_report(path, raw, offset, Some(n)) == read_report(
                path,
                raw,
                offset,
                None,
            )
        }),
{
    let lines = text::line_seq(raw);
    let rest = skipped(lines, offset);
    if offset <= lines.len() {
        assert(rest =~= lines.subrange(offset as int, lines.len() as int));
    }
    if offset + n < lines.len() {
        assert(rest.subrange(0, n as int) =~= lines.subrange(offset as int, (offset + n) as int));
    }
}

/// Listing a directory shows one line for each entry, in order: what it is, its size, its name.
pub proof fn law_entry_has_line(entries: Seq<DirEntry>, e: DirEntry)
    ensures
        dir_report(Seq::empty()) == Seq::<char>::empty(),
        e.is_dir ==> dir_report(entries.push(e)) == dir_report(entries) + ("DIR    "@
            + text::decimal(e.size as nat) + " "@ + e.name@ + "\n"@),
        !e.is_dir ==> dir_report(entries.push(e)) == dir_report(entries) + ("FILE   "@
            + text::decimal(e.size as nat) + " "@ + e.name@ + "\n"@),
{
    assert(entries.push(e).drop_last() =~= entries);
    reveal_strlit("DIR");
    reveal_strlit("FILE");
    reveal_strlit("DIR    ");
    reveal_strlit("FILE   ");
    reveal_strlit(" ");
    assert(text::padded("DIR"@, 6) + " "@ =~= "DIR    "@);
    assert(text::padded("FILE"@, 6) + " "@ =~= "FILE   "@);
}

proof fn lemma_no_leading_zero(n: nat)
    requires
        n > 0,
    ensures
        text::decimal(n).len() > 0,
        text::decimal(n)[0] != '0',
    decreases n,
{
    if n >= 10 {
        lemma_no_leading_zero(n / 10);
    }
}

/// A command that ends well shows its output; one that fails or runs too long shows its output
/// and how it ended; one that wrote nothing shows how it ended.
pub proof fn law_command_shows_output(output: Seq<char>, code: u32, ms: u64)
    ensures
        ({
            let shown = text::trimmed_end(output);
            let failed = "exit code: "@ + text::decimal(code as nat);
            let late = "TIMEOUT after "@ + text::decimal(ms as nat) + "ms (process killed)"@;
            &&& shown.len() > 0 && code == 0 ==> command_report(CommandEnd::Exit(code), output)
                == shown
            &&& shown.len() > 0 && code != 0 ==> command_report(CommandEnd::Exit(code), output)
                == shown + ("\n--- "@ + failed + " ---\n"@)
            &&& shown.len() == 0 ==> command_report(CommandEnd::Exit(code), output) == failed
            &&& shown.len() > 0 ==> command_report(CommandEnd::Timeout(ms), output) == shown + (
            "\n--- "@ + late + " ---\n"@)
            &&& shown.len() == 0 ==> command_report(CommandEnd::Timeout(ms), output) == late
        }),
{
    reveal_strlit("exit code: 0");
    reveal_strlit("exit code: ");
    reveal_strlit("TIMEOUT after ");
    let mark = "exit code: 0"@;
    let failed = "exit code: "@ + text::decimal(code as nat);
    assert("exit code: "@.len() == 11);
    if code == 0 {
        assert(text::decimal(0) =~= seq!['0']);
        assert(failed.subrange(0, 12) =~= mark);
    } else {
        lemma_no_leading_zero(code as nat);
        if text::has_prefix(failed, mark) {
            assert(failed.subrange(0, 12)[11] == mark[11]);
            assert(failed[11] == text::decimal(code as nat)[0]);
        }
    }
    let late = "TIMEOUT after "@ + text::decimal(ms as nat) + "ms (process killed)"@;
    if text::has_prefix(late, mark) {
        assert(late.subrange(0, 12)[0] == mark[0]);
        assert(late[0] == 'T');
    }
}

/// Only fetching needs permission: every other call runs at once as it is planned, or fails for
/// the reason of the plan. A call that the user allowed runs as it is planned.
pub proof fn law_call_runs_as_planned(
    desk: PermissionDesk,
    name: Seq<char>,
    args: JsonView,
    dir: Seq<char>,
)
    ensures
        name != "fetch_url"@ ==> (match planned(name, args, dir) {
            Ok(p) => first_step(desk, name, args, dir) == StepView::Run(p),
            Err(e) => first_step(desk, name, args, dir) == StepView::Fail(e),
        }),
        desk.installed ==> (match planned(name, args, dir) {
            Ok(p) => step_after(desk, name, args, dir, true, Some(true)) == StepView::Run(p),
            Err(e) => step_after(desk, name, args, dir, true, Some(true)) == StepView::Fail(e),
        }),
        !(first_step(desk, "fetch_url"@, args, dir) is Run),
{
}

/// The model is told the result of a call, or the error behind a mark; short ones whole.
pub proof fn law_short_result_is_told_whole(t: Seq<char>)
    requires
        bytes(t).len() <= 24_000,
    ensures
        told(Ok(t)) == t,
        told(Err(t)) == "ERROR: "@ + t,
{
}

/// The report of a change has each line in order: a line that went with a minus, one that came with a
/// plus, one that stayed with a blank.
pub proof fn law_changed_lines_are_signed(
    path: Seq<char>,
    changes: Seq<LineChangeView>,
    line: Seq<char>,
)
    ensures
        patch_report(path, Seq::empty()) == "--- Edit "@ + path + " ---\n"@,
        patch_report(path, changes.push(LineChangeView { tag: ChangeTag::Delete, line }))
            == patch_report(path, changes) + "-"@ + line,
        patch_report(path, changes.push(LineChangeView { tag: ChangeTag::Insert, line }))
            == patch_report(path, changes) + "+"@ + line,
        patch_report(path, changes.push(LineChangeView { tag: ChangeTag::Equal, line }))
            == patch_report(path, changes) + " "@ + line,
{
    assert(patch_report(path, Seq::empty()) =~= "--- Edit "@ + path + " ---\n"@);
    let a = changes.push(LineChangeView { tag: ChangeTag::Delete, line });
    let b = changes.push(LineChangeView { tag: ChangeTag::Insert, line });
    let c = changes.push(LineChangeView { tag: ChangeTag::Equal, line });
    assert(a.drop_last() =~= changes);
    assert(b.drop_last() =~= changes);
    assert(c.drop_last() =~= changes);
    assert(patch_report(path, a) =~= patch_report(path, changes) + "-"@ + line);
    assert(patch_report(path, b) =~= patch_report(path, changes) + "+"@ + line);
    assert(patch_report(path, c) =~= patch_report(path, changes) + " "@ + line);
}

} // verus!
