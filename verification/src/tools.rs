//! Tools offered to the local model: their advertised specs, which of them
//! need the user's permission, and the pure parts of their work.
pub mod edit;
pub mod files;
pub mod shell;
pub mod web_fetch;
pub mod web_search;

use crate::text::{str_eq, string_of};
use vstd::string::StringExecFns;
use vstd::prelude::*;

verus! {

/// The function a tool spec describes: its name, what it does and its
/// parameters as a JSON schema (JSON text).
#[derive(Debug, Clone)]
pub struct ToolDefFunction {
    pub name: String,
    pub description: String,
    pub parameters: String,
}

/// A tool as advertised to the model.
#[derive(Debug, Clone)]
pub struct ToolDef {
    pub kind: String,
    pub function: ToolDefFunction,
}

/// A function-kind tool spec.
pub fn tool_def(name: &str, description: &str, parameters: &str) -> (r: ToolDef)
    ensures
        r.kind@ == "function"@,
        r.function.name@ == name@,
        r.function.description@ == description@,
        r.function.parameters@ == parameters@,
{
    ToolDef {
        kind: String::from_str("function"),
        function: ToolDefFunction {
            name: String::from_str(name),
            description: String::from_str(description),
            parameters: String::from_str(parameters),
        },
    }
}

/// The tools the model can call.
#[derive(Debug, Clone, Copy, PartialEq, Eq, Structural)]
pub enum ToolKind {
    Read,
    Glob,
    WebFetch,
    WebSearch,
    Bash,
    Write,
    Edit,
    MultiEdit,
}

pub open spec fn tool_name(k: ToolKind) -> Seq<char> {
    match k {
        ToolKind::Read => "Read"@,
        ToolKind::Glob => "Glob"@,
        ToolKind::WebFetch => "WebFetch"@,
        ToolKind::WebSearch => "WebSearch"@,
        ToolKind::Bash => "Bash"@,
        ToolKind::Write => "Write"@,
        ToolKind::Edit => "Edit"@,
        ToolKind::MultiEdit => "MultiEdit"@,
    }
}

/// The tool a call names, if it is one of ours.
pub fn tool_by_name(name: &str) -> (r: Option<ToolKind>)
    ensures
        match r {
            Some(k) => tool_name(k) == name@,
            None => forall|k: ToolKind| tool_name(k) != name@,
        },
{
    if str_eq(name, "Read") {
        Some(ToolKind::Read)
    } else if str_eq(name, "Glob") {
        Some(ToolKind::Glob)
    } else if str_eq(name, "WebFetch") {
        Some(ToolKind::WebFetch)
    } else if str_eq(name, "WebSearch") {
        Some(ToolKind::WebSearch)
    } else if str_eq(name, "Bash") {
        Some(ToolKind::Bash)
    } else if str_eq(name, "Write") {
        Some(ToolKind::Write)
    } else if str_eq(name, "Edit") {
        Some(ToolKind::Edit)
    } else if str_eq(name, "MultiEdit") {
        Some(ToolKind::MultiEdit)
    } else {
        None
    }
}

/// Tools whose side effects need the user's approval before each call.
pub open spec fn permission_gated(name: Seq<char>) -> bool {
    name == "Bash"@ || name == "Write"@ || name == "Edit"@ || name == "MultiEdit"@
}

/// Whether running the named tool needs explicit user permission.
pub fn needs_permission(name: &str) -> (r: bool)
    ensures
        r == permission_gated(name@),
{
    str_eq(name, "Bash") || str_eq(name, "Write") || str_eq(name, "Edit") || str_eq(name, "MultiEdit")
}

/// What the model is told a tool does.
pub open spec fn tool_description(k: ToolKind) -> Seq<char> {
    match k {
        ToolKind::Read => files::READ_DESCRIPTION@,
        ToolKind::Glob => files::GLOB_DESCRIPTION@,
        ToolKind::WebFetch => web_fetch::DESCRIPTION@,
        ToolKind::WebSearch => web_search::DESCRIPTION@,
        ToolKind::Bash => shell::DESCRIPTION@,
        ToolKind::Write => WRITE_DESCRIPTION@,
        ToolKind::Edit => EDIT_DESCRIPTION@,
        ToolKind::MultiEdit => MULTI_EDIT_DESCRIPTION@,
    }
}

/// The JSON schema of a tool's arguments.
pub open spec fn tool_parameters(k: ToolKind) -> Seq<char> {
    match k {
        ToolKind::Read => files::READ_PARAMETERS@,
        ToolKind::Glob => files::GLOB_PARAMETERS@,
        ToolKind::WebFetch => web_fetch::PARAMETERS@,
        ToolKind::WebSearch => web_search::PARAMETERS@,
        ToolKind::Bash => shell::PARAMETERS@,
        ToolKind::Write => WRITE_PARAMETERS@,
        ToolKind::Edit => EDIT_PARAMETERS@,
        ToolKind::MultiEdit => MULTI_EDIT_PARAMETERS@,
    }
}

/// The spec of one of our tools.
pub fn spec_of(k: ToolKind) -> (r: ToolDef)
    ensures
        r.function.name@ == tool_name(k),
        r.function.description@ == tool_description(k),
        r.function.parameters@ == tool_parameters(k),
        r.kind@ == "function"@,
{
    match k {
        ToolKind::Read => tool_def("Read", files::READ_DESCRIPTION, files::READ_PARAMETERS),
        ToolKind::Glob => tool_def("Glob", files::GLOB_DESCRIPTION, files::GLOB_PARAMETERS),
        ToolKind::WebFetch => tool_def("WebFetch", web_fetch::DESCRIPTION, web_fetch::PARAMETERS),
        ToolKind::WebSearch => tool_def("WebSearch", web_search::DESCRIPTION, web_search::PARAMETERS),
        ToolKind::Bash => tool_def("Bash", shell::DESCRIPTION, shell::PARAMETERS),
        ToolKind::Write => tool_def("Write", WRITE_DESCRIPTION, WRITE_PARAMETERS),
        ToolKind::Edit => tool_def("Edit", EDIT_DESCRIPTION, EDIT_PARAMETERS),
        ToolKind::MultiEdit => tool_def("MultiEdit", MULTI_EDIT_DESCRIPTION, MULTI_EDIT_PARAMETERS),
    }
}

pub open spec fn tool_names(ts: Seq<ToolDef>) -> Seq<Seq<char>> {
    ts.map_values(|t: ToolDef| t.function.name@)
}

/// All tool specs advertised to the model on every turn: Read, Glob,
/// WebSearch, WebFetch, Bash, Write, Edit and MultiEdit, in that order.
pub fn available_tools() -> (r: Vec<ToolDef>)
    ensures
        tool_names(r@) == seq!["Read"@, "Glob"@, "WebSearch"@, "WebFetch"@, "Bash"@, "Write"@, "Edit"@, "MultiEdit"@],
        forall|i: int| 0 <= i < r@.len() ==> (#[trigger] r@[i]).kind@ == "function"@,
{
    let mut v: Vec<ToolDef> = Vec::new();
    v.push(spec_of(ToolKind::Read));
    v.push(spec_of(ToolKind::Glob));
    v.push(spec_of(ToolKind::WebSearch));
    v.push(spec_of(ToolKind::WebFetch));
    v.push(spec_of(ToolKind::Bash));
    v.push(spec_of(ToolKind::Write));
    v.push(spec_of(ToolKind::Edit));
    v.push(spec_of(ToolKind::MultiEdit));
    assert(tool_names(v@) =~= seq!["Read"@, "Glob"@, "WebSearch"@, "WebFetch"@, "Bash"@, "Write"@, "Edit"@, "MultiEdit"@]);
    v
}

/// What the model is told the `Edit` tool does.
pub const EDIT_DESCRIPTION: &'static str = "Replace `old_string` with `new_string` inside a file. By default `old_string` must occur exactly once; set `replace_all: true` to replace every occurrence. Requires user permission. Always Read the file first to know the exact `old_string` (including indentation).";
/// The arguments of the `Edit` tool (JSON schema).
pub const EDIT_PARAMETERS: &'static str = "{\"type\":\"object\",\"properties\":{\"file_path\":{\"type\":\"string\",\"description\":\"Absolute or relative path to the file to edit.\"},\"old_string\":{\"type\":\"string\",\"description\":\"Exact text to find and replace. Must match including whitespace.\"},\"new_string\":{\"type\":\"string\",\"description\":\"Replacement text.\"},\"replace_all\":{\"type\":\"boolean\",\"description\":\"Replace every occurrence (default false — requires unique match).\"}},\"required\":[\"file_path\",\"old_string\",\"new_string\"],\"additionalProperties\":false}";
/// What the model is told the `MultiEdit` tool does.
pub const MULTI_EDIT_DESCRIPTION: &'static str = "Apply multiple sequential find-and-replace edits to a single file atomically. Each edit's `old_string` is matched against the state PRODUCED BY PRIOR EDITS in the batch (so the first edit may transform text the second edit relies on). If any edit fails (no match / ambiguous match / identical) the file is not modified. Requires user permission.";
/// The arguments of the `MultiEdit` tool (JSON schema).
pub const MULTI_EDIT_PARAMETERS: &'static str = "{\"type\":\"object\",\"properties\":{\"file_path\":{\"type\":\"string\",\"description\":\"Path to the file to edit.\"},\"edits\":{\"type\":\"array\",\"description\":\"Ordered list of find-and-replace edits.\",\"items\":{\"type\":\"object\",\"properties\":{\"old_string\":{\"type\":\"string\"},\"new_string\":{\"type\":\"string\"},\"replace_all\":{\"type\":\"boolean\"}},\"required\":[\"old_string\",\"new_string\"],\"additionalProperties\":false},\"minItems\":1}},\"required\":[\"file_path\",\"edits\"],\"additionalProperties\":false}";
/// What the model is told the `Write` tool does.
pub const WRITE_DESCRIPTION: &'static str = "Write content to a file, creating it if missing or overwriting if it exists. Always pair with Read first if you intend to overwrite an existing file. Requires user permission.";
/// The arguments of the `Write` tool (JSON schema).
pub const WRITE_PARAMETERS: &'static str = "{\"type\":\"object\",\"properties\":{\"file_path\":{\"type\":\"string\",\"description\":\"Absolute or relative path to the file to write. Tilde (~) expands to home.\"},\"content\":{\"type\":\"string\",\"description\":\"Full file contents to write.\"}},\"required\":[\"file_path\",\"content\"],\"additionalProperties\":false}";
/// What the model would be told the `find_file` tool does.
pub const FIND_FILE_DESCRIPTION: &'static str = "Find files whose name matches a substring, recursively from a base directory. Respects .gitignore. Use this BEFORE read_file when the user mentions a filename but the exact path is unknown — call find_file first to locate it, then read_file on the discovered path. Case-insensitive. Returns up to 20 matches.";
/// The arguments of the `find_file` tool (JSON schema).
pub const FIND_FILE_PARAMETERS: &'static str = "{\"type\":\"object\",\"properties\":{\"name\":{\"type\":\"string\",\"description\":\"Filename or substring to search for. Case-insensitive.\"},\"base\":{\"type\":\"string\",\"description\":\"Base directory to search. Defaults to the current working directory. Supports `~` for home.\"}},\"required\":[\"name\"],\"additionalProperties\":false}";
/// What the model would be told the `read_file` tool does.
pub const READ_FILE_DESCRIPTION: &'static str = "Read a file from disk and return its contents as text. Use this when the user asks about a specific file's content, configuration, or code. Returns at most 200KB; longer files are truncated.";
/// The arguments of the `read_file` tool (JSON schema).
pub const READ_FILE_PARAMETERS: &'static str = "{\"type\":\"object\",\"properties\":{\"path\":{\"type\":\"string\",\"description\":\"Absolute or relative path to the file. Tilde (~) is expanded to the user home directory.\"}},\"required\":[\"path\"],\"additionalProperties\":false}";

/// Tools that are implemented beside the advertised ones but not offered to
/// the model.
#[derive(Debug, Clone, Copy, PartialEq, Eq, Structural)]
pub enum UnlistedTool {
    FindFile,
    ReadFile,
}

pub open spec fn unlisted_name(t: UnlistedTool) -> Seq<char> {
    match t {
        UnlistedTool::FindFile => "find_file"@,
        UnlistedTool::ReadFile => "read_file"@,
    }
}

pub open spec fn unlisted_description(t: UnlistedTool) -> Seq<char> {
    match t {
        UnlistedTool::FindFile => FIND_FILE_DESCRIPTION@,
        UnlistedTool::ReadFile => READ_FILE_DESCRIPTION@,
    }
}

pub open spec fn unlisted_parameters(t: UnlistedTool) -> Seq<char> {
    match t {
        UnlistedTool::FindFile => FIND_FILE_PARAMETERS@,
        UnlistedTool::ReadFile => READ_FILE_PARAMETERS@,
    }
}

/// The spec of a tool that is not offered to the model.
pub fn unlisted_spec(t: UnlistedTool) -> (r: ToolDef)
    ensures
        r.kind@ == "function"@,
        r.function.name@ == unlisted_name(t),
        r.function.description@ == unlisted_description(t),
        r.function.parameters@ == unlisted_parameters(t),
{
    match t {
        UnlistedTool::FindFile => tool_def("find_file", FIND_FILE_DESCRIPTION, FIND_FILE_PARAMETERS),
        UnlistedTool::ReadFile => tool_def("read_file", READ_FILE_DESCRIPTION, READ_FILE_PARAMETERS),
    }
}

/// Where a path argument points after `~` expansion.
#[derive(Debug, Clone, PartialEq, Eq)]
pub enum TildePath {
    /// `~/rest`: `rest` under the home directory.
    UnderHome(String),
    /// `~` alone: the home directory.
    Home,
    /// Any other path, as written.
    AsWritten(String),
}

/// How a path argument is resolved: `~/rest` under home, `~` as home, anything
/// else as written.
pub fn tilde_path(s: &str) -> (r: TildePath)
    ensures
        match r {
            TildePath::UnderHome(rest) => s@.len() >= 2 && s@.take(2) == "~/"@ && rest@ == s@.subrange(2, s@.len() as int),
            TildePath::Home => s@ == "~"@,
            TildePath::AsWritten(p) => !(s@.len() >= 2 && s@.take(2) == "~/"@) && s@ != "~"@ && p@ == s@,
        },
{
    let v = crate::text::chars_of(s);
    proof {
        reveal_strlit("~/");
        reveal_strlit("~");
    }
    if v.len() >= 2 && v[0] == '~' && v[1] == '/' {
        assert(v@.take(2) =~= "~/"@);
        TildePath::UnderHome(string_of(crate::text::subvec(v.as_slice(), 2, v.len()).as_slice()))
    } else if v.len() == 1 && v[0] == '~' {
        assert(v@ =~= "~"@);
        TildePath::Home
    } else {
        proof {
            if v@.len() >= 2 && v@.take(2) == "~/"@ {
                assert(v@.take(2)[0] == '~' && v@.take(2)[1] == '/');
            }
            if v@ == "~"@ {
                assert(v@.len() == 1 && v@[0] == '~');
            }
        }
        TildePath::AsWritten(String::from_str(s))
    }
}

} // verus!
