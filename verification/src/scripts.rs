//! The decisions of the workspace script runner: which shell runs a script,
//! how a script is quoted and wrapped for that shell, which environment a
//! script sees, and how the outcome of a run is reported. The PTY, the
//! process and the event channel are driven by the host around these.

use vstd::prelude::*;

use crate::paths::{sep_in, win_body_start, win_body_start_exec, win_prefix, win_prefix_exec};
use crate::text::{
    chars_of, contains, contains_chars, decimal, decimal_string, replace_all, replace_lit, str_is,
    string_of, trim, trim_chars,
};

verus! {

/// An event of a script run, as the front end receives it.
#[derive(Debug, Clone)]
pub enum ScriptEvent {
    Started { pid: u32, command: String },
    Stdout { data: String },
    Stderr { data: String },
    Exited { code: Option<i32> },
    Error { message: String },
}

/// What a script gets to know about the workspace it runs in.
#[derive(Clone)]
pub struct ScriptContext {
    pub root_path: String,
    pub workspace_path: Option<String>,
    pub workspace_name: Option<String>,
    pub default_branch: Option<String>,
    pub port_base: Option<u16>,
    pub port_count: Option<u16>,
}

impl Default for ScriptContext {
    fn default() -> (r: Self)
        ensures
            r.root_path@ == Seq::<char>::empty(),
            r.workspace_path is None,
            r.workspace_name is None,
            r.default_branch is None,
            r.port_base is None,
            r.port_count is None,
    {
        ScriptContext {
            root_path: String::new(),
            workspace_path: None,
            workspace_name: None,
            default_branch: None,
            port_base: None,
            port_count: None,
        }
    }
}

// ---------------------------------------------------------------------------
// File names of shell paths
// ---------------------------------------------------------------------------

/// The end of the last separator in `s[lo..end]`, or `lo` when there is none.
pub open spec fn sep_end(s: Seq<char>, lo: int, end: int, verbatim: bool) -> int
    decreases end - lo,
{
    if end <= lo {
        lo
    } else if sep_in(s[end - 1], verbatim) {
        end
    } else {
        sep_end(s, lo, end - 1, verbatim)
    }
}

/// The bounds of the file name of the path body `s[lo..end]`: its last
/// component once trailing separators are dropped, and outside verbatim
/// paths also `.` components; none when no component is left or the last
/// one is `..` (or `.` in a verbatim path).
pub open spec fn file_name_bounds(s: Seq<char>, lo: int, end: int, verbatim: bool) -> Option<
    (int, int),
>
    decreases end - lo,
{
    if end <= lo {
        None
    } else if sep_in(s[end - 1], verbatim) {
        file_name_bounds(s, lo, end - 1, verbatim)
    } else {
        let b = sep_end(s, lo, end - 1, verbatim);
        if end - b == 1 && s[b] == '.' {
            if verbatim {
                None
            } else {
                file_name_bounds(s, lo, b, verbatim)
            }
        } else if end - b == 2 && s[b] == '.' && s[b + 1] == '.' {
            None
        } else {
            Some((b, end))
        }
    }
}

/// The file name of a Windows path (`Path::file_name`): the last component
/// after the prefix and root, as `win_prefix` and `win_body_start` find
/// them.
pub open spec fn file_name(s: Seq<char>) -> Option<Seq<char>> {
    match file_name_bounds(s, win_body_start(s), s.len() as int, win_prefix(s).1) {
        Some((b, e)) => Some(s.subrange(b, e)),
        None => None,
    }
}

/// The file name of a shell path, or the whole path when it has none.
pub open spec fn basename(s: Seq<char>) -> Seq<char> {
    match file_name(s) {
        Some(n) => n,
        None => s,
    }
}

fn sep_in_exec(c: char, verbatim: bool) -> (r: bool)
    ensures
        r == sep_in(c, verbatim),
{
    c == '\\' || (!verbatim && c == '/')
}

fn sep_end_exec(s: &Vec<char>, lo: usize, end: usize, verbatim: bool) -> (r: usize)
    requires
        lo <= end <= s@.len(),
    ensures
        r == sep_end(s@, lo as int, end as int, verbatim),
        lo <= r <= end,
{
    let mut e = end;
    while e > lo && !sep_in_exec(s[e - 1], verbatim)
        invariant
            lo <= e <= end <= s@.len(),
            sep_end(s@, lo as int, e as int, verbatim) == sep_end(s@, lo as int, end as int, verbatim),
        decreases e,
    {
        e = e - 1;
    }
    e
}

/// Computes `file_name_bounds` for the whole path.
fn file_name_bounds_exec(s: &Vec<char>) -> (r: Option<(usize, usize)>)
    ensures
        match r {
            Some((b, e)) => file_name_bounds(s@, win_body_start(s@), s@.len() as int, win_prefix(s@).1)
                == Some((b as int, e as int)) && b < e <= s@.len(),
            None => file_name_bounds(s@, win_body_start(s@), s@.len() as int, win_prefix(s@).1) is None,
        },
{
    let n = s.len();
    let (_, verbatim) = win_prefix_exec(s);
    let lo = win_body_start_exec(s);
    let mut end = n;
    loop
        invariant
            lo <= end <= n,
            n == s@.len(),
            lo as int == win_body_start(s@),
            verbatim == win_prefix(s@).1,
            file_name_bounds(s@, lo as int, end as int, verbatim) == file_name_bounds(
                s@,
                lo as int,
                n as int,
                verbatim,
            ),
        decreases end,
    {
        if end <= lo {
            return None;
        }
        if sep_in_exec(s[end - 1], verbatim) {
            end = end - 1;
        } else {
            let b = sep_end_exec(s, lo, end - 1, verbatim);
            if end - b == 1 && s[b] == '.' {
                if verbatim {
                    return None;
                }
                end = b;
            } else if end - b == 2 && s[b] == '.' && s[b + 1] == '.' {
                return None;
            } else {
                return Some((b, end));
            }
        }
    }
}

/// The file name of a shell path, or the path itself when it has none
/// (`Path::file_name` with Windows rules, falling back to the whole path).
pub fn shell_basename(shell_path: &str) -> (r: &str)
    ensures
        r@ == basename(shell_path@),
{
    let cs = chars_of(shell_path);
    match file_name_bounds_exec(&cs) {
        Some((b, e)) => shell_path.substring_char(b, e),
        None => shell_path,
    }
}

/// Shells that take POSIX `sh` syntax.
pub open spec fn is_bash_like_name(n: Seq<char>) -> bool {
    n == "bash"@ || n == "bash.exe"@ || n == "sh"@ || n == "sh.exe"@ || n == "zsh"@ || n
        == "zsh.exe"@
}

/// The fish shell.
pub open spec fn is_fish_name(n: Seq<char>) -> bool {
    n == "fish"@ || n == "fish.exe"@
}

/// Whether the shell at this path is bash, sh or zsh.
pub fn is_bash_like(shell_path: &str) -> (r: bool)
    ensures
        r == is_bash_like_name(basename(shell_path@)),
{
    let name = shell_basename(shell_path);
    str_is(name, "bash") || str_is(name, "bash.exe") || str_is(name, "sh") || str_is(
        name,
        "sh.exe",
    ) || str_is(name, "zsh") || str_is(name, "zsh.exe")
}

/// Whether the shell at this path is fish.
pub fn is_fish(shell_path: &str) -> (r: bool)
    ensures
        r == is_fish_name(basename(shell_path@)),
{
    let name = shell_basename(shell_path);
    str_is(name, "fish") || str_is(name, "fish.exe")
}

// ---------------------------------------------------------------------------
// Choosing the shell
// ---------------------------------------------------------------------------

/// The shell used when `$SHELL` names no usable shell and `%ComSpec%` is unset.
pub open spec fn default_comspec() -> Seq<char> {
    "C:\\Windows\\System32\\cmd.exe"@
}

/// Picks the interactive shell for scripts and terminals: `$SHELL` with
/// `-i -l` when it is an existing file and a bash-like shell or fish,
/// otherwise `%ComSpec%` (or the default `cmd.exe`) without arguments.
/// `shell_is_file` tells whether the `$SHELL` path names an existing file.
pub fn resolve_interactive_shell(
    shell: Option<&str>,
    shell_is_file: bool,
    comspec: Option<&str>,
) -> (r: (String, Vec<String>))
    ensures
        match shell {
            Some(s) if shell_is_file && (is_bash_like_name(basename(s@)) || is_fish_name(
                basename(s@),
            )) => r.0@ == s@ && r.1@.len() == 2 && r.1@[0]@ == "-i"@ && r.1@[1]@ == "-l"@,
            _ => r.1@.len() == 0 && r.0@ == match comspec {
                Some(c) => c@,
                None => default_comspec(),
            },
        },
{
    if let Some(s) = shell {
        if shell_is_file && (is_bash_like(s) || is_fish(s)) {
            let mut args: Vec<String> = Vec::new();
            args.push(String::from_str("-i"));
            args.push(String::from_str("-l"));
            return (String::from_str(s), args);
        }
    }
    let c = match comspec {
        Some(c) => String::from_str(c),
        None => String::from_str("C:\\Windows\\System32\\cmd.exe"),
    };
    (c, Vec::new())
}

// ---------------------------------------------------------------------------
// Quoting and wrapping scripts
// ---------------------------------------------------------------------------

/// `s` quoted for a POSIX shell: in single quotes, each `'` doubled.
pub open spec fn shell_quoted(s: Seq<char>) -> Seq<char> {
    "'"@ + replace_all(s, "'"@, "''"@) + "'"@
}

/// `s` quoted for fish: in double quotes, with `\`, `$` and `"` escaped by
/// a backslash.
pub open spec fn fish_quoted(s: Seq<char>) -> Seq<char> {
    "\""@ + replace_all(
        replace_all(replace_all(s, "\\"@, "\\\\"@), "$"@, "\\$"@),
        "\""@,
        "\\\""@,
    ) + "\""@
}

/// Law: the shells are told apart by file name alone. bash, sh and zsh
/// (with or without `.exe`) get the POSIX wrapping, fish (with or without
/// `.exe`) the fish wrapping, and any other shell the `cmd.exe` wrapping;
/// only those eight names count as a usable interactive shell.
pub proof fn law_wrapped_script_by_shell(shell_path: Seq<char>, script: Seq<char>)
    ensures
        ({
            let n = basename(shell_path);
            n == "bash"@ || n == "bash.exe"@ || n == "sh"@ || n == "sh.exe"@ || n == "zsh"@ || n
                == "zsh.exe"@
        }) ==> wrapped_script(shell_path, script) == "eval "@ + ("'"@ + replace_all(
            script,
            "'"@,
            "''"@,
        ) + "'"@)
            + "; __helmor_ec=$?; printf '\\r\\n\\033[2m[Completed with exit code %d]\\033[0m\\r\\n' $__helmor_ec; exit $__helmor_ec\r\n"@,
        ({
            let n = basename(shell_path);
            n == "fish"@ || n == "fish.exe"@
        }) ==> wrapped_script(shell_path, script) == "eval "@ + ("\""@ + replace_all(
            replace_all(replace_all(script, "\\"@, "\\\\"@), "$"@, "\\$"@),
            "\""@,
            "\\\""@,
        ) + "\""@)
            + "; set -l __helmor_ec $status; printf '\\r\\n\\033[2m[Completed with exit code %d]\\033[0m\\r\\n' $__helmor_ec; exit $__helmor_ec\r\n"@,
        ({
            let n = basename(shell_path);
            !(n == "bash"@ || n == "bash.exe"@ || n == "sh"@ || n == "sh.exe"@ || n == "zsh"@ || n
                == "zsh.exe"@ || n == "fish"@ || n == "fish.exe"@)
        }) ==> wrapped_script(shell_path, script) == script
            + "\r\necho.\r\necho [Completed with exit code %ERRORLEVEL%]\r\nexit /b %ERRORLEVEL%\r\n"@,
        ({
            let n = basename(shell_path);
            (is_bash_like_name(n) || is_fish_name(n)) <==> (n == "bash"@ || n == "bash.exe"@ || n
                == "sh"@ || n == "sh.exe"@ || n == "zsh"@ || n == "zsh.exe"@ || n == "fish"@ || n
                == "fish.exe"@)
        }),
{
    reveal_strlit("bash");
    reveal_strlit("bash.exe");
    reveal_strlit("sh");
    reveal_strlit("sh.exe");
    reveal_strlit("zsh");
    reveal_strlit("zsh.exe");
    reveal_strlit("fish");
    reveal_strlit("fish.exe");
    assert("bash"@[0] != "fish"@[0]);
    assert("bash.exe"@[0] != "fish.exe"@[0]);
    assert("bash"@.len() != "fish.exe"@.len());
    assert("bash.exe"@.len() != "fish"@.len());
    assert("sh"@.len() != "fish"@.len() && "sh"@.len() != "fish.exe"@.len());
    assert("sh.exe"@.len() != "fish"@.len() && "sh.exe"@.len() != "fish.exe"@.len());
    assert("zsh"@.len() != "fish"@.len() && "zsh"@.len() != "fish.exe"@.len());
    assert("zsh.exe"@.len() != "fish"@.len() && "zsh.exe"@.len() != "fish.exe"@.len());
}

/// Quotes `s` for a POSIX shell.
pub fn shell_escape(s: &str) -> (r: String)
    ensures
        r@ == shell_quoted(s@),
{
    proof {
        reveal_strlit("'");
    }
    let cs = chars_of(s);
    let body = replace_lit(&cs, "'", "''");
    let mut out = String::from_str("'");
    let b = string_of(&body);
    out.append(b.as_str());
    out.append("'");
    out
}

/// Quotes `s` for fish.
pub fn fish_shell_escape(s: &str) -> (r: String)
    ensures
        r@ == fish_quoted(s@),
{
    proof {
        reveal_strlit("\\");
        reveal_strlit("$");
        reveal_strlit("\"");
    }
    let cs = chars_of(s);
    let a = replace_lit(&cs, "\\", "\\\\");
    let b = replace_lit(&a, "$", "\\$");
    let c = replace_lit(&b, "\"", "\\\"");
    let mut out = String::from_str("\"");
    let body = string_of(&c);
    out.append(body.as_str());
    out.append("\"");
    out
}

/// What follows the quoted script for fish: keep the exit status, print it
/// dimmed, and exit with it.
pub open spec fn fish_epilogue() -> Seq<char> {
    "; set -l __helmor_ec $status; printf '\\r\\n\\033[2m[Completed with exit code %d]\\033[0m\\r\\n' $__helmor_ec; exit $__helmor_ec\r\n"@
}

/// What follows the quoted script for a POSIX shell.
pub open spec fn posix_epilogue() -> Seq<char> {
    "; __helmor_ec=$?; printf '\\r\\n\\033[2m[Completed with exit code %d]\\033[0m\\r\\n' $__helmor_ec; exit $__helmor_ec\r\n"@
}

/// What follows the script for `cmd.exe`.
pub open spec fn cmd_epilogue() -> Seq<char> {
    "\r\necho.\r\necho [Completed with exit code %ERRORLEVEL%]\r\nexit /b %ERRORLEVEL%\r\n"@
}

/// The text typed into the shell to run `script` and report its exit code.
pub open spec fn wrapped_script(shell_path: Seq<char>, script: Seq<char>) -> Seq<char> {
    if is_fish_name(basename(shell_path)) {
        "eval "@ + fish_quoted(script) + fish_epilogue()
    } else if is_bash_like_name(basename(shell_path)) {
        "eval "@ + shell_quoted(script) + posix_epilogue()
    } else {
        script + cmd_epilogue()
    }
}

/// Wraps `script` for the shell at `shell_path` so that the shell runs it,
/// prints the exit code and exits with it.
pub fn wrapped_script_for_shell(shell_path: &str, script: &str) -> (r: String)
    ensures
        r@ == wrapped_script(shell_path@, script@),
{
    if is_fish(shell_path) {
        let mut out = String::from_str("eval ");
        let q = fish_shell_escape(script);
        out.append(q.as_str());
        out.append(
            "; set -l __helmor_ec $status; printf '\\r\\n\\033[2m[Completed with exit code %d]\\033[0m\\r\\n' $__helmor_ec; exit $__helmor_ec\r\n",
        );
        return out;
    }
    if is_bash_like(shell_path) {
        let mut out = String::from_str("eval ");
        let q = shell_escape(script);
        out.append(q.as_str());
        out.append(
            "; __helmor_ec=$?; printf '\\r\\n\\033[2m[Completed with exit code %d]\\033[0m\\r\\n' $__helmor_ec; exit $__helmor_ec\r\n",
        );
        return out;
    }
    let mut out = String::from_str(script);
    out.append("\r\necho.\r\necho [Completed with exit code %ERRORLEVEL%]\r\nexit /b %ERRORLEVEL%\r\n");
    out
}

// ---------------------------------------------------------------------------
// The environment of a script
// ---------------------------------------------------------------------------

/// An environment variable assignment, as character sequences.
pub type EnvPair = (Seq<char>, Seq<char>);

/// The character sequences of a list of variable assignments.
pub open spec fn env_view(v: Seq<(String, String)>) -> Seq<EnvPair> {
    v.map_values(|p: (String, String)| (p.0@, p.1@))
}

/// One assignment when the value is present, none otherwise.
pub open spec fn optional_var(name: Seq<char>, value: Option<String>) -> Seq<EnvPair> {
    match value {
        Some(v) => seq![(name, v@)],
        None => Seq::<EnvPair>::empty(),
    }
}

/// The port assignments: both, when the base port and the count are known.
pub open spec fn port_vars(base: Option<u16>, count: Option<u16>) -> Seq<EnvPair> {
    match (base, count) {
        (Some(b), Some(c)) => seq![
            ("HELMOR_PORT"@, decimal(b as nat)),
            ("HELMOR_PORT_COUNT"@, decimal(c as nat)),
        ],
        _ => Seq::<EnvPair>::empty(),
    }
}

/// The variables a script runs with, in the order they are set: colour
/// support, the repository root, the workspace path, name and default
/// branch when known, and the port range when both its parts are known.
pub open spec fn script_env(ctx: ScriptContext) -> Seq<EnvPair> {
    seq![
        ("TERM"@, "xterm-256color"@),
        ("FORCE_COLOR"@, "1"@),
        ("CLICOLOR_FORCE"@, "1"@),
        ("HELMOR_ROOT_PATH"@, ctx.root_path@),
    ] + optional_var("HELMOR_WORKSPACE_PATH"@, ctx.workspace_path) + optional_var(
        "HELMOR_WORKSPACE_NAME"@,
        ctx.workspace_name,
    ) + optional_var("HELMOR_DEFAULT_BRANCH"@, ctx.default_branch) + port_vars(
        ctx.port_base,
        ctx.port_count,
    )
}

/// Law: a script always sees `TERM=xterm-256color`, `FORCE_COLOR=1`,
/// `CLICOLOR_FORCE=1` and `HELMOR_ROOT_PATH` first; then one variable for
/// each known workspace path, name and default branch; and the port range,
/// as decimal numbers, exactly when both the base port and the count are
/// known.
pub proof fn law_script_env(ctx: ScriptContext)
    ensures
        script_env(ctx).len() == 4 + (if ctx.workspace_path is Some { 1int } else { 0int }) + (
        if ctx.workspace_name is Some { 1int } else { 0int }) + (if ctx.default_branch is Some {
            1int
        } else {
            0int
        }) + (if ctx.port_base is Some && ctx.port_count is Some { 2int } else { 0int }),
        script_env(ctx)[0] == ("TERM"@, "xterm-256color"@),
        script_env(ctx)[1] == ("FORCE_COLOR"@, "1"@),
        script_env(ctx)[2] == ("CLICOLOR_FORCE"@, "1"@),
        script_env(ctx)[3] == ("HELMOR_ROOT_PATH"@, ctx.root_path@),
        ctx.workspace_path is Some ==> script_env(ctx)[4] == ("HELMOR_WORKSPACE_PATH"@,
            ctx.workspace_path.unwrap()@),
        ctx.port_base is Some && ctx.port_count is Some ==> {
            let n = script_env(ctx).len();
            &&& script_env(ctx)[n - 2] == ("HELMOR_PORT"@, decimal(ctx.port_base.unwrap() as nat))
            &&& script_env(ctx)[n - 1] == ("HELMOR_PORT_COUNT"@, decimal(
                ctx.port_count.unwrap() as nat,
            ))
        },
{
    let head = seq![
        ("TERM"@, "xterm-256color"@),
        ("FORCE_COLOR"@, "1"@),
        ("CLICOLOR_FORCE"@, "1"@),
        ("HELMOR_ROOT_PATH"@, ctx.root_path@),
    ];
    let a = optional_var("HELMOR_WORKSPACE_PATH"@, ctx.workspace_path);
    let b = optional_var("HELMOR_WORKSPACE_NAME"@, ctx.workspace_name);
    let c = optional_var("HELMOR_DEFAULT_BRANCH"@, ctx.default_branch);
    let d = port_vars(ctx.port_base, ctx.port_count);
    let e = script_env(ctx);
    assert(e == head + a + b + c + d);
    assert(e[0] == head[0] && e[1] == head[1] && e[2] == head[2] && e[3] == head[3]);
    if ctx.workspace_path is Some {
        assert(e[4] == a[0]);
    }
    if ctx.port_base is Some && ctx.port_count is Some {
        let n = e.len();
        assert(e[n - 2] == d[0]);
        assert(e[n - 1] == d[1]);
    }
}

fn push_var(v: &mut Vec<(String, String)>, name: &str, value: String)
    ensures
        env_view(final(v)@) == env_view(old(v)@).push((name@, value@)),
{
    let ghost value_view = value@;
    v.push((String::from_str(name), value));
    assert(env_view(v@) =~= env_view(old(v)@).push((name@, value_view)));
}

fn push_optional_var(v: &mut Vec<(String, String)>, name: &str, value: &Option<String>)
    ensures
        env_view(final(v)@) == env_view(old(v)@) + optional_var(name@, *value),
{
    match value {
        Some(s) => {
            push_var(v, name, s.clone());
            assert(env_view(v@) =~= env_view(old(v)@) + optional_var(name@, *value));
        },
        None => {
            assert(env_view(v@) =~= env_view(old(v)@) + optional_var(name@, *value));
        },
    }
}

/// The environment variables to set for a script run in `context`.
pub fn script_environment(context: &ScriptContext) -> (r: Vec<(String, String)>)
    ensures
        env_view(r@) == script_env(*context),
{
    let mut v: Vec<(String, String)> = Vec::new();
    push_var(&mut v, "TERM", String::from_str("xterm-256color"));
    push_var(&mut v, "FORCE_COLOR", String::from_str("1"));
    push_var(&mut v, "CLICOLOR_FORCE", String::from_str("1"));
    push_var(&mut v, "HELMOR_ROOT_PATH", context.root_path.clone());
    let ghost head = env_view(v@);
    assert(head =~= seq![
        ("TERM"@, "xterm-256color"@),
        ("FORCE_COLOR"@, "1"@),
        ("CLICOLOR_FORCE"@, "1"@),
        ("HELMOR_ROOT_PATH"@, context.root_path@),
    ]);
    push_optional_var(&mut v, "HELMOR_WORKSPACE_PATH", &context.workspace_path);
    push_optional_var(&mut v, "HELMOR_WORKSPACE_NAME", &context.workspace_name);
    push_optional_var(&mut v, "HELMOR_DEFAULT_BRANCH", &context.default_branch);
    let ghost before_ports = env_view(v@);
    match (context.port_base, context.port_count) {
        (Some(base), Some(count)) => {
            push_var(&mut v, "HELMOR_PORT", decimal_string(base as u32));
            push_var(&mut v, "HELMOR_PORT_COUNT", decimal_string(count as u32));
            assert(env_view(v@) =~= before_ports + port_vars(context.port_base, context.port_count));
        },
        _ => {
            assert(env_view(v@) =~= before_ports + port_vars(context.port_base, context.port_count));
        },
    }
    assert(env_view(v@) =~= script_env(*context));
    v
}

// ---------------------------------------------------------------------------
// Starting and finishing a run
// ---------------------------------------------------------------------------

/// Why a script run is refused before it starts.
pub enum ScriptError {
    /// The script holds nothing but white space.
    EmptyScript,
}

impl ScriptError {
    /// The message shown for the error.
    pub fn message(&self) -> (r: String)
        ensures
            r@ == "Script is empty"@,
    {
        String::from_str("Script is empty")
    }
}

/// A run is refused exactly when it has a script made only of white space.
pub fn check_script(script: Option<&str>) -> (r: Result<(), ScriptError>)
    ensures
        r is Err <==> (script matches Some(s) && trim(s@).len() == 0),
{
    match script {
        Some(s) => {
            let cs = chars_of(s);
            let t = trim_chars(&cs);
            if t.len() == 0 {
                Err(ScriptError::EmptyScript)
            } else {
                Ok(())
            }
        },
        None => Ok(()),
    }
}

/// `parts` joined with single spaces (`[&str]::join(" ")`).
pub open spec fn join_spaces(parts: Seq<Seq<char>>) -> Seq<char>
    decreases parts.len(),
{
    if parts.len() == 0 {
        Seq::<char>::empty()
    } else if parts.len() == 1 {
        parts[0]
    } else {
        join_spaces(parts.drop_last()) + " "@ + parts.last()
    }
}

/// The character sequences of a list of strings.
pub open spec fn strings_view(v: Seq<String>) -> Seq<Seq<char>> {
    v.map_values(|s: String| s@)
}

/// The command line reported when a run starts: the script itself, or for a
/// terminal session the shell path followed by a space and its arguments.
pub open spec fn started_command_text(
    script: Option<Seq<char>>,
    shell_path: Seq<char>,
    shell_args: Seq<Seq<char>>,
) -> Seq<char> {
    match script {
        Some(s) => s,
        None => shell_path + " "@ + join_spaces(shell_args),
    }
}

/// Joins strings with single spaces.
pub fn join_with_spaces(parts: &Vec<String>) -> (r: String)
    ensures
        r@ == join_spaces(strings_view(parts@)),
{
    let ghost pv = strings_view(parts@);
    let mut out = String::new();
    let mut i: usize = 0;
    while i < parts.len()
        invariant
            i <= parts@.len(),
            pv == strings_view(parts@),
            out@ == join_spaces(pv.subrange(0, i as int)),
        decreases parts@.len() - i,
    {
        let ghost prev = out@;
        if i > 0 {
            out.append(" ");
        }
        out.append(parts[i].as_str());
        i = i + 1;
        proof {
            let sub = pv.subrange(0, i as int);
            assert(sub.drop_last() =~= pv.subrange(0, (i - 1) as int));
            assert(sub.last() == parts@[i - 1]@);
            if i == 1 {
                assert(prev =~= Seq::<char>::empty());
                assert(out@ =~= sub[0]);
            } else {
                assert(out@ =~= join_spaces(sub.drop_last()) + " "@ + sub.last());
            }
        }
    }
    assert(pv.subrange(0, parts@.len() as int) =~= pv);
    out
}

/// The command line reported in the `Started` event of a run.
pub fn started_command(script: Option<&str>, shell_path: &str, shell_args: &Vec<String>) -> (r:
    String)
    ensures
        r@ == started_command_text(
            match script {
                Some(s) => Some(s@),
                None => None::<Seq<char>>,
            },
            shell_path@,
            strings_view(shell_args@),
        ),
{
    match script {
        Some(s) => String::from_str(s),
        None => {
            let mut out = String::from_str(shell_path);
            out.append(" ");
            let joined = join_with_spaces(shell_args);
            out.append(joined.as_str());
            out
        },
    }
}

/// What is typed into the PTY first: the wrapped script, or else the
/// terminal's boot input, if any.
pub fn initial_input(shell_path: &str, script: Option<&str>, boot_input: Option<&str>) -> (r:
    Option<String>)
    ensures
        match script {
            Some(s) => r matches Some(t) && t@ == wrapped_script(shell_path@, s@),
            None => match boot_input {
                Some(b) => r matches Some(t) && t@ == b@,
                None => r is None,
            },
        },
{
    match script {
        Some(s) => Some(wrapped_script_for_shell(shell_path, s)),
        None => match boot_input {
            Some(b) => Some(String::from_str(b)),
            None => None,
        },
    }
}

/// The exit status code as the signed code the front end receives (the
/// same 32 bits).
pub fn exit_code_of_status(code: u32) -> (r: i32)
    ensures
        r == code as i32,
{
    code as i32
}

/// The exit code reported for a finished run: none when the run was killed
/// on purpose, otherwise the code the process ended with, if known.
pub fn reported_exit_code(killed: bool, exit_code: Option<i32>) -> (r: Option<i32>)
    ensures
        r == (if killed { None } else { exit_code }),
{
    if killed {
        None
    } else {
        exit_code
    }
}

// ---------------------------------------------------------------------------
// Writing to a PTY
// ---------------------------------------------------------------------------

/// Milliseconds a stopped process gets to end after the kill request.
pub const PROCESS_TERM_TIMEOUT_MS: u64 = 200;

/// Further milliseconds allowed for a forced kill to take effect.
pub const PROCESS_KILL_TIMEOUT_MS: u64 = 500;

/// Milliseconds between two checks whether a killed process is gone.
pub const PTY_POLL_INTERVAL_MS: u64 = 25;

/// Milliseconds to wait before retrying a write the PTY refused for now.
pub const PTY_WRITE_RETRY_MS: u64 = 5;

/// Milliseconds a write to a PTY may take in all.
pub const PTY_WRITE_DEADLINE_MS: u64 = 500;

/// What one attempt to write to the PTY gave.
pub enum WriteOutcome {
    /// This many bytes were written.
    Wrote(usize),
    /// The PTY would have blocked.
    WouldBlock,
    /// Any other error.
    Failed,
}

/// Why writing to the PTY was given up.
pub enum WriteFailure {
    /// The PTY accepted no byte.
    ZeroWrite,
    /// The PTY kept refusing until the deadline passed.
    TimedOut,
    /// The write failed.
    Io,
}

/// What the writer does next.
pub enum WriteStep {
    /// Drop this many bytes from the front of what is left and go on.
    Advance(usize),
    /// Wait a little and try again.
    Retry,
    /// Stop with an error.
    Fail(WriteFailure),
}

/// Decides the next step of a PTY write after one attempt, given whether the
/// deadline has passed. `remaining` is the number of bytes still to write
/// (which the attempt was given).
pub fn next_write_step(remaining: usize, outcome: WriteOutcome, deadline_passed: bool) -> (r:
    WriteStep)
    requires
        outcome matches WriteOutcome::Wrote(n) ==> n <= remaining,
    ensures
        match outcome {
            WriteOutcome::Wrote(n) => if n == 0 {
                r matches WriteStep::Fail(WriteFailure::ZeroWrite)
            } else {
                r matches WriteStep::Advance(m) && m == n
            },
            WriteOutcome::WouldBlock => if deadline_passed {
                r matches WriteStep::Fail(WriteFailure::TimedOut)
            } else {
                r is Retry
            },
            WriteOutcome::Failed => r matches WriteStep::Fail(WriteFailure::Io),
        },
{
    match outcome {
        WriteOutcome::Wrote(n) => if n == 0 {
            WriteStep::Fail(WriteFailure::ZeroWrite)
        } else {
            WriteStep::Advance(n)
        },
        WriteOutcome::WouldBlock => if deadline_passed {
            WriteStep::Fail(WriteFailure::TimedOut)
        } else {
            WriteStep::Retry
        },
        WriteOutcome::Failed => WriteStep::Fail(WriteFailure::Io),
    }
}

// ---------------------------------------------------------------------------
// Whether a killed process is gone
// ---------------------------------------------------------------------------

/// What `taskkill /PID` says on standard error about a process that no
/// longer exists, in English or Chinese.
pub open spec fn reports_missing_process(stderr: Seq<char>) -> bool {
    contains(stderr, "not found"@) || contains(stderr, "\u{627e}\u{4e0d}\u{5230}"@)
}

/// Whether a process is gone, from a `taskkill /PID` probe: when the probe
/// could not run (`None`) it counts as gone; otherwise its standard error
/// must report the process missing.
pub fn pid_gone_from_probe(stderr: Option<&str>) -> (r: bool)
    ensures
        r == match stderr {
            Some(e) => reports_missing_process(e@),
            None => true,
        },
{
    match stderr {
        Some(e) => {
            let cs = chars_of(e);
            let a = chars_of("not found");
            let b = chars_of("\u{627e}\u{4e0d}\u{5230}");
            contains_chars(&cs, &a) || contains_chars(&cs, &b)
        },
        None => true,
    }
}

} // verus!
