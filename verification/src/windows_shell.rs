//! Windows shell integration: path templates, Explorer and console command
//! lines, locating Windows Terminal and JetBrains Toolbox installs, and the
//! PowerShell scripts that edit the user's PATH and the clipboard. The host
//! runs the processes and reads the file system; what to run and what to
//! pick is decided here.

use vstd::prelude::*;

use crate::text::{
    chars_of, contains, first_line, first_line_chars, occurs_at, replace_all, replace_lit, starts_with,
    starts_with_chars, str_is, string_of, trim, trim_chars,
};

verus! {

/// `CreateProcess` flag: do not allocate a visible console for the child.
pub const CREATE_NO_WINDOW: u32 = 0x0800_0000;

// ---------------------------------------------------------------------------
// Path templates
// ---------------------------------------------------------------------------

/// The values of the environment variables a path template may name, each
/// `None` when unset (or not Unicode). `home` is `USERPROFILE`, or `HOME`
/// when that is unset.
pub struct TemplateEnv {
    pub user_profile: Option<String>,
    pub local_app_data: Option<String>,
    pub app_data: Option<String>,
    pub program_files: Option<String>,
    pub program_files_x86: Option<String>,
    pub home: Option<String>,
}

/// Replaces `token` by the value when there is one.
pub open spec fn substitute(s: Seq<char>, token: Seq<char>, value: Option<String>) -> Seq<char> {
    match value {
        Some(v) => replace_all(s, token, v@),
        None => s,
    }
}

/// The template with `%USERPROFILE%`, `%LOCALAPPDATA%`, `%APPDATA%`,
/// `%ProgramFiles%`, `%ProgramFiles(x86)%` and then `$HOME` replaced, one
/// after the other, by the values that are set.
pub open spec fn expanded_template(raw: Seq<char>, env: TemplateEnv) -> Seq<char> {
    let a = substitute(raw, "%USERPROFILE%"@, env.user_profile);
    let b = substitute(a, "%LOCALAPPDATA%"@, env.local_app_data);
    let c = substitute(b, "%APPDATA%"@, env.app_data);
    let d = substitute(c, "%ProgramFiles%"@, env.program_files);
    let e = substitute(d, "%ProgramFiles(x86)%"@, env.program_files_x86);
    substitute(e, "$HOME"@, env.home)
}

fn substitute_exec(s: &Vec<char>, token: &str, value: &Option<String>) -> (r: Vec<char>)
    requires
        token@.len() > 0,
    ensures
        r@ == substitute(s@, token@, *value),
{
    match value {
        Some(v) => replace_lit(s, token, v.as_str()),
        None => {
            let mut out: Vec<char> = Vec::new();
            crate::text::extend_chars(&mut out, s);
            assert(out@ =~= s@);
            out
        },
    }
}

/// Expands the environment tokens of a path template.
pub fn expand_path_template(raw: &str, env: &TemplateEnv) -> (r: String)
    ensures
        r@ == expanded_template(raw@, *env),
{
    proof {
        reveal_strlit("%USERPROFILE%");
        reveal_strlit("%LOCALAPPDATA%");
        reveal_strlit("%APPDATA%");
        reveal_strlit("%ProgramFiles%");
        reveal_strlit("%ProgramFiles(x86)%");
        reveal_strlit("$HOME");
    }
    let s0 = chars_of(raw);
    let s1 = substitute_exec(&s0, "%USERPROFILE%", &env.user_profile);
    let s2 = substitute_exec(&s1, "%LOCALAPPDATA%", &env.local_app_data);
    let s3 = substitute_exec(&s2, "%APPDATA%", &env.app_data);
    let s4 = substitute_exec(&s3, "%ProgramFiles%", &env.program_files);
    let s5 = substitute_exec(&s4, "%ProgramFiles(x86)%", &env.program_files_x86);
    let s6 = substitute_exec(&s5, "$HOME", &env.home);
    string_of(&s6)
}

/// Replacing a pattern whose first character does not occur leaves the text
/// as it is.
proof fn lemma_replace_absent(s: Seq<char>, pat: Seq<char>, rep: Seq<char>)
    requires
        pat.len() > 0,
        forall|i: int| 0 <= i < s.len() ==> #[trigger] s[i] != pat[0],
    ensures
        replace_all(s, pat, rep) == s,
    decreases s.len(),
{
    if s.len() > 0 {
        assert(!occurs_at(s, pat, 0)) by {
            if occurs_at(s, pat, 0) {
                assert(s.subrange(0, pat.len() as int)[0] == s[0]);
            }
        }
        let rest = s.drop_first();
        assert forall|i: int| 0 <= i < rest.len() implies #[trigger] rest[i] != pat[0] by {
            assert(rest[i] == s[i + 1]);
        }
        lemma_replace_absent(rest, pat, rep);
        assert(seq![s[0]] + rest =~= s);
    }
}

/// Law: a template without `%` and `$` comes back unchanged, whatever the
/// environment holds.
pub proof fn law_plain_template_unchanged(raw: Seq<char>, env: TemplateEnv)
    requires
        forall|i: int| 0 <= i < raw.len() ==> #[trigger] raw[i] != '%' && raw[i] != '$',
    ensures
        expanded_template(raw, env) == raw,
{
    reveal_strlit("%USERPROFILE%");
    reveal_strlit("%LOCALAPPDATA%");
    reveal_strlit("%APPDATA%");
    reveal_strlit("%ProgramFiles%");
    reveal_strlit("%ProgramFiles(x86)%");
    reveal_strlit("$HOME");
    if let Some(v) = env.user_profile {
        lemma_replace_absent(raw, "%USERPROFILE%"@, v@);
    }
    if let Some(v) = env.local_app_data {
        lemma_replace_absent(raw, "%LOCALAPPDATA%"@, v@);
    }
    if let Some(v) = env.app_data {
        lemma_replace_absent(raw, "%APPDATA%"@, v@);
    }
    if let Some(v) = env.program_files {
        lemma_replace_absent(raw, "%ProgramFiles%"@, v@);
    }
    if let Some(v) = env.program_files_x86 {
        lemma_replace_absent(raw, "%ProgramFiles(x86)%"@, v@);
    }
    if let Some(v) = env.home {
        lemma_replace_absent(raw, "$HOME"@, v@);
    }
}

/// No `%` and no `$`: text in which no template token can start.
pub open spec fn plain_text(t: Seq<char>) -> bool {
    forall|i: int| 0 <= i < t.len() ==> #[trigger] t[i] != '%' && t[i] != '$'
}

/// No `%` in `s[from..to]`.
spec fn pct_free(s: Seq<char>, from: int, to: int) -> bool
    decreases to - from,
{
    from >= to || (s[from] != '%' && pct_free(s, from + 1, to))
}

proof fn lemma_pct_free(s: Seq<char>, from: int, to: int)
    requires
        pct_free(s, from, to),
    ensures
        forall|i: int| from <= i < to ==> #[trigger] s[i] != '%',
    decreases to - from,
{
    if from < to {
        lemma_pct_free(s, from + 1, to);
    }
}

/// Replacing a pattern that does not occur leaves the text as it is.
proof fn lemma_replace_not_contained(s: Seq<char>, pat: Seq<char>, rep: Seq<char>)
    requires
        pat.len() > 0,
        !contains(s, pat),
    ensures
        replace_all(s, pat, rep) == s,
    decreases s.len(),
{
    if s.len() > 0 {
        assert(!occurs_at(s, pat, 0));
        let rest = s.drop_first();
        assert(!contains(rest, pat)) by {
            if contains(rest, pat) {
                let i = choose|i: int| occurs_at(rest, pat, i);
                assert(rest.subrange(i, i + pat.len()) =~= s.subrange(i + 1, i + 1 + pat.len()));
                assert(occurs_at(s, pat, i + 1));
            }
        }
        lemma_replace_not_contained(rest, pat, rep);
        assert(seq![s[0]] + rest =~= s);
    }
}

/// A `%…%` token does not occur in another token followed by `%`-free text.
proof fn lemma_other_token_absent(tok: Seq<char>, q: Seq<char>, t: Seq<char>)
    requires
        tok.len() >= 2,
        q.len() >= 2,
        tok[0] == '%',
        tok[tok.len() - 1] == '%',
        pct_free(tok, 1, tok.len() - 1),
        q[0] == '%',
        q[q.len() - 1] == '%',
        forall|i: int| 0 <= i < t.len() ==> #[trigger] t[i] != '%',
        tok != q,
    ensures
        !contains(tok + t, q),
{
    lemma_pct_free(tok, 1, tok.len() - 1);
    let s = tok + t;
    let tl = tok.len() as int;
    assert forall|j: int| 0 <= j < s.len() && s[j] == '%' implies j == 0 || j == tl - 1 by {
        if j >= tl {
            assert(s[j] == t[j - tl]);
        } else if 0 < j < tl - 1 {
            assert(s[j] == tok[j]);
        }
    }
    if contains(s, q) {
        let i = choose|i: int| occurs_at(s, q, i);
        let ql = q.len() as int;
        assert(s.subrange(i, i + ql)[0] == q[0]);
        assert(s.subrange(i, i + ql)[ql - 1] == q[ql - 1]);
        assert(s[i] == '%');
        assert(s[i + ql - 1] == '%');
        if i == 0 {
            assert(ql == tl);
            assert(q =~= tok) by {
                assert forall|k: int| 0 <= k < ql implies q[k] == tok[k] by {
                    assert(s.subrange(0, ql)[k] == s[k]);
                }
            }
        }
    }
}

/// A plain text holds none of the template tokens.
proof fn lemma_plain_has_no_token(t: Seq<char>, q: Seq<char>, rep: Seq<char>)
    requires
        plain_text(t),
        q.len() > 0,
        q[0] == '%' || q[0] == '$',
    ensures
        replace_all(t, q, rep) == t,
{
    assert forall|i: int| 0 <= i < t.len() implies #[trigger] t[i] != q[0] by {
        assert(t[i] != '%' && t[i] != '$');
    }
    lemma_replace_absent(t, q, rep);
}

/// Replacing a token at the very start of `tok + t`, where `t` holds no
/// `%` or `$`.
proof fn lemma_replace_leading_token(tok: Seq<char>, t: Seq<char>, v: Seq<char>)
    requires
        tok.len() > 0,
        tok[0] == '%' || tok[0] == '$',
        plain_text(t),
    ensures
        replace_all(tok + t, tok, v) == v + t,
{
    let s = tok + t;
    assert(s.subrange(0, tok.len() as int) =~= tok);
    assert(occurs_at(s, tok, 0));
    assert(s.subrange(tok.len() as int, s.len() as int) =~= t);
    lemma_plain_has_no_token(t, tok, v);
}

proof fn lemma_plain_concat(v: Seq<char>, t: Seq<char>)
    requires
        plain_text(v),
        plain_text(t),
    ensures
        plain_text(v + t),
{
    assert forall|i: int| 0 <= i < (v + t).len() implies #[trigger] (v + t)[i] != '%' && (v
        + t)[i] != '$' by {
        if i < v.len() {
            assert((v + t)[i] == v[i]);
        } else {
            assert((v + t)[i] == t[i - v.len()]);
        }
    }
}

/// Substituting into text where the token does not occur changes nothing.
proof fn lemma_substitute_absent(s: Seq<char>, token: Seq<char>, value: Option<String>)
    requires
        token.len() > 0,
        !contains(s, token),
    ensures
        substitute(s, token, value) == s,
{
    if let Some(v) = value {
        lemma_replace_not_contained(s, token, v@);
    }
}

/// Substituting a `%`/`$` token into plain text changes nothing.
proof fn lemma_substitute_plain(s: Seq<char>, token: Seq<char>, value: Option<String>)
    requires
        plain_text(s),
        token.len() > 0,
        token[0] == '%' || token[0] == '$',
    ensures
        substitute(s, token, value) == s,
{
    if let Some(v) = value {
        lemma_plain_has_no_token(s, token, v@);
    }
}

/// Law: each token is replaced by its variable's value when that is set:
/// a template made of one token followed by plain text `t` expands to the
/// value followed by `t`, whatever the other variables hold (the value and
/// `t` being free of `%` and `$`).
pub proof fn law_template_token_expands(env: TemplateEnv, t: Seq<char>)
    requires
        plain_text(t),
    ensures
        env.user_profile is Some && plain_text(env.user_profile.unwrap()@) ==> expanded_template(
            "%USERPROFILE%"@ + t,
            env,
        ) == env.user_profile.unwrap()@ + t,
        env.local_app_data is Some && plain_text(env.local_app_data.unwrap()@)
            ==> expanded_template("%LOCALAPPDATA%"@ + t, env) == env.local_app_data.unwrap()@ + t,
        env.app_data is Some && plain_text(env.app_data.unwrap()@) ==> expanded_template(
            "%APPDATA%"@ + t,
            env,
        ) == env.app_data.unwrap()@ + t,
        env.program_files is Some && plain_text(env.program_files.unwrap()@) ==> expanded_template(
            "%ProgramFiles%"@ + t,
            env,
        ) == env.program_files.unwrap()@ + t,
        env.program_files_x86 is Some && plain_text(env.program_files_x86.unwrap()@)
            ==> expanded_template("%ProgramFiles(x86)%"@ + t, env) == env.program_files_x86.unwrap()@
            + t,
        env.home is Some && plain_text(env.home.unwrap()@) ==> expanded_template("$HOME"@ + t, env)
            == env.home.unwrap()@ + t,
{
    reveal_strlit("%USERPROFILE%");
    reveal_strlit("%LOCALAPPDATA%");
    reveal_strlit("%APPDATA%");
    reveal_strlit("%ProgramFiles%");
    reveal_strlit("%ProgramFiles(x86)%");
    reveal_strlit("$HOME");
    let up = "%USERPROFILE%"@;
    let la = "%LOCALAPPDATA%"@;
    let ad = "%APPDATA%"@;
    let pf = "%ProgramFiles%"@;
    let px = "%ProgramFiles(x86)%"@;
    let hm = "$HOME"@;
    assert(pct_free(up, 1, up.len() - 1)) by { reveal_with_fuel(pct_free, 20); }
    assert(pct_free(la, 1, la.len() - 1)) by { reveal_with_fuel(pct_free, 20); }
    assert(pct_free(ad, 1, ad.len() - 1)) by { reveal_with_fuel(pct_free, 20); }
    assert(pct_free(pf, 1, pf.len() - 1)) by { reveal_with_fuel(pct_free, 20); }
    assert(pct_free(px, 1, px.len() - 1)) by { reveal_with_fuel(pct_free, 20); }
    assert forall|i: int| 0 <= i < t.len() implies #[trigger] t[i] != '%' by {
        assert(t[i] != '%' && t[i] != '$');
    }
    assert(up[1] != la[1] && up[1] != ad[1] && up[1] != pf[1] && up[1] != px[1]);
    assert(la[1] != ad[1] && la[1] != pf[1] && la[1] != px[1]);
    assert(ad[1] != pf[1] && ad[1] != px[1]);
    assert(pf.len() != px.len());
    // %USERPROFILE%
    if env.user_profile is Some && plain_text(env.user_profile.unwrap()@) {
        let v = env.user_profile.unwrap()@;
        lemma_replace_leading_token(up, t, v);
        lemma_plain_concat(v, t);
        lemma_substitute_plain(v + t, la, env.local_app_data);
        lemma_substitute_plain(v + t, ad, env.app_data);
        lemma_substitute_plain(v + t, pf, env.program_files);
        lemma_substitute_plain(v + t, px, env.program_files_x86);
        lemma_substitute_plain(v + t, hm, env.home);
    }
    // %LOCALAPPDATA%
    if env.local_app_data is Some && plain_text(env.local_app_data.unwrap()@) {
        let v = env.local_app_data.unwrap()@;
        lemma_other_token_absent(la, up, t);
        lemma_substitute_absent(la + t, up, env.user_profile);
        lemma_replace_leading_token(la, t, v);
        lemma_plain_concat(v, t);
        lemma_substitute_plain(v + t, ad, env.app_data);
        lemma_substitute_plain(v + t, pf, env.program_files);
        lemma_substitute_plain(v + t, px, env.program_files_x86);
        lemma_substitute_plain(v + t, hm, env.home);
    }
    // %APPDATA%
    if env.app_data is Some && plain_text(env.app_data.unwrap()@) {
        let v = env.app_data.unwrap()@;
        lemma_other_token_absent(ad, up, t);
        lemma_substitute_absent(ad + t, up, env.user_profile);
        lemma_other_token_absent(ad, la, t);
        lemma_substitute_absent(ad + t, la, env.local_app_data);
        lemma_replace_leading_token(ad, t, v);
        lemma_plain_concat(v, t);
        lemma_substitute_plain(v + t, pf, env.program_files);
        lemma_substitute_plain(v + t, px, env.program_files_x86);
        lemma_substitute_plain(v + t, hm, env.home);
    }
    // %ProgramFiles%
    if env.program_files is Some && plain_text(env.program_files.unwrap()@) {
        let v = env.program_files.unwrap()@;
        lemma_other_token_absent(pf, up, t);
        lemma_substitute_absent(pf + t, up, env.user_profile);
        lemma_other_token_absent(pf, la, t);
        lemma_substitute_absent(pf + t, la, env.local_app_data);
        lemma_other_token_absent(pf, ad, t);
        lemma_substitute_absent(pf + t, ad, env.app_data);
        lemma_replace_leading_token(pf, t, v);
        lemma_plain_concat(v, t);
        lemma_substitute_plain(v + t, px, env.program_files_x86);
        lemma_substitute_plain(v + t, hm, env.home);
    }
    // %ProgramFiles(x86)%
    if env.program_files_x86 is Some && plain_text(env.program_files_x86.unwrap()@) {
        let v = env.program_files_x86.unwrap()@;
        lemma_other_token_absent(px, up, t);
        lemma_substitute_absent(px + t, up, env.user_profile);
        lemma_other_token_absent(px, la, t);
        lemma_substitute_absent(px + t, la, env.local_app_data);
        lemma_other_token_absent(px, ad, t);
        lemma_substitute_absent(px + t, ad, env.app_data);
        lemma_other_token_absent(px, pf, t);
        lemma_substitute_absent(px + t, pf, env.program_files);
        lemma_replace_leading_token(px, t, v);
        lemma_plain_concat(v, t);
        lemma_substitute_plain(v + t, hm, env.home);
    }
    // $HOME
    if env.home is Some && plain_text(env.home.unwrap()@) {
        let v = env.home.unwrap()@;
        let s = hm + t;
        assert forall|i: int| 0 <= i < s.len() implies #[trigger] s[i] != '%' by {
            if i >= hm.len() {
                assert(s[i] == t[i - hm.len()]);
            }
        }
        assert(!contains(s, up) && !contains(s, la) && !contains(s, ad) && !contains(s, pf)
            && !contains(s, px)) by {
            assert forall|q: Seq<char>| q.len() > 0 && q[0] == '%' implies !contains(s, q) by {
                if contains(s, q) {
                    let i = choose|i: int| occurs_at(s, q, i);
                    assert(s.subrange(i, i + q.len())[0] == q[0]);
                    assert(s[i] == '%');
                }
            }
        }
        lemma_substitute_absent(s, up, env.user_profile);
        lemma_substitute_absent(s, la, env.local_app_data);
        lemma_substitute_absent(s, ad, env.app_data);
        lemma_substitute_absent(s, pf, env.program_files);
        lemma_substitute_absent(s, px, env.program_files_x86);
        lemma_replace_leading_token(hm, t, v);
    }
}

// ---------------------------------------------------------------------------
// Explorer and consoles
// ---------------------------------------------------------------------------

/// The Explorer argument that reveals `path`: `/select,<path>`.
pub fn explorer_select_arg(path: &str) -> (r: String)
    ensures
        r@ == "/select,"@ + path@,
{
    let mut out = String::from_str("/select,");
    out.append(path);
    out
}

/// The character sequences of a list of strings.
pub open spec fn texts(v: Seq<String>) -> Seq<Seq<char>> {
    v.map_values(|s: String| s@)
}

/// The command line that opens a login console running `command`: in a new
/// Windows Terminal tab when `terminal` (the `wt.exe` path) is known,
/// otherwise in a new `cmd.exe` window titled "Helmor Agent Login".
pub open spec fn login_console(terminal: Option<Seq<char>>, command: Seq<char>) -> (
    Seq<char>,
    Seq<Seq<char>>,
) {
    match terminal {
        Some(wt) => (wt, seq!["-w"@, "0"@, "nt"@, "cmd.exe"@, "/k"@, command]),
        None => (
            "cmd.exe"@,
            seq!["/c"@, "start"@, "Helmor Agent Login"@, "cmd.exe"@, "/k"@, command],
        ),
    }
}

fn push_text(v: &mut Vec<String>, s: &str)
    ensures
        texts(final(v)@) == texts(old(v)@).push(s@),
{
    v.push(String::from_str(s));
    assert(texts(v@) =~= texts(old(v)@).push(s@));
}

/// The program and arguments that open a login console running `command`.
pub fn login_console_command(terminal: Option<&str>, command: &str) -> (r: (String, Vec<String>))
    ensures
        (r.0@, texts(r.1@)) == login_console(
            match terminal {
                Some(t) => Some(t@),
                None => None::<Seq<char>>,
            },
            command@,
        ),
{
    let mut args: Vec<String> = Vec::new();
    match terminal {
        Some(wt) => {
            push_text(&mut args, "-w");
            push_text(&mut args, "0");
            push_text(&mut args, "nt");
            push_text(&mut args, "cmd.exe");
            push_text(&mut args, "/k");
            push_text(&mut args, command);
            assert(texts(args@) =~= seq!["-w"@, "0"@, "nt"@, "cmd.exe"@, "/k"@, command@]);
            (String::from_str(wt), args)
        },
        None => {
            push_text(&mut args, "/c");
            push_text(&mut args, "start");
            push_text(&mut args, "Helmor Agent Login");
            push_text(&mut args, "cmd.exe");
            push_text(&mut args, "/k");
            push_text(&mut args, command);
            assert(texts(args@) =~= seq![
                "/c"@,
                "start"@,
                "Helmor Agent Login"@,
                "cmd.exe"@,
                "/k"@,
                command@,
            ]);
            (String::from_str("cmd.exe"), args)
        },
    }
}

/// The Windows Terminal path reported by `where.exe wt`: the first output
/// line, trimmed, when the command succeeded and that line is not blank.
pub open spec fn terminal_from_where(success: bool, stdout: Seq<char>) -> Option<Seq<char>> {
    if success && trim(first_line(stdout)).len() > 0 {
        Some(trim(first_line(stdout)))
    } else {
        None
    }
}

/// Reads the Windows Terminal path from the outcome of `where.exe wt`.
pub fn terminal_path_from_where_output(success: bool, stdout: &str) -> (r: Option<String>)
    ensures
        match r {
            Some(p) => terminal_from_where(success, stdout@) == Some(p@),
            None => terminal_from_where(success, stdout@) is None,
        },
{
    if !success {
        return None;
    }
    let cs = chars_of(stdout);
    let line = first_line_chars(&cs);
    let t = trim_chars(&line);
    if t.len() == 0 {
        None
    } else {
        Some(string_of(&t))
    }
}

// ---------------------------------------------------------------------------
// JetBrains Toolbox
// ---------------------------------------------------------------------------

/// Where Toolbox installs an editor: the prefixes of its app folders under
/// `%LOCALAPPDATA%\JetBrains\Toolbox\apps` and the name of its launcher.
pub open spec fn toolbox_layout(editor_id: Seq<char>) -> Option<(Seq<Seq<char>>, Seq<char>)> {
    if editor_id == "intellij"@ {
        Some((seq!["IDEA"@], "idea64.exe"@))
    } else if editor_id == "pycharm"@ {
        Some((seq!["PyCharm"@, "PC"@], "pycharm64.exe"@))
    } else if editor_id == "webstorm"@ {
        Some((seq!["WebStorm"@], "webstorm64.exe"@))
    } else if editor_id == "goland"@ {
        Some((seq!["GoLand"@], "goland64.exe"@))
    } else if editor_id == "rubymine"@ {
        Some((seq!["RubyMine"@], "rubymine64.exe"@))
    } else if editor_id == "phpstorm"@ {
        Some((seq!["PhpStorm"@], "phpstorm64.exe"@))
    } else if editor_id == "clion"@ {
        Some((seq!["CLion"@], "clion64.exe"@))
    } else if editor_id == "rider"@ {
        Some((seq!["Rider"@], "rider64.exe"@))
    } else {
        None
    }
}

/// Law: each editor Toolbox installs has its layout: IntelliJ IDEA under
/// `IDEA*` with `idea64.exe`, PyCharm under `PyCharm*` or `PC*` with
/// `pycharm64.exe`, and WebStorm, GoLand, RubyMine, PhpStorm, CLion and
/// Rider under their product name with `<id>64.exe`; any other id has none.
pub proof fn law_toolbox_layouts(id: Seq<char>)
    ensures
        toolbox_layout("intellij"@) == Some((seq!["IDEA"@], "idea64.exe"@)),
        toolbox_layout("pycharm"@) == Some((seq!["PyCharm"@, "PC"@], "pycharm64.exe"@)),
        toolbox_layout("webstorm"@) == Some((seq!["WebStorm"@], "webstorm64.exe"@)),
        toolbox_layout("goland"@) == Some((seq!["GoLand"@], "goland64.exe"@)),
        toolbox_layout("rubymine"@) == Some((seq!["RubyMine"@], "rubymine64.exe"@)),
        toolbox_layout("phpstorm"@) == Some((seq!["PhpStorm"@], "phpstorm64.exe"@)),
        toolbox_layout("clion"@) == Some((seq!["CLion"@], "clion64.exe"@)),
        toolbox_layout("rider"@) == Some((seq!["Rider"@], "rider64.exe"@)),
        !(id == "intellij"@ || id == "pycharm"@ || id == "webstorm"@ || id == "goland"@ || id
            == "rubymine"@ || id == "phpstorm"@ || id == "clion"@ || id == "rider"@)
            ==> toolbox_layout(id) is None,
{
    reveal_strlit("intellij");
    reveal_strlit("pycharm");
    reveal_strlit("webstorm");
    reveal_strlit("goland");
    reveal_strlit("rubymine");
    reveal_strlit("phpstorm");
    reveal_strlit("clion");
    reveal_strlit("rider");
    assert("pycharm"@.len() != "intellij"@.len());
    assert("webstorm"@[0] != "intellij"@[0]);
    assert("webstorm"@.len() != "pycharm"@.len());
    assert("goland"@.len() != "intellij"@.len());
    assert("goland"@.len() != "pycharm"@.len());
    assert("goland"@.len() != "webstorm"@.len());
    assert("rubymine"@[0] != "intellij"@[0]);
    assert("rubymine"@.len() != "pycharm"@.len());
    assert("rubymine"@[0] != "webstorm"@[0]);
    assert("rubymine"@.len() != "goland"@.len());
    assert("phpstorm"@[0] != "intellij"@[0]);
    assert("phpstorm"@.len() != "pycharm"@.len());
    assert("phpstorm"@[0] != "webstorm"@[0]);
    assert("phpstorm"@.len() != "goland"@.len());
    assert("phpstorm"@[0] != "rubymine"@[0]);
    assert("clion"@.len() != "intellij"@.len());
    assert("clion"@.len() != "pycharm"@.len());
    assert("clion"@.len() != "webstorm"@.len());
    assert("clion"@.len() != "goland"@.len());
    assert("clion"@.len() != "rubymine"@.len());
    assert("clion"@.len() != "phpstorm"@.len());
    assert("rider"@.len() != "intellij"@.len());
    assert("rider"@.len() != "pycharm"@.len());
    assert("rider"@.len() != "webstorm"@.len());
    assert("rider"@.len() != "goland"@.len());
    assert("rider"@.len() != "rubymine"@.len());
    assert("rider"@.len() != "phpstorm"@.len());
    assert("rider"@[0] != "clion"@[0]);
}

/// The app-folder prefixes and launcher name of a JetBrains editor.
pub struct ToolboxLayout {
    pub folder_prefixes: Vec<String>,
    pub bin_name: String,
}

fn layout_of(prefixes: &[&str], bin: &str) -> (r: ToolboxLayout)
    ensures
        texts(r.folder_prefixes@) == prefixes@.map_values(|p: &str| p@),
        r.bin_name@ == bin@,
{
    let mut v: Vec<String> = Vec::new();
    let mut i: usize = 0;
    while i < prefixes.len()
        invariant
            i <= prefixes@.len(),
            texts(v@) == prefixes@.subrange(0, i as int).map_values(|p: &str| p@),
        decreases prefixes@.len() - i,
    {
        push_text(&mut v, prefixes[i]);
        i = i + 1;
        assert(prefixes@.subrange(0, i as int).map_values(|p: &str| p@) =~= prefixes@.subrange(
            0,
            (i - 1) as int,
        ).map_values(|p: &str| p@).push(prefixes@[i - 1]@));
    }
    assert(prefixes@.subrange(0, prefixes@.len() as int) =~= prefixes@);
    ToolboxLayout { folder_prefixes: v, bin_name: String::from_str(bin) }
}

/// The Toolbox layout of an editor, `None` for an editor Toolbox does not
/// install.
pub fn jetbrains_toolbox_layout(editor_id: &str) -> (r: Option<ToolboxLayout>)
    ensures
        match r {
            Some(l) => toolbox_layout(editor_id@) == Some((texts(l.folder_prefixes@), l.bin_name@)),
            None => toolbox_layout(editor_id@) is None,
        },
{
    if str_is(editor_id, "intellij") {
        let l = layout_of(&["IDEA"], "idea64.exe");
        assert(texts(l.folder_prefixes@) =~= seq!["IDEA"@]);
        Some(l)
    } else if str_is(editor_id, "pycharm") {
        let l = layout_of(&["PyCharm", "PC"], "pycharm64.exe");
        assert(texts(l.folder_prefixes@) =~= seq!["PyCharm"@, "PC"@]);
        Some(l)
    } else if str_is(editor_id, "webstorm") {
        let l = layout_of(&["WebStorm"], "webstorm64.exe");
        assert(texts(l.folder_prefixes@) =~= seq!["WebStorm"@]);
        Some(l)
    } else if str_is(editor_id, "goland") {
        let l = layout_of(&["GoLand"], "goland64.exe");
        assert(texts(l.folder_prefixes@) =~= seq!["GoLand"@]);
        Some(l)
    } else if str_is(editor_id, "rubymine") {
        let l = layout_of(&["RubyMine"], "rubymine64.exe");
        assert(texts(l.folder_prefixes@) =~= seq!["RubyMine"@]);
        Some(l)
    } else if str_is(editor_id, "phpstorm") {
        let l = layout_of(&["PhpStorm"], "phpstorm64.exe");
        assert(texts(l.folder_prefixes@) =~= seq!["PhpStorm"@]);
        Some(l)
    } else if str_is(editor_id, "clion") {
        let l = layout_of(&["CLion"], "clion64.exe");
        assert(texts(l.folder_prefixes@) =~= seq!["CLion"@]);
        Some(l)
    } else if str_is(editor_id, "rider") {
        let l = layout_of(&["Rider"], "rider64.exe");
        assert(texts(l.folder_prefixes@) =~= seq!["Rider"@]);
        Some(l)
    } else {
        None
    }
}

/// An app folder belongs to the editor when its name starts with one of
/// the editor's prefixes.
pub open spec fn folder_matches(name: Seq<char>, prefixes: Seq<Seq<char>>) -> bool {
    exists|i: int| 0 <= i < prefixes.len() && starts_with(name, #[trigger] prefixes[i])
}

/// Whether an app folder belongs to the editor.
pub fn toolbox_folder_matches(name: &str, prefixes: &Vec<String>) -> (r: bool)
    ensures
        r == folder_matches(name@, texts(prefixes@)),
{
    let cs = chars_of(name);
    let ghost ps = texts(prefixes@);
    let mut i: usize = 0;
    while i < prefixes.len()
        invariant
            i <= prefixes@.len(),
            ps == texts(prefixes@),
            cs@ == name@,
            forall|m: int| 0 <= m < i ==> !starts_with(name@, #[trigger] ps[m]),
        decreases prefixes@.len() - i,
    {
        let p = chars_of(prefixes[i].as_str());
        if starts_with_chars(&cs, &p) {
            assert(ps[i as int] == p@);
            return true;
        }
        i = i + 1;
    }
    false
}

/// Whether path `a` sorts at or after path `b` in `Path` order: component
/// by component, with components as the build's target platform splits a
/// path (Windows rules on a Windows build). Nothing is stated of this
/// order; the laws below assume it total and transitive where they say so.
pub uninterp spec fn path_at_least(a: Seq<char>, b: Seq<char>) -> bool;

/// `Path::new(a) >= Path::new(b)`. Claims that the answer is the path order
/// on the two texts, named `path_at_least`; nothing is stated of that order.
#[verifier::external_body]
fn path_ge(a: &str, b: &str) -> (r: bool)
    ensures
        r == path_at_least(a@, b@),
{
    std::path::Path::new(a) >= std::path::Path::new(b)
}

/// The install kept among the candidates found in turn: a later candidate
/// replaces the one kept unless the kept one sorts at or after it.
pub open spec fn newest_of(candidates: Seq<Seq<char>>) -> Option<Seq<char>>
    decreases candidates.len(),
{
    if candidates.len() == 0 {
        None
    } else {
        match newest_of(candidates.drop_last()) {
            Some(cur) => if path_at_least(cur, candidates.last()) {
                Some(cur)
            } else {
                Some(candidates.last())
            },
            None => Some(candidates.last()),
        }
    }
}

/// Picks the newest install among the launchers found, in the order the app
/// folders were visited.
pub fn newest_toolbox_candidate(candidates: &Vec<String>) -> (r: Option<String>)
    ensures
        match r {
            Some(p) => newest_of(texts(candidates@)) == Some(p@),
            None => newest_of(texts(candidates@)) is None,
        },
{
    let ghost cs = texts(candidates@);
    let mut best: Option<String> = None;
    let mut i: usize = 0;
    assert(cs.subrange(0, 0) =~= Seq::<Seq<char>>::empty());
    while i < candidates.len()
        invariant
            i <= candidates@.len(),
            cs == texts(candidates@),
            match best {
                Some(b) => newest_of(cs.subrange(0, i as int)) == Some(b@),
                None => newest_of(cs.subrange(0, i as int)) is None,
            },
        decreases candidates@.len() - i,
    {
        let ghost sub = cs.subrange(0, i + 1);
        assert(sub.drop_last() =~= cs.subrange(0, i as int));
        assert(sub.last() == candidates@[i as int]@);
        let keep = match &best {
            Some(cur) => path_ge(cur.as_str(), candidates[i].as_str()),
            None => false,
        };
        if !keep {
            best = Some(candidates[i].clone());
        }
        i = i + 1;
    }
    assert(cs.subrange(0, candidates@.len() as int) =~= cs);
    best
}

/// Law: the install picked is one of the launchers found, and one is picked
/// whenever any was found.
pub proof fn law_newest_is_a_candidate(candidates: Seq<Seq<char>>)
    ensures
        newest_of(candidates) is None <==> candidates.len() == 0,
        newest_of(candidates) matches Some(c) ==> candidates.contains(c),
    decreases candidates.len(),
{
    if candidates.len() > 0 {
        let pre = candidates.drop_last();
        law_newest_is_a_candidate(pre);
        if let Some(cur) = newest_of(pre) {
            let i = choose|i: int| 0 <= i < pre.len() && pre[i] == cur;
            assert(candidates[i] == cur);
        }
        assert(candidates[candidates.len() - 1] == candidates.last());
    }
}

/// Among the first `n` builds, the one kept when the builds are scanned in
/// turn and only those with the launcher count: a later one replaces the
/// one kept unless the kept one sorts at or after it.
pub open spec fn newest_build_of(builds: Seq<Seq<char>>, has_binary: Seq<bool>, n: int) -> Option<
    int,
>
    decreases n,
{
    if n <= 0 {
        None
    } else {
        let prev = newest_build_of(builds, has_binary, n - 1);
        if !has_binary[n - 1] {
            prev
        } else {
            match prev {
                Some(p) => if path_at_least(builds[p], builds[n - 1]) {
                    Some(p)
                } else {
                    Some(n - 1)
                },
                None => Some(n - 1),
            }
        }
    }
}

/// The newest build folder of an install that has the launcher: the
/// position of the build that sorts last in `Path` order among those whose
/// launcher exists (`has_binary`), or `None` when no build has one.
pub fn newest_build(builds: &Vec<String>, has_binary: &Vec<bool>) -> (r: Option<usize>)
    requires
        builds@.len() == has_binary@.len(),
    ensures
        match r {
            Some(i) => newest_build_of(texts(builds@), has_binary@, builds@.len() as int) == Some(
                i as int,
            ),
            None => newest_build_of(texts(builds@), has_binary@, builds@.len() as int) is None,
        },
{
    let ghost bs = texts(builds@);
    let mut best: Option<usize> = None;
    let mut i: usize = 0;
    while i < builds.len()
        invariant
            i <= builds@.len(),
            builds@.len() == has_binary@.len(),
            bs == texts(builds@),
            match best {
                Some(p) => newest_build_of(bs, has_binary@, i as int) == Some(p as int) && p < i,
                None => newest_build_of(bs, has_binary@, i as int) is None,
            },
        decreases builds@.len() - i,
    {
        if has_binary[i] {
            let keep = match best {
                Some(p) => path_ge(builds[p].as_str(), builds[i].as_str()),
                None => false,
            };
            if !keep {
                best = Some(i);
            }
        }
        i = i + 1;
    }
    best
}

/// Law: when `Path` order is total and transitive, the install picked is at
/// or after every launcher found.
pub proof fn law_newest_is_greatest(candidates: Seq<Seq<char>>)
    requires
        forall|a: Seq<char>, b: Seq<char>| #[trigger] path_at_least(a, b) || path_at_least(b, a),
        forall|a: Seq<char>, b: Seq<char>, c: Seq<char>|
            #[trigger] path_at_least(a, b) && #[trigger] path_at_least(b, c) ==> path_at_least(
                a,
                c,
            ),
    ensures
        newest_of(candidates) matches Some(k) ==> forall|i: int|
            0 <= i < candidates.len() ==> path_at_least(k, #[trigger] candidates[i]),
    decreases candidates.len(),
{
    if candidates.len() > 0 {
        let pre = candidates.drop_last();
        let last = candidates.last();
        law_newest_is_greatest(pre);
        assert(path_at_least(last, last) || path_at_least(last, last));
        match newest_of(pre) {
            Some(cur) => {
                if path_at_least(cur, last) {
                    assert forall|i: int| 0 <= i < candidates.len() implies path_at_least(
                        cur,
                        #[trigger] candidates[i],
                    ) by {
                        if i < pre.len() {
                            assert(candidates[i] == pre[i]);
                        }
                    }
                } else {
                    assert(path_at_least(last, cur) || path_at_least(cur, last));
                    assert forall|i: int| 0 <= i < candidates.len() implies path_at_least(
                        last,
                        #[trigger] candidates[i],
                    ) by {
                        if i < pre.len() {
                            assert(candidates[i] == pre[i]);
                            assert(path_at_least(cur, pre[i]));
                            assert(path_at_least(last, cur) && path_at_least(cur, pre[i]));
                        }
                    }
                }
            },
            None => {
                law_newest_is_a_candidate(pre);
            },
        }
    }
}

/// Law: when `Path` order is total and transitive, the build picked has the
/// launcher and sorts at or after every other build that has it, so it is
/// the one a sort followed by a scan from the end finds; none is picked
/// only when no build has the launcher.
pub proof fn law_newest_build_is_greatest(builds: Seq<Seq<char>>, has_binary: Seq<bool>, n: int)
    requires
        0 <= n <= builds.len(),
        builds.len() == has_binary.len(),
        forall|a: Seq<char>, b: Seq<char>| #[trigger] path_at_least(a, b) || path_at_least(b, a),
        forall|a: Seq<char>, b: Seq<char>, c: Seq<char>|
            #[trigger] path_at_least(a, b) && #[trigger] path_at_least(b, c) ==> path_at_least(
                a,
                c,
            ),
    ensures
        match newest_build_of(builds, has_binary, n) {
            Some(k) => 0 <= k < n && has_binary[k] && forall|i: int|
                0 <= i < n && has_binary[i] ==> path_at_least(builds[k], #[trigger] builds[i]),
            None => forall|i: int| 0 <= i < n ==> !#[trigger] has_binary[i],
        },
    decreases n,
{
    if n > 0 {
        law_newest_build_is_greatest(builds, has_binary, n - 1);
        let last = builds[n - 1];
        assert(path_at_least(last, last) || path_at_least(last, last));
        match newest_build_of(builds, has_binary, n - 1) {
            Some(p) => {
                if has_binary[n - 1] && !path_at_least(builds[p], last) {
                    assert(path_at_least(last, builds[p]) || path_at_least(builds[p], last));
                    assert forall|i: int| 0 <= i < n && has_binary[i] implies path_at_least(
                        last,
                        #[trigger] builds[i],
                    ) by {
                        if i < n - 1 {
                            assert(path_at_least(builds[p], builds[i]));
                            assert(path_at_least(last, builds[p]) && path_at_least(
                                builds[p],
                                builds[i],
                            ));
                        }
                    }
                }
            },
            None => {},
        }
    }
}

// ---------------------------------------------------------------------------
// PowerShell scripts
// ---------------------------------------------------------------------------

/// `s` inside a single-quoted PowerShell string: each `'` doubled.
pub open spec fn ps_quoted_body(s: Seq<char>) -> Seq<char> {
    replace_all(s, "'"@, "''"@)
}

/// What follows the directory in the PATH script: read the user PATH, set it
/// to the directory when blank, leave it when it already lists the
/// directory, otherwise append `;<dir>`.
pub open spec fn path_script_tail() -> Seq<char> {
    "'; $path = [Environment]::GetEnvironmentVariable('Path', 'User'); if ([string]::IsNullOrWhiteSpace($path)) { [Environment]::SetEnvironmentVariable('Path', $dir, 'User'); exit 0 }; $parts = $path -split ';' | Where-Object { $_ -and $_.Trim() -ne '' }; if ($parts -contains $dir) { exit 0 }; [Environment]::SetEnvironmentVariable('Path', ($path.TrimEnd(';') + ';' + $dir), 'User')"@
}

/// The PowerShell script that appends `dir` to the user's PATH unless it is
/// already there.
pub fn user_path_script(dir: &str) -> (r: String)
    ensures
        r@ == "$dir = '"@ + ps_quoted_body(dir@) + path_script_tail(),
{
    proof {
        reveal_strlit("'");
    }
    let cs = chars_of(dir);
    let body = replace_lit(&cs, "'", "''");
    let mut out = String::from_str("$dir = '");
    let b = string_of(&body);
    out.append(b.as_str());
    out.append(
        "'; $path = [Environment]::GetEnvironmentVariable('Path', 'User'); if ([string]::IsNullOrWhiteSpace($path)) { [Environment]::SetEnvironmentVariable('Path', $dir, 'User'); exit 0 }; $parts = $path -split ';' | Where-Object { $_ -and $_.Trim() -ne '' }; if ($parts -contains $dir) { exit 0 }; [Environment]::SetEnvironmentVariable('Path', ($path.TrimEnd(';') + ';' + $dir), 'User')",
    );
    out
}

/// The PowerShell script that puts the file at `path` on the clipboard.
pub fn clipboard_script(path: &str) -> (r: String)
    ensures
        r@ == "Set-Clipboard -Path '"@ + ps_quoted_body(path@) + "'"@,
{
    proof {
        reveal_strlit("'");
    }
    let cs = chars_of(path);
    let body = replace_lit(&cs, "'", "''");
    let mut out = String::from_str("Set-Clipboard -Path '");
    let b = string_of(&body);
    out.append(b.as_str());
    out.append("'");
    out
}

/// The arguments that run `script` in a non-interactive PowerShell without
/// profile or execution policy.
pub fn powershell_args(script: &str) -> (r: Vec<String>)
    ensures
        texts(r@) == seq![
            "-NoProfile"@,
            "-NonInteractive"@,
            "-ExecutionPolicy"@,
            "Bypass"@,
            "-Command"@,
            script@,
        ],
{
    let mut v: Vec<String> = Vec::new();
    push_text(&mut v, "-NoProfile");
    push_text(&mut v, "-NonInteractive");
    push_text(&mut v, "-ExecutionPolicy");
    push_text(&mut v, "Bypass");
    push_text(&mut v, "-Command");
    push_text(&mut v, script);
    assert(texts(v@) =~= seq![
        "-NoProfile"@,
        "-NonInteractive"@,
        "-ExecutionPolicy"@,
        "Bypass"@,
        "-Command"@,
        script@,
    ]);
    v
}

} // verus!
