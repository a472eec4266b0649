//! Windows path prefixes, and joining a plain name onto a directory path as
//! `Path::join` does on the platform the host runs on.

use vstd::prelude::*;

use crate::text::{chars_of, string_of};

verus! {

/// The family of operating system the host runs on.
#[derive(Clone, Copy, PartialEq, Eq, Structural)]
pub enum Platform {
    Unix,
    Windows,
    Other,
}

/// A path separator on `platform`: `/`, and on Windows also `\`.
pub open spec fn is_path_sep(c: char, platform: Platform) -> bool {
    c == '/' || (platform == Platform::Windows && c == '\\')
}

/// The separator `Path::join` inserts on `platform`.
pub open spec fn main_sep(platform: Platform) -> char {
    if platform == Platform::Windows {
        '\\'
    } else {
        '/'
    }
}

/// A Windows drive prefix with nothing after it, such as `C:`.
pub open spec fn is_bare_drive(s: Seq<char>) -> bool {
    s.len() == 2 && (('a' <= s[0] && s[0] <= 'z') || ('A' <= s[0] && s[0] <= 'Z')) && s[1] == ':'
}

// ---------------------------------------------------------------------------
// Windows path prefixes
// ---------------------------------------------------------------------------

/// A Windows path separator: `\` or `/`.
pub open spec fn is_win_sep(c: char) -> bool {
    c == '\\' || c == '/'
}

/// An ASCII letter.
pub open spec fn is_ascii_letter(c: char) -> bool {
    ('a' <= c && c <= 'z') || ('A' <= c && c <= 'Z')
}

/// A separator inside a Windows path: only `\` in a verbatim (`\\?\`) path.
pub open spec fn sep_in(c: char, verbatim: bool) -> bool {
    if verbatim {
        c == '\\'
    } else {
        is_win_sep(c)
    }
}

/// The index of the first separator at or after `from`, or the length.
pub open spec fn next_sep(s: Seq<char>, from: int, verbatim: bool) -> int
    decreases s.len() - from,
{
    if from < 0 || from >= s.len() {
        s.len() as int
    } else if sep_in(s[from], verbatim) {
        from
    } else {
        next_sep(s, from + 1, verbatim)
    }
}

/// The length of the prefix of a Windows path and whether it is verbatim, as
/// `std`'s Windows path parser finds it: `\\?\UNC\server\share`, `\\?\C:`,
/// `\\?\name` (verbatim, `\` only), `\\.\device`, `\\server\share`, `C:`;
/// length 0 when there is none. The leading `\\`, `?\`, `.\` and `UNC\`
/// may be written with `/`, except that a verbatim start must be exactly
/// `\\?\`.
pub open spec fn win_prefix(s: Seq<char>) -> (int, bool) {
    if s.len() >= 2 && is_win_sep(s[0]) && is_win_sep(s[1]) {
        if s.len() >= 4 && s[0] == '\\' && s[1] == '\\' && s[2] == '?' && s[3] == '\\' {
            if s.len() >= 8 && s[4] == 'U' && s[5] == 'N' && s[6] == 'C' && is_win_sep(s[7]) {
                let a = next_sep(s, 8, true);
                if a >= s.len() {
                    (s.len() as int, true)
                } else {
                    let b = next_sep(s, a + 1, true);
                    if b > a + 1 {
                        (b, true)
                    } else {
                        (a, true)
                    }
                }
            } else if s.len() >= 6 && is_ascii_letter(s[4]) && s[5] == ':' && (s.len() == 6 || s[6]
                == '\\') {
                (6, true)
            } else {
                (next_sep(s, 4, true), true)
            }
        } else if s.len() >= 4 && s[2] == '.' && is_win_sep(s[3]) {
            (next_sep(s, 4, false), false)
        } else {
            let a = next_sep(s, 2, false);
            if a < s.len() {
                let b = next_sep(s, a + 1, false);
                if a > 2 && b > a + 1 {
                    (b, false)
                } else {
                    (0, false)
                }
            } else {
                (0, false)
            }
        }
    } else if s.len() >= 2 && is_ascii_letter(s[0]) && s[1] == ':' {
        (2, false)
    } else {
        (0, false)
    }
}

/// Where the components of a Windows path start: after the prefix and, if
/// one follows it, the root separator.
pub open spec fn win_body_start(s: Seq<char>) -> int {
    let p = win_prefix(s).0;
    if 0 <= p < s.len() && is_win_sep(s[p]) {
        p + 1
    } else {
        p
    }
}

pub proof fn lemma_next_sep_range(s: Seq<char>, from: int, verbatim: bool)
    requires
        0 <= from <= s.len(),
    ensures
        from <= next_sep(s, from, verbatim) <= s.len(),
        next_sep(s, from, verbatim) < s.len() ==> sep_in(s[next_sep(s, from, verbatim)], verbatim),
    decreases s.len() - from,
{
    if from < s.len() && !sep_in(s[from], verbatim) {
        lemma_next_sep_range(s, from + 1, verbatim);
    }
}

pub proof fn lemma_win_prefix_range(s: Seq<char>)
    ensures
        0 <= win_prefix(s).0 <= s.len(),
        win_prefix(s).0 <= win_body_start(s) <= s.len(),
{
    if s.len() >= 8 {
        lemma_next_sep_range(s, 8, true);
        let a = next_sep(s, 8, true);
        if a < s.len() {
            lemma_next_sep_range(s, a + 1, true);
        }
    }
    if s.len() >= 4 {
        lemma_next_sep_range(s, 4, true);
        lemma_next_sep_range(s, 4, false);
    }
    if s.len() >= 2 {
        lemma_next_sep_range(s, 2, false);
        let a = next_sep(s, 2, false);
        if a < s.len() {
            lemma_next_sep_range(s, a + 1, false);
        }
    }
}

/// Index of the first separator at or after `from`.
pub fn next_sep_exec(s: &Vec<char>, from: usize, verbatim: bool) -> (r: usize)
    requires
        from <= s@.len(),
    ensures
        r == next_sep(s@, from as int, verbatim),
        from <= r <= s@.len(),
{
    let mut i = from;
    while i < s.len() && !(s[i] == '\\' || (!verbatim && s[i] == '/'))
        invariant
            from <= i <= s@.len(),
            next_sep(s@, i as int, verbatim) == next_sep(s@, from as int, verbatim),
        decreases s@.len() - i,
    {
        i = i + 1;
    }
    i
}

fn is_win_sep_exec(c: char) -> (r: bool)
    ensures
        r == is_win_sep(c),
{
    c == '\\' || c == '/'
}

fn is_ascii_letter_exec(c: char) -> (r: bool)
    ensures
        r == is_ascii_letter(c),
{
    (c >= 'a' && c <= 'z') || (c >= 'A' && c <= 'Z')
}

/// Computes `win_prefix`.
pub fn win_prefix_exec(s: &Vec<char>) -> (r: (usize, bool))
    ensures
        r.0 as int == win_prefix(s@).0,
        r.1 == win_prefix(s@).1,
        r.0 <= s@.len(),
{
    proof {
        lemma_win_prefix_range(s@);
    }
    let n = s.len();
    if n >= 2 && is_win_sep_exec(s[0]) && is_win_sep_exec(s[1]) {
        if n >= 4 && s[0] == '\\' && s[1] == '\\' && s[2] == '?' && s[3] == '\\' {
            if n >= 8 && s[4] == 'U' && s[5] == 'N' && s[6] == 'C' && is_win_sep_exec(s[7]) {
                let a = next_sep_exec(s, 8, true);
                if a >= n {
                    (n, true)
                } else {
                    let b = next_sep_exec(s, a + 1, true);
                    if b > a + 1 {
                        (b, true)
                    } else {
                        (a, true)
                    }
                }
            } else if n >= 6 && is_ascii_letter_exec(s[4]) && s[5] == ':' && (n == 6 || s[6]
                == '\\') {
                (6, true)
            } else {
                (next_sep_exec(s, 4, true), true)
            }
        } else if n >= 4 && s[2] == '.' && is_win_sep_exec(s[3]) {
            (next_sep_exec(s, 4, false), false)
        } else {
            let a = next_sep_exec(s, 2, false);
            if a < n {
                let b = next_sep_exec(s, a + 1, false);
                if a > 2 && b > a + 1 {
                    (b, false)
                } else {
                    (0, false)
                }
            } else {
                (0, false)
            }
        }
    } else if n >= 2 && is_ascii_letter_exec(s[0]) && s[1] == ':' {
        (2, false)
    } else {
        (0, false)
    }
}

/// Computes `win_body_start`.
pub fn win_body_start_exec(s: &Vec<char>) -> (r: usize)
    ensures
        r as int == win_body_start(s@),
        r <= s@.len(),
{
    proof {
        lemma_win_prefix_range(s@);
    }
    let (p, _) = win_prefix_exec(s);
    if p < s.len() && is_win_sep_exec(s[p]) {
        p + 1
    } else {
        p
    }
}

// ---------------------------------------------------------------------------
// Joining
// ---------------------------------------------------------------------------

/// A single plain path component: not empty, no separator, no drive
/// colon in second place, and neither `.` nor `..`.
pub open spec fn is_plain_name(name: Seq<char>) -> bool {
    &&& name.len() > 0
    &&& forall|i: int| 0 <= i < name.len() ==> !is_win_sep(#[trigger] name[i])
    &&& !(name.len() >= 2 && name[1] == ':')
    &&& name != seq!['.']
    &&& name != seq!['.', '.']
}

/// The components of a verbatim path from `from` on, split at `\` with
/// empty ones dropped; `cur` is the component read so far.
pub open spec fn verbatim_parts(s: Seq<char>, from: int, cur: Seq<char>) -> Seq<Seq<char>>
    decreases s.len() - from,
{
    if from < 0 || from >= s.len() {
        if cur.len() > 0 {
            seq![cur]
        } else {
            Seq::<Seq<char>>::empty()
        }
    } else if s[from] == '\\' {
        (if cur.len() > 0 {
            seq![cur]
        } else {
            Seq::<Seq<char>>::empty()
        }) + verbatim_parts(s, from + 1, Seq::<char>::empty())
    } else {
        verbatim_parts(s, from + 1, cur.push(s[from]))
    }
}

/// `parts` joined with `\`.
pub open spec fn join_backslash(parts: Seq<Seq<char>>) -> Seq<char>
    decreases parts.len(),
{
    if parts.len() == 0 {
        Seq::<char>::empty()
    } else if parts.len() == 1 {
        parts[0]
    } else {
        join_backslash(parts.drop_last()) + seq!['\\'] + parts.last()
    }
}

/// `Path::join(base, name)` for a plain `name`. On Windows a verbatim
/// (`\\?\`) base is rebuilt from its components: the prefix, then `\` and
/// the components followed by `name`, joined with `\` (empty components
/// dropped). Otherwise a separator goes between them unless `base` is empty,
/// already ends with a separator, or (on Windows) is a bare drive such as
/// `C:`.
pub open spec fn path_joined(base: Seq<char>, name: Seq<char>, platform: Platform) -> Seq<char> {
    if platform == Platform::Windows && win_prefix(base).1 {
        base.subrange(0, win_prefix(base).0) + seq!['\\'] + join_backslash(
            verbatim_parts(base, win_body_start(base), Seq::<char>::empty()).push(name),
        )
    } else {
        let need_sep = base.len() > 0 && !is_path_sep(base.last(), platform) && !(platform
            == Platform::Windows && is_bare_drive(base));
        if need_sep {
            base.push(main_sep(platform)) + name
        } else {
            base + name
        }
    }
}

/// The character sequences of a list of character vectors.
pub open spec fn parts_view(v: Seq<Vec<char>>) -> Seq<Seq<char>> {
    v.map_values(|p: Vec<char>| p@)
}

/// Splits a verbatim path into its components from `from` on.
fn verbatim_parts_exec(s: &Vec<char>, from: usize) -> (r: Vec<Vec<char>>)
    requires
        from <= s@.len(),
    ensures
        parts_view(r@) == verbatim_parts(s@, from as int, Seq::<char>::empty()),
{
    let mut parts: Vec<Vec<char>> = Vec::new();
    let mut cur: Vec<char> = Vec::new();
    let mut i = from;
    while i < s.len()
        invariant
            from <= i <= s@.len(),
            verbatim_parts(s@, from as int, Seq::<char>::empty()) == parts_view(parts@)
                + verbatim_parts(s@, i as int, cur@),
        decreases s@.len() - i,
    {
        let ghost old_parts = parts_view(parts@);
        if s[i] == '\\' {
            if cur.len() > 0 {
                let done = cur;
                let ghost done_view = done@;
                parts.push(done);
                assert(parts_view(parts@) =~= old_parts.push(done_view));
                assert(old_parts + (seq![done_view] + verbatim_parts(
                    s@,
                    i + 1,
                    Seq::<char>::empty(),
                )) =~= parts_view(parts@) + verbatim_parts(s@, i + 1, Seq::<char>::empty()));
            } else {
                assert(old_parts + (Seq::<Seq<char>>::empty() + verbatim_parts(
                    s@,
                    i + 1,
                    Seq::<char>::empty(),
                )) =~= parts_view(parts@) + verbatim_parts(s@, i + 1, Seq::<char>::empty()));
            }
            cur = Vec::new();
            assert(cur@ =~= Seq::<char>::empty());
        } else {
            cur.push(s[i]);
        }
        i = i + 1;
    }
    if cur.len() > 0 {
        let ghost old_parts = parts_view(parts@);
        let ghost cv = cur@;
        parts.push(cur);
        assert(parts_view(parts@) =~= old_parts + seq![cv]);
    } else {
        assert(parts_view(parts@) =~= parts_view(parts@) + Seq::<Seq<char>>::empty());
    }
    parts
}

/// Appends `parts` joined with `\` to `out`.
fn push_joined_backslash(out: &mut Vec<char>, parts: &Vec<Vec<char>>)
    ensures
        final(out)@ == old(out)@ + join_backslash(parts_view(parts@)),
{
    let ghost pv = parts_view(parts@);
    let ghost start = out@;
    let mut i: usize = 0;
    assert(pv.subrange(0, 0) =~= Seq::<Seq<char>>::empty());
    assert(out@ =~= start + join_backslash(pv.subrange(0, 0)));
    while i < parts.len()
        invariant
            i <= parts@.len(),
            pv == parts_view(parts@),
            out@ == start + join_backslash(pv.subrange(0, i as int)),
        decreases parts@.len() - i,
    {
        let ghost prev = out@;
        if i > 0 {
            out.push('\\');
        }
        crate::text::extend_chars(out, &parts[i]);
        i = i + 1;
        proof {
            let sub = pv.subrange(0, i as int);
            assert(sub.drop_last() =~= pv.subrange(0, (i - 1) as int));
            assert(sub.last() == parts@[i - 1]@);
            if i == 1 {
                assert(join_backslash(pv.subrange(0, 0)) =~= Seq::<char>::empty());
                assert(out@ =~= start + sub[0]);
            } else {
                assert(out@ =~= start + (join_backslash(sub.drop_last()) + seq!['\\'] + sub.last()));
            }
        }
    }
    assert(pv.subrange(0, parts@.len() as int) =~= pv);
}

/// Joins a plain name onto a directory path, as `Path::join` does.
pub fn join_path(base: &str, name: &str, platform: Platform) -> (r: String)
    requires
        is_plain_name(name@),
    ensures
        r@ == path_joined(base@, name@, platform),
{
    let mut cs = chars_of(base);
    let n = cs.len();
    let windows = platform == Platform::Windows;
    if windows {
        let (p, verbatim) = win_prefix_exec(&cs);
        if verbatim {
            proof {
                lemma_win_prefix_range(cs@);
            }
            let lo = win_body_start_exec(&cs);
            let mut parts = verbatim_parts_exec(&cs, lo);
            let name_chars = chars_of(name);
            let ghost pv = parts_view(parts@);
            parts.push(name_chars);
            assert(parts_view(parts@) =~= pv.push(name@));
            let mut out: Vec<char> = Vec::new();
            let mut k: usize = 0;
            while k < p
                invariant
                    k <= p <= cs@.len(),
                    out@ == cs@.subrange(0, k as int),
                decreases p - k,
            {
                out.push(cs[k]);
                k = k + 1;
                assert(out@ =~= cs@.subrange(0, k as int));
            }
            out.push('\\');
            push_joined_backslash(&mut out, &parts);
            return string_of(&out);
        }
    }
    let need_sep = if n == 0 {
        false
    } else {
        let last = cs[n - 1];
        let last_is_sep = last == '/' || (windows && last == '\\');
        let bare_drive = windows && n == 2 && ((cs[0] >= 'a' && cs[0] <= 'z') || (cs[0] >= 'A'
            && cs[0] <= 'Z')) && cs[1] == ':';
        !last_is_sep && !bare_drive
    };
    if need_sep {
        if windows {
            cs.push('\\');
        } else {
            cs.push('/');
        }
    }
    let mut out = string_of(&cs);
    out.append(name);
    out
}

} // verus!
