//! Desktop-entry processing: building the launch command a generated
//! launcher entry executes, substituting it into the packaged entry file, and
//! checking that the file's one `Exec` line really runs it — the check behind
//! the security review shown at install time. Writing the file is I/O and
//! stays outside the library.

use vstd::prelude::*;
use vstd::string::{StrSliceExecFns, StringExecFns};
use crate::catalog::{AppDesktopEntry, InstalledAppPackEntry};
use crate::template::{
    copy_range, find_from, match_at, replace_all, spec_find_from, spec_match_at, spec_replace_all,
};
use crate::text::{str_to_chars, string_from_chars};

verus! {

/// Extra display-client arguments escaped for a quoted desktop-entry value:
/// each backslash doubled, then each quote escaped.
pub open spec fn spec_escaped_rdp_args(a: Seq<char>) -> Seq<char> {
    spec_replace_all(spec_replace_all(a, "\\"@, "\\\\"@), "\""@, "\\\""@)
}

/// The launch command a generated launcher entry executes: the app's id and
/// version, with the escaped extra arguments quoted in between when there are
/// any.
pub open spec fn spec_launch_cmd(
    id: Seq<char>,
    version: Seq<char>,
    rdp_args: Seq<char>,
) -> Seq<char> {
    if rdp_args.len() == 0 {
        "appack launch "@ + id + " --version="@ + version
    } else {
        "appack launch "@ + id + " \""@ + spec_escaped_rdp_args(rdp_args) + "\" --version="@
            + version
    }
}

/// The packaged entry file with its placeholders substituted: the launch
/// command, the icon directory, and the icon's full path.
pub open spec fn spec_entry_contents(
    contents: Seq<char>,
    cmd: Seq<char>,
    icon_dir: Seq<char>,
    icon: Seq<char>,
) -> Seq<char> {
    let s1 = spec_replace_all(contents, "$APPACK_LAUNCH_CMD"@, cmd);
    let s2 = spec_replace_all(s1, "$ICON_DIR"@, icon_dir);
    spec_replace_all(s2, "$ICON_FULL_PATH"@, icon_dir + "/"@ + icon)
}

/// Length of the leading run of characters before a line break.
pub open spec fn spec_nl_len(s: Seq<char>) -> int
    decreases s.len(),
{
    if s.len() == 0 || s[0] == '\n' {
        0
    } else {
        1 + spec_nl_len(s.drop_first())
    }
}

/// The leading line covers a prefix of the text.
pub proof fn lemma_nl_len_bounds(s: Seq<char>)
    ensures
        0 <= spec_nl_len(s) <= s.len(),
        forall|i: int| 0 <= i < spec_nl_len(s) ==> s[i] != '\n',
        spec_nl_len(s) < s.len() ==> s[spec_nl_len(s)] == '\n',
    decreases s.len(),
{
    if s.len() == 0 || s[0] == '\n' {
    } else {
        lemma_nl_len_bounds(s.drop_first());
        let w = spec_nl_len(s);
        assert forall|i: int| 0 <= i < w implies s[i] != '\n' by {
            if i > 0 {
                assert(s.drop_first()[i - 1] == s[i]);
            }
        }
        if w < s.len() {
            assert(s.drop_first()[w - 1] == s[w]);
        }
    }
}

/// A run without line breaks of length `w`, ended by the text's end or a
/// line break, is the leading line.
proof fn lemma_nl_len_of(s: Seq<char>, w: int)
    requires
        0 <= w <= s.len(),
        forall|i: int| 0 <= i < w ==> #[trigger] s[i] != '\n',
        w < s.len() ==> s[w] == '\n',
    ensures
        spec_nl_len(s) == w,
    decreases s.len(),
{
    if s.len() == 0 || s[0] == '\n' {
    } else {
        assert forall|i: int| 0 <= i < w - 1 implies #[trigger] s.drop_first()[i] != '\n' by {
            assert(s.drop_first()[i] == s[i + 1]);
        }
        if w - 1 < s.drop_first().len() {
            assert(s.drop_first()[w - 1] == s[w]);
        }
        lemma_nl_len_of(s.drop_first(), w - 1);
    }
}

/// A line with any trailing carriage return dropped.
pub open spec fn spec_strip_cr(l: Seq<char>) -> Seq<char> {
    if l.len() > 0 && l[l.len() - 1] == '\r' {
        l.take(l.len() - 1)
    } else {
        l
    }
}

/// The lines of the text: split at each line break, a trailing carriage
/// return dropped from each line, and no empty last line for text that ends
/// in a line break.
pub open spec fn spec_lines(s: Seq<char>) -> Seq<Seq<char>>
    decreases s.len(),
    via spec_lines_decreases
{
    if s.len() == 0 {
        Seq::empty()
    } else {
        let l = spec_nl_len(s);
        if l == s.len() {
            seq![spec_strip_cr(s)]
        } else {
            seq![spec_strip_cr(s.take(l))] + spec_lines(s.skip(l + 1))
        }
    }
}

#[via_fn]
proof fn spec_lines_decreases(s: Seq<char>) {
    lemma_nl_len_bounds(s);
}

/// Split the text into its lines.
pub fn lines_of(s: &str) -> (out: Vec<String>)
    ensures
        out.deep_view() == spec_lines(s@),
{
    let v = str_to_chars(s);
    let n = v.len();
    let mut out: Vec<String> = Vec::new();
    let mut pos: usize = 0;
    proof {
        assert(v@.skip(0) =~= v@);
        assert(out.deep_view() + spec_lines(v@.skip(0)) =~= spec_lines(v@));
    }
    while pos < n
        invariant
            v@ == s@,
            n == v@.len(),
            pos <= n,
            spec_lines(s@) == out.deep_view() + spec_lines(v@.skip(pos as int)),
        decreases n - pos,
    {
        let ghost rest = v@.skip(pos as int);
        let mut e: usize = pos;
        while e < n && !char_at_is_nl(&v, e)
            invariant
                n == v@.len(),
                pos <= e <= n,
                forall|m: int| pos <= m < e ==> v@[m] != '\n',
            decreases n - e,
        {
            e += 1;
        }
        proof {
            assert forall|m: int| 0 <= m < e - pos implies #[trigger] rest[m] != '\n' by {
                assert(rest[m] == v@[pos + m]);
            }
            if e < n {
                assert(rest[e - pos] == v@[e as int]);
            }
            lemma_nl_len_of(rest, e - pos);
        }
        let line_chars = if e > pos && is_cr(&v, e - 1) {
            copy_range(&v, pos, e - 1)
        } else {
            copy_range(&v, pos, e)
        };
        proof {
            assert(rest.take(e - pos) =~= v@.subrange(pos as int, e as int));
            if e > pos && v@[e - 1] == '\r' {
                assert(rest.take(e - pos).take(e - pos - 1) =~= v@.subrange(
                    pos as int,
                    e as int - 1,
                ));
                assert(line_chars@ == spec_strip_cr(rest.take(e - pos)));
            } else {
                assert(line_chars@ == spec_strip_cr(rest.take(e - pos)));
            }
        }
        let line = string_from_chars(&line_chars);
        let ghost out0 = out.deep_view();
        let ghost ov0 = out@;
        out.push(line);
        proof {
            assert forall|k: int| 0 <= k < out@.len() implies out.deep_view()[k] == (out0 + seq![
                line_chars@,
            ])[k] by {
                if k < ov0.len() {
                    assert(out@[k] == ov0[k]);
                }
            }
            assert(out.deep_view() =~= out0 + seq![line_chars@]);
        }
        if e == n {
            proof {
                assert(spec_nl_len(rest) == rest.len());
                assert(rest.take(e - pos) =~= rest);
                assert(spec_lines(rest) == seq![spec_strip_cr(rest)]);
                assert(v@.skip(n as int) =~= Seq::<char>::empty());
                assert(out.deep_view() + spec_lines(v@.skip(n as int)) =~= out.deep_view());
            }
            pos = n;
        } else {
            proof {
                assert(spec_nl_len(rest) == e - pos);
                assert(spec_lines(rest) == seq![spec_strip_cr(rest.take(e - pos))] + spec_lines(
                    rest.skip(e - pos + 1),
                ));
                assert(rest.skip(e - pos + 1) =~= v@.skip(e as int + 1));
                assert(out0 + (seq![spec_strip_cr(rest.take(e - pos))] + spec_lines(
                    v@.skip(e as int + 1),
                )) =~= out.deep_view() + spec_lines(v@.skip(e as int + 1)));
            }
            pos = e + 1;
        }
    }
    proof {
        assert(v@.skip(n as int) =~= Seq::<char>::empty());
        assert(out.deep_view() + spec_lines(v@.skip(n as int)) =~= out.deep_view());
    }
    out
}

fn char_at_is_nl(v: &Vec<char>, i: usize) -> (b: bool)
    requires
        i < v@.len(),
    ensures
        b == (v@[i as int] == '\n'),
{
    v[i] == '\n'
}

fn is_cr(v: &Vec<char>, i: usize) -> (b: bool)
    requires
        i < v@.len(),
    ensures
        b == (v@[i as int] == '\r'),
{
    v[i] == '\r'
}

/// Whether a line declares the entry's command.
pub open spec fn spec_is_exec_line(l: Seq<char>) -> bool {
    spec_match_at(l, "Exec"@, 0)
}

/// How many lines declare a command.
pub open spec fn spec_count_exec(ls: Seq<Seq<char>>) -> int
    decreases ls.len(),
{
    if ls.len() == 0 {
        0
    } else {
        (if spec_is_exec_line(ls[0]) {
            1int
        } else {
            0int
        }) + spec_count_exec(ls.drop_first())
    }
}

/// The first line that declares a command, if any.
pub open spec fn spec_first_exec(ls: Seq<Seq<char>>) -> Option<Seq<char>>
    decreases ls.len(),
{
    if ls.len() == 0 {
        None
    } else if spec_is_exec_line(ls[0]) {
        Some(ls[0])
    } else {
        spec_first_exec(ls.drop_first())
    }
}

/// The command a declaration line carries: what follows the first `=`.
pub open spec fn spec_exec_value(l: Seq<char>) -> Option<Seq<char>> {
    match spec_find_from(l, "="@, 0) {
        Some(i) => Some(l.skip(i + 1)),
        None => None,
    }
}

/// Why a packaged entry file is rejected.
#[derive(Debug, Clone, Copy, PartialEq, Eq, Structural)]
pub enum DesktopEntryError {
    /// Not exactly one `Exec` line after substitution.
    WrongExecCount,
    /// The `Exec` line carries no `=`.
    MalformedExec,
}

/// A processed entry file, and whether its command differs from the expected
/// launch command — in which case the operator is told to review it.
#[derive(Debug)]
pub struct ProcessedDesktopEntry {
    pub contents: String,
    pub needs_review: bool,
}

/// While no line of the prefix declares a command, the first declaration of
/// the whole file is the first of the rest.
proof fn lemma_first_exec_skip(ls: Seq<Seq<char>>, i: int)
    requires
        0 <= i <= ls.len(),
        forall|k: int| 0 <= k < i ==> !spec_is_exec_line(#[trigger] ls[k]),
    ensures
        spec_first_exec(ls) == spec_first_exec(ls.skip(i)),
    decreases i,
{
    if i == 0 {
        assert(ls.skip(0) =~= ls);
    } else {
        assert(!spec_is_exec_line(ls[0]));
        lemma_first_exec_skip(ls.drop_first(), i - 1);
        assert forall|k: int| 0 <= k < i - 1 implies !spec_is_exec_line(
            #[trigger] ls.drop_first()[k],
        ) by {
            assert(ls.drop_first()[k] == ls[k + 1]);
        }
        assert(ls.drop_first().skip(i - 1) =~= ls.skip(i));
    }
}

/// Process one packaged launcher entry: build the launch command, substitute
/// the placeholders, and hold the file's single `Exec` line against the
/// command. A file without exactly one `Exec` line, or whose line carries no
/// `=`, is rejected; a line whose command differs from the expected one is
/// flagged for review.
pub fn process_desktop_entry(
    contents: &str,
    entry: &AppDesktopEntry,
    app: &InstalledAppPackEntry,
    icon_dir: &str,
) -> (r: Result<ProcessedDesktopEntry, DesktopEntryError>)
    ensures
        ({
            let cmd = spec_launch_cmd(app.id@, app.version@, entry.rdp_args@);
            let out = spec_entry_contents(contents@, cmd, icon_dir@, entry.icon@);
            let ls = spec_lines(out);
            match r {
                Ok(p) => {
                    &&& spec_count_exec(ls) == 1
                    &&& p.contents@ == out
                    &&& (spec_first_exec(ls) matches Some(l) && spec_exec_value(l) matches Some(v)
                        && p.needs_review == (v != cmd))
                },
                Err(DesktopEntryError::WrongExecCount) => spec_count_exec(ls) != 1,
                Err(DesktopEntryError::MalformedExec) => {
                    &&& spec_count_exec(ls) == 1
                    &&& (spec_first_exec(ls) matches Some(l) && spec_exec_value(l) is None)
                },
            }
        }),
{
    proof {
        reveal_strlit("\\");
        reveal_strlit("\"");
        reveal_strlit("$APPACK_LAUNCH_CMD");
        reveal_strlit("$ICON_DIR");
        reveal_strlit("$ICON_FULL_PATH");
    }
    let cmd: String = if entry.rdp_args.as_str().is_empty() {
        let c = String::from_str("appack launch ").concat(app.id.as_str()).concat(
            " --version=",
        ).concat(app.version.as_str());
        proof {
            assert(c@ =~= spec_launch_cmd(app.id@, app.version@, entry.rdp_args@));
        }
        c
    } else {
        let escaped_step = replace_all(entry.rdp_args.as_str(), "\\", "\\\\");
        let escaped = replace_all(escaped_step.as_str(), "\"", "\\\"");
        let c = String::from_str("appack launch ").concat(app.id.as_str()).concat(
            " \"",
        ).concat(escaped.as_str()).concat("\" --version=").concat(app.version.as_str());
        proof {
            assert(c@ =~= spec_launch_cmd(app.id@, app.version@, entry.rdp_args@));
        }
        c
    };
    let icon_full = String::from_str(icon_dir).concat("/").concat(entry.icon.as_str());
    proof {
        assert(icon_full@ =~= icon_dir@ + "/"@ + entry.icon@);
    }
    let s1 = replace_all(contents, "$APPACK_LAUNCH_CMD", cmd.as_str());
    let s2 = replace_all(s1.as_str(), "$ICON_DIR", icon_dir);
    let out = replace_all(s2.as_str(), "$ICON_FULL_PATH", icon_full.as_str());
    let ghost outv = out@;
    let ghost lsv = spec_lines(outv);

    let lines = lines_of(out.as_str());
    let exec_pat = str_to_chars("Exec");
    let n = lines.len();
    let ghost ls = lines.deep_view();
    let mut count: usize = 0;
    let mut found: Option<usize> = None;
    let mut i: usize = 0;
    proof {
        assert(ls.skip(0) =~= ls);
    }
    while i < n
        invariant
            n == lines@.len(),
            ls == lines.deep_view(),
            exec_pat@ == "Exec"@,
            i <= n,
            count <= i,
            spec_count_exec(ls) == count + spec_count_exec(ls.skip(i as int)),
            count == 0 <==> found is None,
            found is None ==> forall|k: int| 0 <= k < i ==> !spec_is_exec_line(#[trigger] ls[k]),
            found matches Some(k) ==> k < i && spec_first_exec(ls) == Some(ls[k as int]),
        decreases n - i,
    {
        proof {
            assert(ls.skip(i as int)[0] == ls[i as int]);
            assert(ls.skip(i as int).drop_first() =~= ls.skip(i as int + 1));
            assert(ls[i as int] == lines@[i as int]@);
        }
        let line_chars = str_to_chars(lines[i].as_str());
        if match_at(&line_chars, &exec_pat, 0) {
            if found.is_none() {
                proof {
                    lemma_first_exec_skip(ls, i as int);
                }
                found = Some(i);
            }
            count += 1;
        }
        i += 1;
    }
    proof {
        assert(ls.skip(n as int) =~= Seq::<Seq<char>>::empty());
    }
    if count != 1 {
        return Err(DesktopEntryError::WrongExecCount);
    }
    let k = match found {
        Some(k) => k,
        None => {
            return Err(DesktopEntryError::WrongExecCount);
        },
    };
    let line_chars = str_to_chars(lines[k].as_str());
    let eq_pat = str_to_chars("=");
    proof {
        assert(ls[k as int] == lines@[k as int]@);
    }
    match find_from(&line_chars, &eq_pat, 0) {
        None => Err(DesktopEntryError::MalformedExec),
        Some(e) => {
            proof {
                reveal_strlit("=");
                crate::template::lemma_find_from_props(line_chars@, "="@, 0);
            }
            let llen = line_chars.len();
            let value_chars = copy_range(&line_chars, e + 1, llen);
            proof {
                assert(value_chars@ =~= line_chars@.skip(e as int + 1));
            }
            let needs_review = !crate::text::str_eq(
                string_from_chars(&value_chars).as_str(),
                cmd.as_str(),
            );
            Ok(ProcessedDesktopEntry { contents: out, needs_review })
        },
    }
}

} // verus!
