//! Verified string transformations: placeholder substitution in command
//! templates and the path rewriting used for the remote-display home share.

use vstd::prelude::*;
use crate::text::{str_to_chars, string_from_chars};

verus! {

/// The pattern occurs in `s` at position `i`.
pub open spec fn spec_match_at(s: Seq<char>, pat: Seq<char>, i: int) -> bool {
    &&& 0 <= i
    &&& i + pat.len() <= s.len()
    &&& s.subrange(i, i + pat.len()) == pat
}

/// The first position at or after `from` where the (non-empty) pattern
/// occurs.
pub open spec fn spec_find_from(s: Seq<char>, pat: Seq<char>, from: int) -> Option<int>
    decreases s.len() - from,
{
    if pat.len() < 1 || from < 0 || from + pat.len() > s.len() {
        None
    } else if spec_match_at(s, pat, from) {
        Some(from)
    } else {
        spec_find_from(s, pat, from + 1)
    }
}

/// What a find answers: a hit is the first occurrence at or after `from`; a
/// miss means there is none.
pub proof fn lemma_find_from_props(s: Seq<char>, pat: Seq<char>, from: int)
    ensures
        spec_find_from(s, pat, from) matches Some(i) ==> from <= i && spec_match_at(s, pat, i)
            && (forall|j: int| from <= j < i ==> !spec_match_at(s, pat, j)),
        pat.len() >= 1 && from >= 0 && spec_find_from(s, pat, from) is None ==> (forall|j: int|
            from <= j ==> !spec_match_at(s, pat, j)),
    decreases s.len() - from,
{
    if pat.len() < 1 || from < 0 || from + pat.len() > s.len() {
    } else if spec_match_at(s, pat, from) {
    } else {
        lemma_find_from_props(s, pat, from + 1);
    }
}

/// Whether the pattern occurs in `v` at position `i`.
pub fn match_at(v: &Vec<char>, pat: &Vec<char>, i: usize) -> (b: bool)
    ensures
        b == spec_match_at(v@, pat@, i as int),
{
    if i > v.len() || pat.len() > v.len() - i {
        return false;
    }
    let mut k: usize = 0;
    while k < pat.len()
        invariant
            v@.len() <= usize::MAX,
            i + pat@.len() <= v@.len(),
            k <= pat@.len(),
            forall|m: int| 0 <= m < k ==> v@[i + m] == pat@[m],
        decreases pat@.len() - k,
    {
        if v[i + k] != pat[k] {
            proof {
                assert(v@.subrange(i as int, i + pat@.len())[k as int] == v@[i + k]);
            }
            return false;
        }
        k += 1;
    }
    proof {
        assert(v@.subrange(i as int, i + pat@.len()) =~= pat@);
    }
    true
}

/// The first occurrence of the pattern at or after `from`, if any.
pub fn find_from(v: &Vec<char>, pat: &Vec<char>, from: usize) -> (r: Option<usize>)
    ensures
        match r {
            Some(i) => Some(i as int) == spec_find_from(v@, pat@, from as int),
            None => spec_find_from(v@, pat@, from as int) is None,
        },
{
    let n = v.len();
    if pat.len() == 0 || from > n {
        return None;
    }
    let mut j: usize = from;
    while j <= n && pat.len() <= n - j
        invariant
            n == v@.len(),
            pat@.len() >= 1,
            from <= j,
            j <= n + 1,
            spec_find_from(v@, pat@, from as int) == spec_find_from(v@, pat@, j as int),
        decreases n + 1 - j,
    {
        if match_at(v, pat, j) {
            return Some(j);
        }
        j += 1;
    }
    None
}

/// Append `v[a..b]` to `out`.
pub fn push_range(out: &mut Vec<char>, v: &Vec<char>, a: usize, b: usize)
    requires
        a <= b <= v@.len(),
    ensures
        final(out)@ == old(out)@ + v@.subrange(a as int, b as int),
{
    let ghost out0 = out@;
    let mut k: usize = a;
    while k < b
        invariant
            a <= k <= b <= v@.len(),
            out@ == out0 + v@.subrange(a as int, k as int),
        decreases b - k,
    {
        out.push(v[k]);
        proof {
            assert(out@ =~= out0 + v@.subrange(a as int, k as int + 1));
        }
        k += 1;
    }
    proof {
        assert(out@ =~= out0 + v@.subrange(a as int, b as int));
    }
}

/// The text from `pos` on, with every occurrence of the pattern replaced —
/// left to right, never rescanning what a replacement inserted.
pub open spec fn spec_replace_from(
    s: Seq<char>,
    pat: Seq<char>,
    rep: Seq<char>,
    pos: int,
) -> Seq<char>
    decreases s.len() - pos,
    when pat.len() >= 1 && 0 <= pos
    via spec_replace_from_decreases
{
    match spec_find_from(s, pat, pos) {
        None => s.subrange(pos, s.len() as int),
        Some(i) => s.subrange(pos, i) + rep + spec_replace_from(s, pat, rep, i + pat.len() as int),
    }
}

#[via_fn]
proof fn spec_replace_from_decreases(s: Seq<char>, pat: Seq<char>, rep: Seq<char>, pos: int) {
    lemma_find_from_props(s, pat, pos);
}

/// The whole text with every occurrence of the pattern replaced.
pub open spec fn spec_replace_all(s: Seq<char>, pat: Seq<char>, rep: Seq<char>) -> Seq<char> {
    spec_replace_from(s, pat, rep, 0)
}

/// Replace every occurrence of `pat` in `s` by `rep`, left to right, without
/// rescanning replacements.
pub fn replace_all(s: &str, pat: &str, rep: &str) -> (r: String)
    requires
        pat@.len() >= 1,
    ensures
        r@ == spec_replace_all(s@, pat@, rep@),
{
    let v = str_to_chars(s);
    let p = str_to_chars(pat);
    let rp = str_to_chars(rep);
    let out = replace_all_chars(&v, &p, &rp);
    string_from_chars(&out)
}

/// As `replace_all`, over character vectors.
pub fn replace_all_chars(v: &Vec<char>, p: &Vec<char>, rp: &Vec<char>) -> (out: Vec<char>)
    requires
        p@.len() >= 1,
    ensures
        out@ == spec_replace_all(v@, p@, rp@),
{
    let n = v.len();
    let mut out: Vec<char> = Vec::new();
    let mut pos: usize = 0;
    loop
        invariant
            n == v@.len(),
            p@.len() >= 1,
            pos <= v@.len(),
            spec_replace_all(v@, p@, rp@) == out@ + spec_replace_from(v@, p@, rp@, pos as int),
        decreases v@.len() - pos,
    {
        proof {
            lemma_find_from_props(v@, p@, pos as int);
        }
        match find_from(v, p, pos) {
            None => {
                push_range(&mut out, v, pos, n);
                proof {
                    assert(spec_replace_from(v@, p@, rp@, pos as int) == v@.subrange(
                        pos as int,
                        v@.len() as int,
                    ));
                }
                return out;
            },
            Some(i) => {
                let ghost out0 = out@;
                push_range(&mut out, v, pos, i);
                let ghost out1 = out@;
                let mut k: usize = 0;
                while k < rp.len()
                    invariant
                        k <= rp@.len(),
                        out@ == out1 + rp@.take(k as int),
                    decreases rp@.len() - k,
                {
                    out.push(rp[k]);
                    proof {
                        assert(out@ =~= out1 + rp@.take(k as int + 1));
                    }
                    k += 1;
                }
                proof {
                    assert(rp@.take(rp@.len() as int) =~= rp@);
                    assert(out@ =~= out0 + (v@.subrange(pos as int, i as int) + rp@));
                    assert(spec_replace_from(v@, p@, rp@, pos as int) == v@.subrange(
                        pos as int,
                        i as int,
                    ) + rp@ + spec_replace_from(v@, p@, rp@, i + p@.len() as int));
                    assert(out0 + (v@.subrange(pos as int, i as int) + rp@) + spec_replace_from(
                        v@,
                        p@,
                        rp@,
                        i + p@.len() as int,
                    ) =~= out0 + spec_replace_from(v@, p@, rp@, pos as int));
                }
                pos = i + p.len();
            },
        }
    }
}

/// A copy of `v[a..b]`.
pub fn copy_range(v: &Vec<char>, a: usize, b: usize) -> (out: Vec<char>)
    requires
        a <= b <= v@.len(),
    ensures
        out@ == v@.subrange(a as int, b as int),
{
    let mut out: Vec<char> = Vec::new();
    push_range(&mut out, v, a, b);
    proof {
        assert(out@ =~= v@.subrange(a as int, b as int));
    }
    out
}

/// Append all of `more` to `out`.
pub fn push_all(out: &mut Vec<char>, more: &Vec<char>)
    ensures
        final(out)@ == old(out)@ + more@,
{
    let ghost out0 = out@;
    push_range(out, more, 0, more.len());
    proof {
        assert(more@.subrange(0, more@.len() as int) =~= more@);
    }
}

/// The text without its leading '/' characters.
pub open spec fn spec_trim_leading_slashes(s: Seq<char>) -> Seq<char>
    decreases s.len(),
{
    if s.len() == 0 || s[0] != '/' {
        s
    } else {
        spec_trim_leading_slashes(s.drop_first())
    }
}

/// The text with every '/' replaced by '\'.
pub open spec fn spec_to_backslashes(s: Seq<char>) -> Seq<char> {
    Seq::new(s.len(), |i: int| if s[i] == '/' { '\\' } else { s[i] })
}

/// A path rewritten for the remote-display home share: an empty path stays
/// empty; otherwise surrounding single quotes are dropped, a `/home/<user>/`
/// prefix is stripped through the first '/' after the user name, leading
/// slashes go, '/' becomes '\', and the share prefix `\\tsclient\home\` is
/// put in front.
pub open spec fn spec_win_escaped(path: Seq<char>) -> Seq<char> {
    if path.len() == 0 {
        Seq::empty()
    } else {
        let unquoted = if path.len() >= 2 && path[0] == '\'' && path[path.len() - 1] == '\'' {
            path.subrange(1, path.len() - 1)
        } else {
            path
        };
        let stripped = if spec_match_at(unquoted, "/home/"@, 0) {
            match spec_find_from(unquoted, "/"@, 6) {
                Some(j) => unquoted.subrange(j + 1, unquoted.len() as int),
                None => unquoted,
            }
        } else {
            unquoted
        };
        "\\\\tsclient\\home\\"@ + spec_to_backslashes(spec_trim_leading_slashes(stripped))
    }
}

/// As `to_win_escaped_path`, over character vectors.
pub fn win_escape_chars(v: &Vec<char>) -> (out: Vec<char>)
    ensures
        out@ == spec_win_escaped(v@),
{
    let n = v.len();
    if n == 0 {
        let empty: Vec<char> = Vec::new();
        proof {
            assert(empty@ =~= spec_win_escaped(v@));
        }
        return empty;
    }
    let inner: Vec<char> = if n >= 2 && v[0] == '\'' && v[n - 1] == '\'' {
        copy_range(v, 1, n - 1)
    } else {
        copy_range(v, 0, n)
    };
    proof {
        assert(v@.subrange(0, n as int) =~= v@);
    }
    let home = str_to_chars("/home/");
    let slash = str_to_chars("/");
    let stripped: Vec<char> = if match_at(&inner, &home, 0) {
        proof {
            lemma_find_from_props(inner@, "/"@, 6);
            reveal_strlit("/");
        }
        match find_from(&inner, &slash, 6) {
            Some(j) => copy_range(&inner, j + 1, inner.len()),
            None => inner,
        }
    } else {
        inner
    };
    let m = stripped.len();
    let mut k: usize = 0;
    proof {
        assert(stripped@.skip(0) =~= stripped@);
    }
    while k < m && stripped[k] == '/'
        invariant
            m == stripped@.len(),
            k <= m,
            spec_trim_leading_slashes(stripped@) == spec_trim_leading_slashes(
                stripped@.skip(k as int),
            ),
        decreases m - k,
    {
        proof {
            assert(stripped@.skip(k as int)[0] == stripped@[k as int]);
            assert(stripped@.skip(k as int).drop_first() =~= stripped@.skip(k as int + 1));
        }
        k += 1;
    }
    let ghost clean = spec_trim_leading_slashes(stripped@);
    proof {
        assert(clean == stripped@.skip(k as int));
    }
    let mut out = str_to_chars("\\\\tsclient\\home\\");
    let ghost prefix = out@;
    let mut i: usize = k;
    proof {
        assert(spec_to_backslashes(clean).take(0) =~= Seq::<char>::empty());
        assert(out@ =~= prefix + spec_to_backslashes(clean).take(0));
    }
    while i < m
        invariant
            m == stripped@.len(),
            k <= i <= m,
            clean == stripped@.skip(k as int),
            out@ == prefix + spec_to_backslashes(clean).take(i - k),
        decreases m - i,
    {
        let c = stripped[i];
        out.push(if c == '/' {
            '\\'
        } else {
            c
        });
        proof {
            assert(clean[i - k] == stripped@[i as int]);
            assert(out@ =~= prefix + spec_to_backslashes(clean).take(i + 1 - k));
        }
        i += 1;
    }
    proof {
        assert(spec_to_backslashes(clean).take(m - k) =~= spec_to_backslashes(clean));
    }
    out
}

/// Rewrite a path for the remote-display home share (see `spec_win_escaped`).
pub fn to_win_escaped_path(path: &str) -> (r: String)
    ensures
        r@ == spec_win_escaped(path@),
{
    let v = str_to_chars(path);
    let out = win_escape_chars(&v);
    string_from_chars(&out)
}

/// The text from `pos` on with every `$TO_WIN_ESCAPED_PATH**…**` span
/// replaced by its argument rewritten for the home share, spaces escaped as
/// `$WHITESPACE` so the argument survives later word splitting. A span opened
/// without its terminator is left as it stands.
pub open spec fn spec_detect_replace_from(s: Seq<char>, pos: int) -> Seq<char>
    decreases s.len() - pos,
    when 0 <= pos
    via spec_detect_replace_from_decreases
{
    match spec_find_from(s, "$TO_WIN_ESCAPED_PATH**"@, pos) {
        None => s.subrange(pos, s.len() as int),
        Some(i) => {
            let arg_start = i + "$TO_WIN_ESCAPED_PATH**"@.len();
            match spec_find_from(s, "**"@, arg_start as int) {
                None => s.subrange(pos, s.len() as int),
                Some(j) => s.subrange(pos, i) + spec_replace_all(
                    spec_win_escaped(s.subrange(arg_start as int, j)),
                    " "@,
                    "$WHITESPACE"@,
                ) + spec_detect_replace_from(s, j + "**"@.len()),
            }
        },
    }
}

#[via_fn]
proof fn spec_detect_replace_from_decreases(s: Seq<char>, pos: int) {
    reveal_strlit("$TO_WIN_ESCAPED_PATH**");
    reveal_strlit("**");
    lemma_find_from_props(s, "$TO_WIN_ESCAPED_PATH**"@, pos);
    match spec_find_from(s, "$TO_WIN_ESCAPED_PATH**"@, pos) {
        None => {},
        Some(i) => {
            lemma_find_from_props(s, "**"@, i + "$TO_WIN_ESCAPED_PATH**"@.len());
        },
    }
}

/// The whole text with every `$TO_WIN_ESCAPED_PATH**…**` span rewritten.
pub open spec fn spec_detect_replace(s: Seq<char>) -> Seq<char> {
    spec_detect_replace_from(s, 0)
}

/// Replace each `$TO_WIN_ESCAPED_PATH**…**` span in a command line by its
/// argument rewritten for the home share, with spaces escaped as
/// `$WHITESPACE`.
pub fn detect_and_replace_win_escape(argstr: &str) -> (r: String)
    ensures
        r@ == spec_detect_replace(argstr@),
{
    let v = str_to_chars(argstr);
    let n = v.len();
    let start_pat = str_to_chars("$TO_WIN_ESCAPED_PATH**");
    let end_pat = str_to_chars("**");
    let space = str_to_chars(" ");
    let ws_rep = str_to_chars("$WHITESPACE");
    let mut out: Vec<char> = Vec::new();
    let mut pos: usize = 0;
    proof {
        reveal_strlit(" ");
        assert(out@ + spec_detect_replace_from(v@, 0) =~= spec_detect_replace_from(v@, 0));
    }
    loop
        invariant
            v@ == argstr@,
            n == v@.len(),
            pos <= n,
            start_pat@ == "$TO_WIN_ESCAPED_PATH**"@,
            end_pat@ == "**"@,
            space@ == " "@,
            ws_rep@ == "$WHITESPACE"@,
            spec_detect_replace(v@) == out@ + spec_detect_replace_from(v@, pos as int),
        decreases n - pos,
    {
        proof {
            reveal_strlit("$TO_WIN_ESCAPED_PATH**");
            reveal_strlit("**");
            reveal_strlit(" ");
            lemma_find_from_props(v@, "$TO_WIN_ESCAPED_PATH**"@, pos as int);
        }
        match find_from(&v, &start_pat, pos) {
            None => {
                proof {
                    assert(spec_find_from(v@, "$TO_WIN_ESCAPED_PATH**"@, pos as int) is None);
                    assert(spec_detect_replace_from(v@, pos as int) == v@.subrange(
                        pos as int,
                        n as int,
                    ));
                }
                push_range(&mut out, &v, pos, n);
                return string_from_chars(&out);
            },
            Some(i) => {
                let arg_start = i + start_pat.len();
                proof {
                    lemma_find_from_props(v@, "**"@, arg_start as int);
                }
                match find_from(&v, &end_pat, arg_start) {
                    None => {
                        proof {
                            assert(spec_find_from(v@, "$TO_WIN_ESCAPED_PATH**"@, pos as int)
                                == Some(i as int));
                            assert(spec_find_from(v@, "**"@, arg_start as int) is None);
                            assert(spec_detect_replace_from(v@, pos as int) == v@.subrange(
                                pos as int,
                                n as int,
                            ));
                        }
                        push_range(&mut out, &v, pos, n);
                        return string_from_chars(&out);
                    },
                    Some(j) => {
                        let ghost out0 = out@;
                        push_range(&mut out, &v, pos, i);
                        let arg = copy_range(&v, arg_start, j);
                        let win = win_escape_chars(&arg);
                        let escaped = replace_all_chars(&win, &space, &ws_rep);
                        push_all(&mut out, &escaped);
                        proof {
                            assert(out@ =~= out0 + (v@.subrange(pos as int, i as int)
                                + spec_replace_all(
                                spec_win_escaped(v@.subrange(arg_start as int, j as int)),
                                " "@,
                                "$WHITESPACE"@,
                            )));
                            assert(out0 + (v@.subrange(pos as int, i as int) + spec_replace_all(
                                spec_win_escaped(v@.subrange(arg_start as int, j as int)),
                                " "@,
                                "$WHITESPACE"@,
                            )) + spec_detect_replace_from(v@, j + "**"@.len()) =~= out0
                                + spec_detect_replace_from(v@, pos as int));
                        }
                        pos = j + end_pat.len();
                    },
                }
            },
        }
    }
}

/// The whitespace that separates words of a command line.
pub open spec fn spec_is_ws(c: char) -> bool {
    c == ' ' || c == '\t' || c == '\n' || c == '\r'
}

/// Length of the leading run of non-whitespace characters.
pub open spec fn spec_word_len(s: Seq<char>) -> int
    decreases s.len(),
{
    if s.len() == 0 || spec_is_ws(s[0]) {
        0
    } else {
        1 + spec_word_len(s.drop_first())
    }
}

/// The leading word covers a prefix of the text.
pub proof fn lemma_word_len_bounds(s: Seq<char>)
    ensures
        0 <= spec_word_len(s) <= s.len(),
        forall|i: int| 0 <= i < spec_word_len(s) ==> !spec_is_ws(s[i]),
        spec_word_len(s) < s.len() ==> spec_is_ws(s[spec_word_len(s)]),
    decreases s.len(),
{
    if s.len() == 0 || spec_is_ws(s[0]) {
    } else {
        lemma_word_len_bounds(s.drop_first());
        let w = spec_word_len(s);
        assert forall|i: int| 0 <= i < w implies !spec_is_ws(s[i]) by {
            if i > 0 {
                assert(s.drop_first()[i - 1] == s[i]);
            }
        }
        if w < s.len() {
            assert(s.drop_first()[w - 1] == s[w]);
        }
    }
}

/// The words of the text, in order: maximal runs of non-whitespace.
pub open spec fn spec_split_ws(s: Seq<char>) -> Seq<Seq<char>>
    decreases s.len(),
    via spec_split_ws_decreases
{
    if s.len() == 0 {
        Seq::empty()
    } else if spec_is_ws(s[0]) {
        spec_split_ws(s.drop_first())
    } else {
        seq![s.take(spec_word_len(s))] + spec_split_ws(s.skip(spec_word_len(s)))
    }
}

#[via_fn]
proof fn spec_split_ws_decreases(s: Seq<char>) {
    lemma_word_len_bounds(s);
}

/// Split the text on whitespace, as the words of a command line.
pub fn split_whitespace_args(s: &str) -> (out: Vec<String>)
    ensures
        out.deep_view() == spec_split_ws(s@),
{
    let v = str_to_chars(s);
    let n = v.len();
    let mut out: Vec<String> = Vec::new();
    let mut pos: usize = 0;
    proof {
        assert(v@.skip(0) =~= v@);
        assert(out.deep_view() + spec_split_ws(v@) =~= spec_split_ws(v@));
    }
    while pos < n
        invariant
            v@ == s@,
            n == v@.len(),
            pos <= n,
            spec_split_ws(s@) == out.deep_view() + spec_split_ws(v@.skip(pos as int)),
        decreases n - pos,
    {
        if is_ws(v[pos]) {
            proof {
                assert(v@.skip(pos as int)[0] == v@[pos as int]);
                assert(v@.skip(pos as int).drop_first() =~= v@.skip(pos as int + 1));
            }
            pos += 1;
        } else {
            let mut e: usize = pos;
            while e < n && !is_ws_exec(&v, e)
                invariant
                    n == v@.len(),
                    pos <= e <= n,
                    forall|m: int| pos <= m < e ==> !spec_is_ws(v@[m]),
                decreases n - e,
            {
                e += 1;
            }
            let ghost rest = v@.skip(pos as int);
            proof {
                lemma_word_len_of(rest, e - pos);
                assert forall|m: int| 0 <= m < e - pos implies !spec_is_ws(rest[m]) by {
                    assert(rest[m] == v@[pos + m]);
                }
                if e < n {
                    assert(rest[e - pos] == v@[e as int]);
                }
                assert(spec_word_len(rest) == e - pos);
            }
            let word_chars = copy_range(&v, pos, e);
            let word = string_from_chars(&word_chars);
            let ghost out0 = out.deep_view();
            out.push(word);
            proof {
                assert(rest.take(e - pos) =~= v@.subrange(pos as int, e as int));
                assert(out.deep_view() =~= out0.push(rest.take(spec_word_len(rest))));
                assert(rest.skip(spec_word_len(rest)) =~= v@.skip(e as int));
                assert(out0 + (seq![rest.take(spec_word_len(rest))] + spec_split_ws(
                    v@.skip(e as int),
                )) =~= out.deep_view() + spec_split_ws(v@.skip(e as int)));
            }
            pos = e;
        }
    }
    proof {
        assert(v@.skip(n as int) =~= Seq::<char>::empty());
        assert(out.deep_view() + spec_split_ws(v@.skip(n as int)) =~= out.deep_view());
    }
    out
}

/// Whether a character separates command-line words.
pub fn is_ws(c: char) -> (b: bool)
    ensures
        b == spec_is_ws(c),
{
    c == ' ' || c == '\t' || c == '\n' || c == '\r'
}

fn is_ws_exec(v: &Vec<char>, i: usize) -> (b: bool)
    requires
        i < v@.len(),
    ensures
        b == spec_is_ws(v@[i as int]),
{
    is_ws(v[i])
}

/// A run of non-whitespace of length `w`, ended by the text's end or a
/// whitespace character, is the leading word.
proof fn lemma_word_len_of(s: Seq<char>, w: int)
    requires
        0 <= w <= s.len(),
        forall|i: int| 0 <= i < w ==> !spec_is_ws(#[trigger] s[i]),
        w < s.len() ==> spec_is_ws(s[w]),
    ensures
        spec_word_len(s) == w,
    decreases s.len(),
{
    if s.len() == 0 || spec_is_ws(s[0]) {
    } else {
        assert forall|i: int| 0 <= i < w - 1 implies !spec_is_ws(#[trigger] s.drop_first()[i]) by {
            assert(s.drop_first()[i] == s[i + 1]);
        }
        if w - 1 < s.drop_first().len() {
            assert(s.drop_first()[w - 1] == s[w]);
        }
        lemma_word_len_of(s.drop_first(), w - 1);
    }
}

} // verus!
