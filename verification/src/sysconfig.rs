//! The SDK's Keil SysConfig launcher files (`syscfg.bat` and
//! `MSPM0_SDK_syscfg_menu_import.cfg`) and the line edits that point them at
//! the selected SysConfig and SDK.
use vstd::prelude::*;
use crate::text::{
    append_chars, chars_of, join_chars, join_seq, lines_of, map_char, map_char_seq, matches_at,
    occurs_at, seq_contains, split_lines, starts_with_chars, string_of, trim_start_chars,
    trim_start_seq, views, find_from, slice_chars,
};
use crate::text::{
    ends_cr, ends_nl, is_line_ending, is_ws, lemma_join_front, lemma_join_last, lemma_join_no_crlf,
    lemma_lines_facts, lemma_lines_join_plain, lemma_lines_join_trailing, no_newline, path_sep, tokens,
};
use crate::winpath::{
    drive_of, file_name_of, file_name_spec, last_named, named_count, path_join_spec, path_join_str,
};

verus! {

/// A line whose text, after leading whitespace, starts with `prefix`.
pub open spec fn line_has_prefix(line: Seq<char>, prefix: Seq<char>) -> bool {
    prefix.is_prefix_of(trim_start_seq(line))
}

pub open spec fn is_first_prefixed(lines: Seq<Seq<char>>, prefix: Seq<char>, i: int) -> bool {
    &&& 0 <= i < lines.len()
    &&& line_has_prefix(lines[i], prefix)
    &&& forall|j: int| 0 <= j < i ==> !line_has_prefix(#[trigger] lines[j], prefix)
}

/// `\r\n` when the text uses it anywhere, else `\n`.
pub open spec fn config_newline(content: Seq<char>) -> Seq<char> {
    if seq_contains(content, seq!['\r', '\n']) {
        seq!['\r', '\n']
    } else {
        seq!['\n']
    }
}

pub open spec fn missing_entry_message(prefix: Seq<char>) -> Seq<char> {
    "配置文件缺少 "@ + prefix + " 配置项"@
}

/// The text with its first line that starts with `prefix` replaced by
/// `replacement`, lines rejoined with the text's own line ending and a final
/// line ending kept; an error when no line starts with `prefix`.
pub open spec fn replaced_config(content: Seq<char>, prefix: Seq<char>, replacement: Seq<char>) -> Result<
    Seq<char>,
    Seq<char>,
> {
    let ls = lines_of(content);
    if exists|i: int| is_first_prefixed(ls, prefix, i) {
        let i = choose|i: int| is_first_prefixed(ls, prefix, i);
        let body = join_seq(ls.update(i, replacement), config_newline(content));
        Ok(
            if content.len() > 0 && content.last() == '\n' {
                body + config_newline(content)
            } else {
                body
            },
        )
    } else {
        Err(missing_entry_message(prefix))
    }
}

pub proof fn lemma_first_prefixed_unique(lines: Seq<Seq<char>>, prefix: Seq<char>, a: int, b: int)
    requires
        is_first_prefixed(lines, prefix, a),
        is_first_prefixed(lines, prefix, b),
    ensures
        a == b,
{
    if a < b {
        assert(!line_has_prefix(lines[a], prefix));
    }
    if b < a {
        assert(!line_has_prefix(lines[b], prefix));
    }
}

/// Index of the first line that starts with `prefix` after leading whitespace.
fn first_prefixed_line(lines: &Vec<Vec<char>>, prefix: &Vec<char>) -> (r: Option<usize>)
    ensures
        match r {
            Some(i) => is_first_prefixed(views(lines@), prefix@, i as int),
            None => forall|k: int| !is_first_prefixed(views(lines@), prefix@, k),
        },
{
    let ghost ls = views(lines@);
    let mut i: usize = 0;
    while i < lines.len()
        invariant
            i <= lines.len(),
            ls == views(lines@),
            forall|j: int| 0 <= j < i ==> !line_has_prefix(#[trigger] ls[j], prefix@),
        decreases lines.len() - i,
    {
        let trimmed = trim_start_chars(&lines[i]);
        if starts_with_chars(&trimmed, prefix) {
            return Some(i);
        }
        i += 1;
    }
    proof {
        assert forall|k: int| !is_first_prefixed(ls, prefix@, k) by {
            if 0 <= k < ls.len() {
                assert(!line_has_prefix(ls[k], prefix@));
            }
        }
    }
    None
}

pub(crate) fn replace_config_line_chars(content: &Vec<char>, prefix: &Vec<char>, replacement: &Vec<char>) -> (r:
    Result<Vec<char>, Vec<char>>)
    ensures
        match r {
            Ok(t) => replaced_config(content@, prefix@, replacement@) == Ok::<Seq<char>, Seq<char>>(t@),
            Err(e) => replaced_config(content@, prefix@, replacement@) == Err::<Seq<char>, Seq<char>>(e@),
        },
{
    let crlf = chars_of("\r\n");
    proof {
        reveal_strlit("\r\n");
    }
    let newline: Vec<char> = if find_from(content, &crlf, 0).is_some() {
        crlf
    } else {
        vec!['\n']
    };
    proof {
        assert(crlf@ =~= seq!['\r', '\n']);
        assert(newline@ =~= config_newline(content@));
    }
    let mut lines = split_lines(content);
    let ghost ls = views(lines@);
    let found = first_prefixed_line(&lines, prefix);
    if found.is_none() {
        let mut msg = chars_of("配置文件缺少 ");
        append_chars(&mut msg, prefix);
        append_chars(&mut msg, &chars_of(" 配置项"));
        return Err(msg);
    }
    let i = found.unwrap();
    proof {
        let c = choose|k: int| is_first_prefixed(ls, prefix@, k);
        lemma_first_prefixed_unique(ls, prefix@, c, i as int);
    }
    lines.set(i, replacement.clone());
    assert(views(lines@) =~= ls.update(i as int, replacement@));
    let mut body = join_chars(&lines, &newline);
    if content.len() > 0 && content[content.len() - 1] == '\n' {
        append_chars(&mut body, &newline);
    }
    Ok(body)
}

/// Replaces the first line of `content` that starts (after leading whitespace)
/// with `prefix` by `replacement`; an error names the missing entry.
pub fn replace_config_line(content: &str, prefix: &str, replacement: &str) -> (r: Result<String, String>)
    ensures
        match r {
            Ok(t) => replaced_config(content@, prefix@, replacement@) == Ok::<Seq<char>, Seq<char>>(t@),
            Err(e) => replaced_config(content@, prefix@, replacement@) == Err::<Seq<char>, Seq<char>>(e@),
        },
{
    match replace_config_line_chars(&chars_of(content), &chars_of(prefix), &chars_of(replacement)) {
        Ok(t) => Ok(string_of(&t)),
        Err(e) => Err(string_of(&e)),
    }
}

/// `nw\nw.exe` under a SysConfig root: its graphical front end.
pub open spec fn nw_executable_spec(root: Seq<char>) -> Seq<char> {
    path_join_spec(path_join_spec(root, "nw"@), "nw.exe"@)
}

pub fn sysconfig_nw_executable(root: &Vec<char>) -> (r: Vec<char>)
    ensures
        r@ == nw_executable_spec(root@),
{
    let nw = path_join_str(root, "nw");
    path_join_str(&nw, "nw.exe")
}

/// The version that a SysConfig root directory such as `sysconfig_1.26.2`
/// names, or `custom`.
pub open spec fn sysconfig_version_spec(sysconfig: Seq<char>) -> Seq<char> {
    match file_name_spec(sysconfig) {
        Some(n) => if "sysconfig_"@.is_prefix_of(n) {
            n.skip("sysconfig_"@.len() as int)
        } else {
            "custom"@
        },
        None => "custom"@,
    }
}

pub open spec fn bat_line_spec(sysconfig: Seq<char>) -> Seq<char> {
    "set SYSCFG_PATH=\""@ + path_join_spec(sysconfig, "sysconfig_cli.bat"@) + "\""@
}

pub open spec fn title_line_spec(sdk_version: Seq<char>, sysconfig: Seq<char>) -> Seq<char> {
    "[Sysconfig v"@ + sysconfig_version_spec(sysconfig) + " - MSPM0 SDK v"@ + map_char_seq(
        sdk_version,
        '.',
        '_',
    ) + "]"@
}

pub open spec fn command_line_spec(sysconfig: Seq<char>) -> Seq<char> {
    "Command=\""@ + nw_executable_spec(sysconfig) + "\" \""@ + sysconfig + "\""@
}

pub open spec fn folder_line_spec(sdk: Seq<char>) -> Seq<char> {
    "Initial Folder="@ + sdk
}

/// The two launcher files, rewritten for the selected SDK and SysConfig.
pub open spec fn rendered_sysconfig_files(
    bat: Seq<char>,
    cfg: Seq<char>,
    sdk: Seq<char>,
    sdk_version: Seq<char>,
    sysconfig: Seq<char>,
) -> Result<(Seq<char>, Seq<char>), Seq<char>> {
    match replaced_config(bat, "set SYSCFG_PATH="@, bat_line_spec(sysconfig)) {
        Err(e) => Err(e),
        Ok(b) => match replaced_config(cfg, "["@, title_line_spec(sdk_version, sysconfig)) {
            Err(e) => Err(e),
            Ok(c1) => match replaced_config(c1, "Command="@, command_line_spec(sysconfig)) {
                Err(e) => Err(e),
                Ok(c2) => match replaced_config(c2, "Initial Folder="@, folder_line_spec(sdk)) {
                    Err(e) => Err(e),
                    Ok(c3) => Ok((b, c3)),
                },
            },
        },
    }
}

fn sysconfig_version(sysconfig: &Vec<char>) -> (r: Vec<char>)
    ensures
        r@ == sysconfig_version_spec(sysconfig@),
{
    let prefix = chars_of("sysconfig_");
    match file_name_of(sysconfig) {
        Some(n) => {
            if starts_with_chars(&n, &prefix) {
                let v = slice_chars(&n, prefix.len(), n.len());
                assert(v@ =~= n@.skip(prefix@.len() as int));
                v
            } else {
                chars_of("custom")
            }
        },
        None => chars_of("custom"),
    }
}

/// Rewrites `syscfg.bat` (`bat`) and the menu import file (`cfg`) so that they
/// launch the SysConfig at `sysconfig` for the SDK at `sdk`.
pub fn render_keil_sysconfig_files(
    bat: &str,
    cfg: &str,
    sdk: &str,
    sdk_version: &str,
    sysconfig: &str,
) -> (r: Result<(String, String), String>)
    ensures
        match r {
            Ok((b, c)) => rendered_sysconfig_files(bat@, cfg@, sdk@, sdk_version@, sysconfig@) == Ok::<
                (Seq<char>, Seq<char>),
                Seq<char>,
            >((b@, c@)),
            Err(e) => rendered_sysconfig_files(bat@, cfg@, sdk@, sdk_version@, sysconfig@) == Err::<
                (Seq<char>, Seq<char>),
                Seq<char>,
            >(e@),
        },
{
    let root = chars_of(sysconfig);
    let sdk_chars = chars_of(sdk);
    let quote = chars_of("\"");

    let mut bat_line = chars_of("set SYSCFG_PATH=\"");
    append_chars(&mut bat_line, &path_join_str(&root, "sysconfig_cli.bat"));
    append_chars(&mut bat_line, &quote);

    let mut title = chars_of("[Sysconfig v");
    append_chars(&mut title, &sysconfig_version(&root));
    append_chars(&mut title, &chars_of(" - MSPM0 SDK v"));
    append_chars(&mut title, &map_char(&chars_of(sdk_version), '.', '_'));
    append_chars(&mut title, &chars_of("]"));

    let mut command = chars_of("Command=\"");
    append_chars(&mut command, &sysconfig_nw_executable(&root));
    append_chars(&mut command, &chars_of("\" \""));
    append_chars(&mut command, &root);
    append_chars(&mut command, &quote);

    let mut folder = chars_of("Initial Folder=");
    append_chars(&mut folder, &sdk_chars);

    let new_bat = match replace_config_line_chars(&chars_of(bat), &chars_of("set SYSCFG_PATH="), &bat_line) {
        Ok(t) => t,
        Err(e) => return Err(string_of(&e)),
    };
    let c1 = match replace_config_line_chars(&chars_of(cfg), &chars_of("["), &title) {
        Ok(t) => t,
        Err(e) => return Err(string_of(&e)),
    };
    let c2 = match replace_config_line_chars(&c1, &chars_of("Command="), &command) {
        Ok(t) => t,
        Err(e) => return Err(string_of(&e)),
    };
    let c3 = match replace_config_line_chars(&c2, &chars_of("Initial Folder="), &folder) {
        Ok(t) => t,
        Err(e) => return Err(string_of(&e)),
    };
    Ok((string_of(&new_bat), string_of(&c3)))
}

// ---------------------------------------------------------------------------
// Rendering twice
// ---------------------------------------------------------------------------

/// The text is what its own lines give when written back with its line
/// ending (and its final line ending, when it has one).
pub open spec fn config_canonical(t: Seq<char>) -> bool {
    t == join_seq(lines_of(t), config_newline(t)) + (if ends_nl(t) {
        config_newline(t)
    } else {
        seq![]
    })
}

/// A replacement line that reads back as itself: no `\n`, not empty, not
/// ending with `\r`.
pub open spec fn safe_line(rep: Seq<char>) -> bool {
    no_newline(rep) && rep.len() > 0 && !ends_cr(rep)
}

proof fn lemma_contains_crlf_has_newline(c: Seq<char>)
    requires
        seq_contains(c, seq!['\r', '\n']),
    ensures
        exists|j: int| 0 <= j < c.len() && c[j] == '\n',
{
    let j = choose|j: int| occurs_at(c, seq!['\r', '\n'], j);
    assert(c.subrange(j, j + 2)[1] == c[j + 1]);
}

/// What one replacement gives: the lines of the text with the first
/// prefixed one replaced, the same line ending, the same final line ending,
/// and a text that its lines give back.
pub proof fn lemma_replaced_config_result(c: Seq<char>, p: Seq<char>, rep: Seq<char>, t: Seq<char>)
    requires
        replaced_config(c, p, rep) == Ok::<Seq<char>, Seq<char>>(t),
        safe_line(rep),
    ensures
        exists|i: int| is_first_prefixed(lines_of(c), p, i) && lines_of(t) == lines_of(c).update(i, rep),
        config_newline(t) == config_newline(c),
        ends_nl(t) == ends_nl(c),
        config_canonical(t),
{
    let ls = lines_of(c);
    let i = choose|i: int| is_first_prefixed(ls, p, i);
    let nl = config_newline(c);
    let ls2 = ls.update(i, rep);
    let body = join_seq(ls2, nl);
    let tail: Seq<char> = if ends_nl(c) { nl } else { seq![] };
    assert(t == body + tail);
    lemma_lines_facts(c);
    assert(is_line_ending(nl));
    assert forall|k: int| 0 <= k < ls2.len() implies no_newline(#[trigger] ls2[k]) by {
        if k != i {
            assert(ls2[k] == ls[k]);
        }
    }
    assert forall|k: int| 0 <= k < ls2.len() && (k < ls2.len() - 1 || ends_nl(c)) && nl == seq!['\n'] implies !ends_cr(
        #[trigger] ls2[k],
    ) by {
        if k != i {
            assert(ls2[k] == ls[k]);
            assert(!seq_contains(c, seq!['\r', '\n']));
        }
    }
    if ends_nl(c) {
        assert forall|k: int| 0 <= k < ls2.len() implies crate::text::fits_line(#[trigger] ls2[k], nl) by {}
        lemma_lines_join_trailing(ls2, nl);
        assert(t =~= body + nl);
        assert(t.last() == nl.last());
    } else {
        assert forall|k: int| 0 <= k < ls2.len() - 1 implies crate::text::fits_line(#[trigger] ls2[k], nl) by {}
        if i != ls2.len() - 1 {
            assert(ls2.last() == ls.last());
        }
        lemma_lines_join_plain(ls2, nl);
        assert(t =~= body);
        lemma_join_last(ls2, nl);
        assert(no_newline(ls2.last()));
        assert(ls2.last()[ls2.last().len() - 1] != '\n');
    }
    assert(lines_of(t) == ls2);
    if nl == seq!['\r', '\n'] {
        lemma_contains_crlf_has_newline(c);
        if ls2.len() >= 2 {
            lemma_join_front(ls2, nl);
            let a = ls2[0];
            assert(t.subrange(a.len() as int, a.len() as int + 2) =~= seq!['\r', '\n']);
            assert(occurs_at(t, seq!['\r', '\n'], a.len() as int));
        } else {
            assert(ends_nl(c));
            assert(body == ls2[0]);
            let a = ls2[0];
            assert(t.subrange(a.len() as int, a.len() as int + 2) =~= seq!['\r', '\n']);
            assert(occurs_at(t, seq!['\r', '\n'], a.len() as int));
        }
        assert(config_newline(t) == nl);
    } else {
        assert forall|k: int| 0 <= k < ls2.len() && (k < ls2.len() - 1 || ends_nl(c)) implies !ends_cr(#[trigger] ls2[k]) by {}
        lemma_join_no_crlf(ls2, ends_nl(c));
        assert(config_newline(t) == nl);
    }
}

/// A text that its lines give back, whose first line with `p` is `rep`
/// already, stays as it is.
pub proof fn lemma_replaced_config_fixpoint(t: Seq<char>, p: Seq<char>, rep: Seq<char>, i: int)
    requires
        config_canonical(t),
        is_first_prefixed(lines_of(t), p, i),
        lines_of(t)[i] == rep,
    ensures
        replaced_config(t, p, rep) == Ok::<Seq<char>, Seq<char>>(t),
{
    let ls = lines_of(t);
    let c = choose|k: int| is_first_prefixed(ls, p, k);
    lemma_first_prefixed_unique(ls, p, c, i);
    assert(ls.update(i, rep) =~= ls);
}

proof fn lemma_no_newline_concat(a: Seq<char>, b: Seq<char>)
    requires
        no_newline(a),
        no_newline(b),
    ensures
        no_newline(a + b),
{
    assert forall|j: int| 0 <= j < (a + b).len() implies (a + b)[j] != '\n' by {
        if j < a.len() {
            assert((a + b)[j] == a[j]);
        } else {
            assert((a + b)[j] == b[j - a.len()]);
        }
    }
}

proof fn lemma_join_no_newline(base: Seq<char>, part: Seq<char>)
    requires
        no_newline(base),
        no_newline(part),
    ensures
        no_newline(path_join_spec(base, part)),
{
    lemma_no_newline_concat(base, part);
    lemma_no_newline_concat(base, seq!['\\']);
    lemma_no_newline_concat(base + seq!['\\'], part);
    assert(no_newline(drive_of(base)));
    lemma_no_newline_concat(drive_of(base), part);
}

proof fn lemma_tokens_no_newline(s: Seq<char>)
    requires
        no_newline(s),
    ensures
        forall|k: int| 0 <= k < tokens(s, path_sep()).len() ==> no_newline(#[trigger] tokens(s, path_sep())[k]),
    decreases s.len(),
{
    let sep = path_sep();
    if s.len() == 0 {
    } else if sep(s[0]) {
        assert(no_newline(s.skip(1))) by {
            assert forall|j: int| 0 <= j < s.skip(1).len() implies s.skip(1)[j] != '\n' by {
                assert(s.skip(1)[j] == s[j + 1]);
            }
        }
        lemma_tokens_no_newline(s.skip(1));
        assert(tokens(s, sep) == tokens(s.skip(1), sep));
    } else {
        let w = crate::text::run_len(s, sep);
        crate::text::lemma_run_len_clean(s, sep);
        crate::text::lemma_run_len_clean(s.skip(1), sep);
        if 0 < w <= s.len() {
            assert(no_newline(s.skip(w))) by {
                assert forall|j: int| 0 <= j < s.skip(w).len() implies s.skip(w)[j] != '\n' by {
                    assert(s.skip(w)[j] == s[j + w]);
                }
            }
            assert(no_newline(s.take(w))) by {
                assert forall|j: int| 0 <= j < s.take(w).len() implies s.take(w)[j] != '\n' by {
                    assert(s.take(w)[j] == s[j]);
                }
            }
            lemma_tokens_no_newline(s.skip(w));
            let ts = tokens(s, sep);
            let rest = tokens(s.skip(w), sep);
            assert(ts == seq![s.take(w)] + rest);
            assert forall|k: int| 0 <= k < ts.len() implies no_newline(#[trigger] ts[k]) by {
                if k > 0 {
                    assert(ts[k] == rest[k - 1]);
                }
            }
        } else {
            assert(tokens(s, sep) == Seq::<Seq<char>>::empty());
        }
    }
}

proof fn lemma_last_named_no_newline(ts: Seq<Seq<char>>)
    requires
        forall|k: int| 0 <= k < ts.len() ==> no_newline(#[trigger] ts[k]),
    ensures
        no_newline(last_named(ts)),
    decreases ts.len(),
{
    if ts.len() > 0 {
        assert(ts.last() == ts[ts.len() - 1]);
        assert forall|k: int| 0 <= k < ts.drop_last().len() implies no_newline(#[trigger] ts.drop_last()[k]) by {
            assert(ts.drop_last()[k] == ts[k]);
        }
        lemma_last_named_no_newline(ts.drop_last());
    }
}

proof fn lemma_version_no_newline(sysconfig: Seq<char>)
    requires
        no_newline(sysconfig),
    ensures
        no_newline(sysconfig_version_spec(sysconfig)),
{
    reveal_strlit("custom");
    lemma_tokens_no_newline(sysconfig);
    lemma_last_named_no_newline(tokens(sysconfig, path_sep()));
    match file_name_spec(sysconfig) {
        Some(n) => {
            assert(no_newline(n));
        },
        None => {},
    }
}

proof fn lemma_trim_start_plain(s: Seq<char>)
    requires
        s.len() > 0,
        !is_ws(s[0]),
    ensures
        trim_start_seq(s) == s,
{
}

/// The four lines that rendering writes, and what makes each of them read
/// back as itself and be found by its own prefix only.
proof fn lemma_rendered_lines(sdk: Seq<char>, sdk_version: Seq<char>, sysconfig: Seq<char>)
    requires
        no_newline(sdk),
        no_newline(sdk_version),
        no_newline(sysconfig),
        !ends_cr(sdk),
    ensures
        safe_line(bat_line_spec(sysconfig)),
        safe_line(title_line_spec(sdk_version, sysconfig)),
        safe_line(command_line_spec(sysconfig)),
        safe_line(folder_line_spec(sdk)),
        line_has_prefix(bat_line_spec(sysconfig), "set SYSCFG_PATH="@),
        line_has_prefix(title_line_spec(sdk_version, sysconfig), "["@),
        line_has_prefix(command_line_spec(sysconfig), "Command="@),
        line_has_prefix(folder_line_spec(sdk), "Initial Folder="@),
        !line_has_prefix(title_line_spec(sdk_version, sysconfig), "Command="@),
        !line_has_prefix(title_line_spec(sdk_version, sysconfig), "Initial Folder="@),
        !line_has_prefix(command_line_spec(sysconfig), "["@),
        !line_has_prefix(command_line_spec(sysconfig), "Initial Folder="@),
        !line_has_prefix(folder_line_spec(sdk), "["@),
        !line_has_prefix(folder_line_spec(sdk), "Command="@),
{
    reveal_strlit("set SYSCFG_PATH=\"");
    reveal_strlit("set SYSCFG_PATH=");
    reveal_strlit("sysconfig_cli.bat");
    reveal_strlit("\"");
    reveal_strlit("[Sysconfig v");
    reveal_strlit(" - MSPM0 SDK v");
    reveal_strlit("]");
    reveal_strlit("[");
    reveal_strlit("Command=\"");
    reveal_strlit("Command=");
    reveal_strlit("\" \"");
    reveal_strlit("nw");
    reveal_strlit("nw.exe");
    reveal_strlit("Initial Folder=");
    let q: Seq<char> = "\""@;
    // the bat line
    let cli = path_join_spec(sysconfig, "sysconfig_cli.bat"@);
    lemma_join_no_newline(sysconfig, "sysconfig_cli.bat"@);
    let b = bat_line_spec(sysconfig);
    lemma_no_newline_concat("set SYSCFG_PATH=\""@, cli);
    lemma_no_newline_concat("set SYSCFG_PATH=\""@ + cli, q);
    assert(b.last() == '"');
    lemma_trim_start_plain(b);
    assert("set SYSCFG_PATH="@.is_prefix_of(b)) by {
        assert forall|j: int| 0 <= j < "set SYSCFG_PATH="@.len() implies b[j] == "set SYSCFG_PATH="@[j] by {
            assert(b[j] == "set SYSCFG_PATH=\""@[j]);
        }
    }
    // the title line
    let ver = sysconfig_version_spec(sysconfig);
    lemma_version_no_newline(sysconfig);
    let mv = map_char_seq(sdk_version, '.', '_');
    assert(no_newline(mv));
    let ti = title_line_spec(sdk_version, sysconfig);
    lemma_no_newline_concat("[Sysconfig v"@, ver);
    lemma_no_newline_concat("[Sysconfig v"@ + ver, " - MSPM0 SDK v"@);
    lemma_no_newline_concat("[Sysconfig v"@ + ver + " - MSPM0 SDK v"@, mv);
    lemma_no_newline_concat("[Sysconfig v"@ + ver + " - MSPM0 SDK v"@ + mv, "]"@);
    assert(ti.last() == ']');
    assert(ti[0] == '[');
    lemma_trim_start_plain(ti);
    assert("["@.is_prefix_of(ti));
    // the command line
    let nw = crate::sysconfig::nw_executable_spec(sysconfig);
    lemma_join_no_newline(sysconfig, "nw"@);
    lemma_join_no_newline(path_join_spec(sysconfig, "nw"@), "nw.exe"@);
    let cm = command_line_spec(sysconfig);
    lemma_no_newline_concat("Command=\""@, nw);
    lemma_no_newline_concat("Command=\""@ + nw, "\" \""@);
    lemma_no_newline_concat("Command=\""@ + nw + "\" \""@, sysconfig);
    lemma_no_newline_concat("Command=\""@ + nw + "\" \""@ + sysconfig, q);
    assert(cm.last() == '"');
    assert(cm[0] == 'C');
    lemma_trim_start_plain(cm);
    assert("Command="@.is_prefix_of(cm)) by {
        assert forall|j: int| 0 <= j < "Command="@.len() implies cm[j] == "Command="@[j] by {
            assert(cm[j] == "Command=\""@[j]);
        }
    }
    // the folder line
    let fo = folder_line_spec(sdk);
    lemma_no_newline_concat("Initial Folder="@, sdk);
    if sdk.len() > 0 {
        assert(fo.last() == sdk.last());
    } else {
        assert(fo.last() == '=');
    }
    assert(fo[0] == 'I');
    lemma_trim_start_plain(fo);
    assert("Initial Folder="@.is_prefix_of(fo)) by {
        assert forall|j: int| 0 <= j < "Initial Folder="@.len() implies fo[j] == "Initial Folder="@[j] by {}
    }
    // prefixes that differ in their first character
    assert(!"Command="@.is_prefix_of(ti)) by {
        assert("Command="@[0] != ti[0]);
    }
    assert(!"Initial Folder="@.is_prefix_of(ti)) by {
        assert("Initial Folder="@[0] != ti[0]);
    }
    assert(!"["@.is_prefix_of(cm)) by {
        assert("["@[0] != cm[0]);
    }
    assert(!"Initial Folder="@.is_prefix_of(cm)) by {
        assert("Initial Folder="@[0] != cm[0]);
    }
    assert(!"["@.is_prefix_of(fo)) by {
        assert("["@[0] != fo[0]);
    }
    assert(!"Command="@.is_prefix_of(fo)) by {
        assert("Command="@[0] != fo[0]);
    }
}

/// Rendering the Keil SysConfig launcher files again with the same SDK,
/// version and SysConfig changes nothing, so a repeated setup rewrites no
/// SDK file; this holds when none of the three holds a line break and the
/// SDK path does not end with `\r`.
pub proof fn law_render_keil_sysconfig_idempotent(
    bat: Seq<char>,
    cfg: Seq<char>,
    sdk: Seq<char>,
    sdk_version: Seq<char>,
    sysconfig: Seq<char>,
    rendered_bat: Seq<char>,
    rendered_cfg: Seq<char>,
)
    requires
        rendered_sysconfig_files(bat, cfg, sdk, sdk_version, sysconfig) == Ok::<(Seq<char>, Seq<char>), Seq<char>>(
            (rendered_bat, rendered_cfg),
        ),
        no_newline(sdk),
        no_newline(sdk_version),
        no_newline(sysconfig),
        !ends_cr(sdk),
    ensures
        rendered_sysconfig_files(rendered_bat, rendered_cfg, sdk, sdk_version, sysconfig) == Ok::<
            (Seq<char>, Seq<char>),
            Seq<char>,
        >((rendered_bat, rendered_cfg)),
{
    let pb = "set SYSCFG_PATH="@;
    let pt = "["@;
    let pc = "Command="@;
    let pf = "Initial Folder="@;
    let rb = bat_line_spec(sysconfig);
    let rt = title_line_spec(sdk_version, sysconfig);
    let rc = command_line_spec(sysconfig);
    let rf = folder_line_spec(sdk);
    lemma_rendered_lines(sdk, sdk_version, sysconfig);
    // the batch file
    lemma_replaced_config_result(bat, pb, rb, rendered_bat);
    let ib = choose|i: int| is_first_prefixed(lines_of(bat), pb, i) && lines_of(rendered_bat) == lines_of(bat).update(i, rb);
    let lb = lines_of(rendered_bat);
    assert(is_first_prefixed(lb, pb, ib)) by {
        assert forall|j: int| 0 <= j < ib implies !line_has_prefix(#[trigger] lb[j], pb) by {
            assert(lb[j] == lines_of(bat)[j]);
        }
    }
    lemma_replaced_config_fixpoint(rendered_bat, pb, rb, ib);
    // the menu file, three lines in turn
    let c1 = match replaced_config(cfg, pt, rt) {
        Ok(x) => x,
        Err(_) => cfg,
    };
    let c2 = match replaced_config(c1, pc, rc) {
        Ok(x) => x,
        Err(_) => c1,
    };
    assert(replaced_config(c2, pf, rf) == Ok::<Seq<char>, Seq<char>>(rendered_cfg));
    lemma_replaced_config_result(cfg, pt, rt, c1);
    lemma_replaced_config_result(c1, pc, rc, c2);
    lemma_replaced_config_result(c2, pf, rf, rendered_cfg);
    let l0 = lines_of(cfg);
    let l1 = lines_of(c1);
    let l2 = lines_of(c2);
    let l3 = lines_of(rendered_cfg);
    let i1 = choose|i: int| is_first_prefixed(l0, pt, i) && l1 == l0.update(i, rt);
    let i2 = choose|i: int| is_first_prefixed(l1, pc, i) && l2 == l1.update(i, rc);
    let i3 = choose|i: int| is_first_prefixed(l2, pf, i) && l3 == l2.update(i, rf);
    assert(i2 != i1) by {
        assert(l1[i1] == rt);
    }
    assert(i3 != i1 && i3 != i2) by {
        assert(l2[i1] == rt);
        assert(l2[i2] == rc);
    }
    assert(l3[i1] == rt);
    assert(l3[i2] == rc);
    assert(l3[i3] == rf);
    assert(is_first_prefixed(l3, pt, i1)) by {
        assert forall|j: int| 0 <= j < i1 implies !line_has_prefix(#[trigger] l3[j], pt) by {
            if j != i2 && j != i3 {
                assert(l3[j] == l0[j]);
            }
        }
    }
    assert(is_first_prefixed(l3, pc, i2)) by {
        assert forall|j: int| 0 <= j < i2 implies !line_has_prefix(#[trigger] l3[j], pc) by {
            if j != i1 && j != i3 {
                assert(l3[j] == l1[j]);
            }
        }
    }
    assert(is_first_prefixed(l3, pf, i3)) by {
        assert forall|j: int| 0 <= j < i3 implies !line_has_prefix(#[trigger] l3[j], pf) by {
            if j != i1 && j != i2 {
                assert(l3[j] == l2[j]);
            }
        }
    }
    lemma_replaced_config_fixpoint(rendered_cfg, pt, rt, i1);
    lemma_replaced_config_fixpoint(rendered_cfg, pc, rc, i2);
    lemma_replaced_config_fixpoint(rendered_cfg, pf, rf, i3);
}

} // verus!
