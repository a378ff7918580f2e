//! Build validation: the separate strict link target made from a CCS
//! makefile, and how a Keil build log is judged.
use vstd::prelude::*;
use crate::registry::{split_once_chars, split_once_spec};
use crate::text::{
    chars_of, concat_chars, contains_chars, ends_with_chars, join_seq, lines_of, replace_all_chars,
    replace_all_seq, replace_first_chars, replace_first_seq, seq_contains, slice_chars, split_lines,
    string_of, trim_chars, trim_seq, views,
};

verus! {

/// A makefile rule line `TARGET: ... $(OBJS) ...` whose target ends in `.out`.
pub open spec fn is_link_rule(line: Seq<char>) -> bool {
    match split_once_spec(line, ":"@) {
        Some((target, deps)) => seq_contains(deps, "$(OBJS)"@) && ".out"@.is_suffix_of(trim_seq(target)),
        None => false,
    }
}

pub open spec fn link_rule_target(line: Seq<char>) -> Seq<char> {
    match split_once_spec(line, ":"@) {
        Some((target, _)) => trim_seq(target),
        None => seq![],
    }
}

pub open spec fn is_first_link_rule(lines: Seq<Seq<char>>, i: int) -> bool {
    &&& 0 <= i < lines.len()
    &&& is_link_rule(lines[i])
    &&& forall|j: int| 0 <= j < i ==> !is_link_rule(#[trigger] lines[j])
}

/// `s` with every trailing repetition of `suffix` removed.
pub open spec fn trim_end_matches_seq(s: Seq<char>, suffix: Seq<char>) -> Seq<char>
    decreases s.len(),
{
    if suffix.len() > 0 && suffix.is_suffix_of(s) {
        trim_end_matches_seq(s.take(s.len() - suffix.len()), suffix)
    } else {
        s
    }
}

pub open spec fn strict_stem() -> Seq<char> {
    "ti-toolbox-strict-validation"@
}

pub open spec fn strict_target_name() -> Seq<char> {
    strict_stem() + ".out"@
}

pub open spec fn strict_map_name() -> Seq<char> {
    strict_stem() + ".map"@
}

pub open spec fn strict_xml_name() -> Seq<char> {
    strict_stem() + "_linkInfo.xml"@
}

/// The makefile rewritten so that its link rule builds a separate target with
/// unused-section elimination off, the target's name, and the three files
/// that link writes; or the reason the makefile cannot be used.
pub open spec fn strict_makefile_spec(makefile: Seq<char>) -> Result<(Seq<char>, Seq<char>, Seq<Seq<char>>), Seq<char>> {
    let ls = lines_of(makefile);
    if !(exists|i: int| is_first_link_rule(ls, i)) {
        Err("CCS makefile 中未找到链接目标"@)
    } else if !seq_contains(makefile, "$(ORDERED_OBJS)"@) || !seq_contains(makefile, "-Wl,--rom_model"@) {
        Err("CCS makefile 中未找到可复用的 TI 链接命令"@)
    } else {
        let i = choose|i: int| is_first_link_rule(ls, i);
        let target = link_rule_target(ls[i]);
        let stem = trim_end_matches_seq(target, ".out"@);
        let patched = replace_first_seq(
            replace_all_seq(
                replace_all_seq(
                    replace_all_seq(makefile, target, strict_target_name()),
                    stem + ".map"@,
                    strict_map_name(),
                ),
                stem + "_linkInfo.xml"@,
                strict_xml_name(),
            ),
            "-Wl,--rom_model"@,
            "-Wl,--unused_section_elimination=off -Wl,--rom_model"@,
        );
        Ok((patched, strict_target_name(), seq![strict_target_name(), strict_map_name(), strict_xml_name()]))
    }
}

/// A Keil build succeeded when some line of its log reports ` - 0 Error(s),`.
pub open spec fn keil_log_success_spec(log: Seq<char>) -> bool {
    exists|i: int| 0 <= i < lines_of(log).len() && seq_contains(#[trigger] lines_of(log)[i], " - 0 Error(s),"@)
}

fn trim_end_matches(s: &Vec<char>, suffix: &Vec<char>) -> (r: Vec<char>)
    ensures
        r@ == trim_end_matches_seq(s@, suffix@),
{
    let mut cur = s.clone();
    while suffix.len() > 0 && ends_with_chars(&cur, suffix)
        invariant
            trim_end_matches_seq(s@, suffix@) == trim_end_matches_seq(cur@, suffix@),
        decreases cur@.len(),
    {
        let n = cur.len() - suffix.len();
        cur = slice_chars(&cur, 0, n);
        assert(cur@ =~= cur@.take(n as int));
    }
    cur
}

fn first_link_rule(lines: &Vec<Vec<char>>) -> (r: Option<(usize, Vec<char>)>)
    ensures
        match r {
            Some((i, t)) => is_first_link_rule(views(lines@), i as int) && t@ == link_rule_target(
                views(lines@)[i as int],
            ),
            None => forall|k: int| !is_first_link_rule(views(lines@), k),
        },
{
    let ghost ls = views(lines@);
    let colon = chars_of(":");
    let objs = chars_of("$(OBJS)");
    let out = chars_of(".out");
    let mut i: usize = 0;
    while i < lines.len()
        invariant
            i <= lines.len(),
            ls == views(lines@),
            colon@ == ":"@,
            objs@ == "$(OBJS)"@,
            out@ == ".out"@,
            forall|j: int| 0 <= j < i ==> !is_link_rule(#[trigger] ls[j]),
        decreases lines.len() - i,
    {
        match split_once_chars(&lines[i], &colon) {
            Some((target, deps)) => {
                let t = trim_chars(&target);
                if contains_chars(&deps, &objs) && ends_with_chars(&t, &out) {
                    return Some((i, t));
                }
            },
            None => {},
        }
        i += 1;
    }
    proof {
        assert forall|k: int| !is_first_link_rule(ls, k) by {
            if 0 <= k < ls.len() {
                assert(!is_link_rule(ls[k]));
            }
        }
    }
    None
}

/// Derives a separate strict link from a CCS makefile: the patched makefile,
/// the strict target, and the files that strict link produces.
pub fn strict_makefile(makefile: &str) -> (r: Result<(String, String, Vec<String>), String>)
    ensures
        match r {
            Ok((patched, target, artifacts)) => strict_makefile_spec(makefile@) == Ok::<
                (Seq<char>, Seq<char>, Seq<Seq<char>>),
                Seq<char>,
            >((patched@, target@, artifacts@.map_values(|a: String| a@))),
            Err(e) => strict_makefile_spec(makefile@) == Err::<
                (Seq<char>, Seq<char>, Seq<Seq<char>>),
                Seq<char>,
            >(e@),
        },
{
    let text = chars_of(makefile);
    let lines = split_lines(&text);
    let found = first_link_rule(&lines);
    let ghost ls = views(lines@);
    if found.is_none() {
        return Err(string_of(&chars_of("CCS makefile 中未找到链接目标")));
    }
    let (i, target) = found.unwrap();
    proof {
        let c = choose|k: int| is_first_link_rule(ls, k);
        if c < i {
            assert(!is_link_rule(ls[c]));
        }
        if i < c {
            assert(!is_link_rule(ls[i as int]));
        }
    }
    if !contains_chars(&text, &chars_of("$(ORDERED_OBJS)")) || !contains_chars(&text, &chars_of("-Wl,--rom_model")) {
        return Err(string_of(&chars_of("CCS makefile 中未找到可复用的 TI 链接命令")));
    }
    let stem = trim_end_matches(&target, &chars_of(".out"));
    let strict = chars_of("ti-toolbox-strict-validation");
    let strict_target = concat_chars(&strict, &chars_of(".out"));
    let map = concat_chars(&strict, &chars_of(".map"));
    let xml = concat_chars(&strict, &chars_of("_linkInfo.xml"));
    let p1 = replace_all_chars(&text, &target, &strict_target);
    let p2 = replace_all_chars(&p1, &concat_chars(&stem, &chars_of(".map")), &map);
    let p3 = replace_all_chars(&p2, &concat_chars(&stem, &chars_of("_linkInfo.xml")), &xml);
    let rom = chars_of("-Wl,--rom_model");
    proof {
        reveal_strlit("-Wl,--rom_model");
    }
    let patched = replace_first_chars(&p3, &rom, &chars_of("-Wl,--unused_section_elimination=off -Wl,--rom_model"));
    let artifacts = vec![string_of(&strict_target), string_of(&map), string_of(&xml)];
    assert(artifacts@.map_values(|a: String| a@) =~= seq![strict_target@, map@, xml@]);
    Ok((string_of(&patched), string_of(&strict_target), artifacts))
}

/// Whether a Keil build log reports a build without errors.
pub fn keil_log_succeeded(log: &str) -> (r: bool)
    ensures
        r == keil_log_success_spec(log@),
{
    let lines = split_lines(&chars_of(log));
    let needle = chars_of(" - 0 Error(s),");
    let ghost ls = views(lines@);
    let mut i: usize = 0;
    while i < lines.len()
        invariant
            i <= lines.len(),
            ls == views(lines@),
            ls == lines_of(log@),
            needle@ == " - 0 Error(s),"@,
            forall|j: int| 0 <= j < i ==> !seq_contains(#[trigger] ls[j], " - 0 Error(s),"@),
        decreases lines.len() - i,
    {
        if contains_chars(&lines[i], &needle) {
            assert(seq_contains(ls[i as int], " - 0 Error(s),"@));
            return true;
        }
        i += 1;
    }
    false
}

// ---------------------------------------------------------------------------
// Laws of Keil logs
// ---------------------------------------------------------------------------

/// The character `c` does not occur in `s`.
pub open spec fn lacks_char(s: Seq<char>, c: char) -> bool {
    forall|i: int| 0 <= i < s.len() ==> s[i] != c
}

proof fn lemma_lines_lack_char(s: Seq<char>, c: char)
    requires
        lacks_char(s, c),
    ensures
        forall|k: int| 0 <= k < lines_of(s).len() ==> lacks_char(#[trigger] lines_of(s)[k], c),
    decreases s.len(),
{
    if s.len() > 0 {
        let k = crate::text::newline_index(s);
        crate::text::lemma_newline_index_range(s);
        if k < s.len() {
            let rest = s.skip(k + 1);
            assert(lacks_char(rest, c)) by {
                assert forall|i: int| 0 <= i < rest.len() implies rest[i] != c by {
                    assert(rest[i] == s[i + k + 1]);
                }
            }
            lemma_lines_lack_char(rest, c);
            let head = crate::text::strip_cr(s.take(k));
            assert(lacks_char(head, c)) by {
                assert forall|i: int| 0 <= i < head.len() implies head[i] != c by {
                    assert(head[i] == s[i]);
                }
            }
            let ls = lines_of(s);
            assert(ls == seq![head] + lines_of(rest));
            assert forall|j: int| 0 <= j < ls.len() implies lacks_char(#[trigger] ls[j], c) by {
                if j > 0 {
                    assert(ls[j] == lines_of(rest)[j - 1]);
                }
            }
        } else {
            assert(lines_of(s) == seq![s]);
        }
    }
}

/// A Keil build is judged successful exactly when some line of its log
/// holds ` - 0 Error(s),`: adding such a line makes any log successful, and
/// a log without one is failed whatever else it reports.
pub proof fn law_keil_log_success_needs_zero_errors(log: Seq<char>)
    ensures
        keil_log_success_spec(log) <==> exists|i: int|
            0 <= i < lines_of(log).len() && seq_contains(#[trigger] lines_of(log)[i], " - 0 Error(s),"@),
{
}

/// A Keil log whose summary line reports a non-zero number of errors
/// (` - 10 Error(s),` and the like), and none of whose other text holds a
/// `-`, is judged failed.
pub proof fn law_keil_log_with_errors_fails(head: Seq<char>, count: Seq<char>, tail: Seq<char>, rest: Seq<char>)
    requires
        count.len() > 0,
        forall|k: int| 0 <= k < count.len() ==> '0' <= #[trigger] count[k] <= '9',
        count != seq!['0'],
        lacks_char(head, '-'),
        lacks_char(head, '\n'),
        lacks_char(tail, '-'),
        lacks_char(tail, '\n'),
        !(tail.len() > 0 && tail.last() == '\r'),
        lacks_char(rest, '-'),
    ensures
        !keil_log_success_spec(head + " - "@ + count + " Error(s),"@ + tail + seq!['\n'] + rest),
{
    reveal_strlit(" - ");
    reveal_strlit(" Error(s),");
    reveal_strlit(" - 0 Error(s),");
    let line = head + " - "@ + count + " Error(s),"@ + tail;
    let log = line + seq!['\n'] + rest;
    let h: int = head.len() as int;
    let c: int = count.len() as int;
    assert(line.len() == h + 3 + c + 10 + tail.len());
    assert forall|i: int| 0 <= i < line.len() && line[i] == '-' implies i == h + 1 by {
        if i < h {
            assert(line[i] == head[i]);
        } else if i < h + 3 {
            assert(line[i] == " - "@[i - h]);
        } else if i < h + 3 + c {
            assert(line[i] == count[i - h - 3]);
        } else if i < h + 3 + c + 10 {
            assert(line[i] == " Error(s),"@[i - h - 3 - c]);
        } else {
            assert(line[i] == tail[i - h - 3 - c - 10]);
        }
    }
    assert(crate::text::no_newline(line)) by {
        assert forall|i: int| 0 <= i < line.len() implies line[i] != '\n' by {
            if i < h {
                assert(line[i] == head[i]);
            } else if i < h + 3 {
                assert(line[i] == " - "@[i - h]);
            } else if i < h + 3 + c {
                assert(line[i] == count[i - h - 3]);
            } else if i < h + 3 + c + 10 {
                assert(line[i] == " Error(s),"@[i - h - 3 - c]);
            } else {
                assert(line[i] == tail[i - h - 3 - c - 10]);
            }
        }
    }
    assert(!crate::text::ends_cr(line)) by {
        if tail.len() > 0 {
            assert(line.last() == tail.last());
        } else {
            assert(line.last() == ',');
        }
    }
    crate::text::lemma_lines_cons(line, seq!['\n'], rest);
    let ls = lines_of(log);
    assert(ls == seq![line] + lines_of(rest));
    lemma_lines_lack_char(rest, '-');
    let needle = " - 0 Error(s),"@;
    assert(!seq_contains(line, needle)) by {
        if seq_contains(line, needle) {
            let j = choose|j: int| crate::text::occurs_at(line, needle, j);
            assert(line.subrange(j, j + 14) == needle);
            assert(line[j + 1] == line.subrange(j, j + 14)[1]);
            assert(line[j + 1] == '-');
            assert(j + 1 == h + 1);
            assert(line[j + 3] == line.subrange(j, j + 14)[3]);
            assert(line[j + 4] == line.subrange(j, j + 14)[4]);
            assert(line[h + 3] == count[0]);
            if c == 1 {
                assert(count =~= seq!['0']);
            } else {
                assert(line[h + 4] == count[1]);
            }
        }
    }
    assert forall|i: int| 0 <= i < ls.len() implies !seq_contains(#[trigger] ls[i], needle) by {
        if i > 0 {
            let l = ls[i];
            assert(l == lines_of(rest)[i - 1]);
            if seq_contains(l, needle) {
                let j = choose|j: int| crate::text::occurs_at(l, needle, j);
                assert(l[j + 1] == l.subrange(j, j + 14)[1]);
            }
        }
    }
}

} // verus!
