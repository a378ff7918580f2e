//! Keil µVision "Tools" menu entries as `reg query` prints them, and the choice
//! of the slot that the SysConfig tool entry goes into.
use vstd::prelude::*;
use crate::number::{parse_u8, parse_u8_spec};
use crate::text::{chars_of, chars_equal, find_from, first_occurrence_from, join_seq, lines_of, lower_chars, lower_seq, remove_char, remove_char_seq, slice_chars, split_lines, split_tokens, starts_with_chars, tokens, trim_chars, trim_seq, views, ws_sep, join_chars, SepKind};

verus! {

/// `split_once(pat)`: the text before and after the first occurrence of `pat`.
pub open spec fn split_once_spec(s: Seq<char>, pat: Seq<char>) -> Option<(Seq<char>, Seq<char>)> {
    if exists|k: int| first_occurrence_from(s, pat, 0, k) {
        let k = choose|k: int| first_occurrence_from(s, pat, 0, k);
        Some((s.take(k), s.skip(k + pat.len())))
    } else {
        None
    }
}

pub proof fn lemma_first_occurrence_unique(s: Seq<char>, pat: Seq<char>, from: int, a: int, b: int)
    requires
        first_occurrence_from(s, pat, from, a),
        first_occurrence_from(s, pat, from, b),
    ensures
        a == b,
{
}

/// The text before and after the first occurrence of `pat`.
pub fn split_once_chars(s: &Vec<char>, pat: &Vec<char>) -> (r: Option<(Vec<char>, Vec<char>)>)
    ensures
        match r {
            Some((a, b)) => split_once_spec(s@, pat@) == Some((a@, b@)),
            None => split_once_spec(s@, pat@) is None,
        },
{
    match find_from(s, pat, 0) {
        Some(k) => {
            proof {
                let c = choose|k: int| first_occurrence_from(s@, pat@, 0, k);
                lemma_first_occurrence_unique(s@, pat@, 0, c, k as int);
            }
            assert(k + pat@.len() <= s@.len());
            assert(pat@.len() == pat.len());
            assert(s@.len() == s.len());
            let end: usize = k + pat.len();
            let a = slice_chars(s, 0, k);
            let b = slice_chars(s, end, s.len());
            assert(a@ =~= s@.take(k as int));
            assert(b@ =~= s@.skip(k + pat@.len()));
            Some((a, b))
        },
        None => None,
    }
}

pub open spec fn reg_sz() -> Seq<char> {
    "REG_SZ"@
}

/// A `NAME  REG_SZ  VALUE` line: the trimmed name and the trimmed value.
pub open spec fn registry_string_line(line: Seq<char>) -> Option<(Seq<char>, Seq<char>)> {
    match split_once_spec(line, reg_sz()) {
        Some((name, rest)) => Some((trim_seq(name), trim_seq(rest))),
        None => None,
    }
}

/// The value-name prefixes of a Keil tool entry.
pub open spec fn tool_prefixes() -> Seq<Seq<char>> {
    seq!["Mfg"@, "Mtx"@, "Mid"@, "Mex"@, "Mag"@]
}

/// The first prefix, in the order Mfg, Mtx, Mid, Mex, Mag, that starts `name`
/// and whose remainder parses as a `u8`, gives the slot.
pub open spec fn tool_slot_from(name: Seq<char>, i: int) -> Option<u8>
    decreases 5 - i,
{
    if i < 0 || i >= 5 {
        None
    } else {
        let p = tool_prefixes()[i];
        if p.is_prefix_of(name) && parse_u8_spec(name.skip(p.len() as int)) is Some {
            parse_u8_spec(name.skip(p.len() as int))
        } else {
            tool_slot_from(name, i + 1)
        }
    }
}

pub open spec fn tool_slot(name: Seq<char>) -> Option<u8> {
    tool_slot_from(name, 0)
}

/// A command with quotes removed, whitespace runs collapsed to one space and
/// ASCII letters in lower case.
pub open spec fn normalized_command(value: Seq<char>) -> Seq<char> {
    lower_seq(join_seq(tokens(remove_char_seq(value, '"'), ws_sep()), " "@))
}

/// The slot that a line of `reg query` output names, if any.
pub open spec fn line_slot(raw: Seq<char>) -> Option<u8> {
    let line = trim_seq(raw);
    match registry_string_line(line) {
        Some((name, _)) => tool_slot(name),
        None => {
            let words = tokens(line, ws_sep());
            if words.len() > 0 {
                tool_slot(words[0])
            } else {
                None
            }
        },
    }
}

/// A `MexN REG_SZ command` line whose command equals `expected` once normalized.
pub open spec fn line_is_equivalent(raw: Seq<char>, expected: Seq<char>) -> bool {
    match registry_string_line(trim_seq(raw)) {
        Some((name, value)) => tool_slot(name) is Some && "Mex"@.is_prefix_of(name)
            && normalized_command(value) == expected,
        None => false,
    }
}

pub open spec fn own_title() -> Seq<char> {
    "TI工具箱 SysConfig"@
}

/// A `MtxN REG_SZ title` line whose title marks an entry of this tool.
pub open spec fn line_is_own(raw: Seq<char>) -> bool {
    match registry_string_line(trim_seq(raw)) {
        Some((name, value)) => tool_slot(name) is Some && "Mtx"@.is_prefix_of(name)
            && own_title().is_prefix_of(value),
        None => false,
    }
}

/// The least slot that is not occupied, if any.
pub open spec fn first_free_slot(occupied: Set<u8>) -> Option<u8> {
    if exists|s: u8| !occupied.contains(s) {
        Some(choose|s: u8| !occupied.contains(s) && forall|t: u8| t < s ==> occupied.contains(t))
    } else {
        None
    }
}

pub open spec fn slots_of(lines: Seq<Seq<char>>) -> Set<u8>
    decreases lines.len(),
{
    if lines.len() == 0 {
        Set::empty()
    } else {
        let rest = slots_of(lines.drop_last());
        match line_slot(lines.last()) {
            Some(s) => rest.insert(s),
            None => rest,
        }
    }
}

/// The slot chosen after reading the `lines` that follow the ones that gave
/// `occupied` and `own`.
pub open spec fn choose_slot_from(
    lines: Seq<Seq<char>>,
    expected: Seq<char>,
    occupied: Set<u8>,
    own: Option<u8>,
) -> Option<(u8, bool)>
    decreases lines.len(),
{
    if lines.len() == 0 {
        match own {
            Some(s) => Some((s, false)),
            None => match first_free_slot(occupied) {
                Some(s) => Some((s, false)),
                None => None,
            },
        }
    } else {
        let l = lines[0];
        let occupied2 = match line_slot(l) {
            Some(s) => occupied.insert(s),
            None => occupied,
        };
        if line_is_equivalent(l, expected) {
            Some((line_slot(l)->0, true))
        } else {
            choose_slot_from(
                lines.skip(1),
                expected,
                occupied2,
                if line_is_own(l) { line_slot(l) } else { own },
            )
        }
    }
}

/// The Keil tool slot for the SysConfig command, given `reg query` output: the
/// first slot whose command is equivalent (reused as it is), else the last slot
/// titled by this tool, else the least free slot.
pub open spec fn keil_tool_slot(registry: Seq<char>, command: Seq<char>) -> Option<(u8, bool)> {
    choose_slot_from(lines_of(registry), normalized_command(command), Set::empty(), None)
}

proof fn lemma_least_free(occupied: Set<u8>, t: u8)
    requires
        !occupied.contains(t),
    ensures
        exists|s: u8| !occupied.contains(s) && forall|u: u8| u < s ==> occupied.contains(u),
    decreases t,
{
    if exists|u: u8| u < t && !occupied.contains(u) {
        let u = choose|u: u8| u < t && !occupied.contains(u);
        lemma_least_free(occupied, u);
    } else {
        assert(forall|u: u8| u < t ==> occupied.contains(u));
    }
}

#[verifier::rlimit(60)]
proof fn lemma_choose_slot_from(lines: Seq<Seq<char>>, expected: Seq<char>, occupied: Set<u8>, own: Option<u8>, s: u8)
    ensures
        choose_slot_from(lines, expected, occupied, own) == Some((s, false)) ==> (own == Some(s) || (exists|i: int|
            0 <= i < lines.len() && line_is_own(#[trigger] lines[i]) && line_slot(lines[i]) == Some(s)) || (
        !occupied.contains(s) && forall|i: int| 0 <= i < lines.len() ==> line_slot(#[trigger] lines[i]) != Some(s))),
        choose_slot_from(lines, expected, occupied, own) == Some((s, true)) ==> exists|i: int|
            0 <= i < lines.len() && line_is_equivalent(#[trigger] lines[i], expected) && line_slot(lines[i]) == Some(
                s,
            ),
    decreases lines.len(),
{
    if lines.len() == 0 {
        if own is None && choose_slot_from(lines, expected, occupied, own) == Some((s, false)) {
            assert(exists|t: u8| !occupied.contains(t));
            let t = choose|t: u8| !occupied.contains(t);
            lemma_least_free(occupied, t);
        }
    } else {
        let l = lines[0];
        let occupied2 = match line_slot(l) {
            Some(t) => occupied.insert(t),
            None => occupied,
        };
        let own2 = if line_is_own(l) {
            line_slot(l)
        } else {
            own
        };
        if line_is_equivalent(l, expected) {
            if choose_slot_from(lines, expected, occupied, own) == Some((s, true)) {
                assert(line_is_equivalent(lines[0], expected) && line_slot(lines[0]) == Some(s));
            }
        } else {
            let rest = lines.skip(1);
            lemma_choose_slot_from(rest, expected, occupied2, own2, s);
            if choose_slot_from(lines, expected, occupied, own) == Some((s, false)) {
                if own2 == Some(s) {
                    if line_is_own(l) {
                        assert(line_is_own(lines[0]) && line_slot(lines[0]) == Some(s));
                    }
                } else if exists|i: int| 0 <= i < rest.len() && line_is_own(#[trigger] rest[i]) && line_slot(rest[i])
                    == Some(s) {
                    let i = choose|i: int| 0 <= i < rest.len() && line_is_own(#[trigger] rest[i]) && line_slot(rest[i])
                        == Some(s);
                    assert(lines[i + 1] == rest[i]);
                } else {
                    assert forall|i: int| 0 <= i < lines.len() implies line_slot(#[trigger] lines[i]) != Some(s) by {
                        if i > 0 {
                            assert(lines[i] == rest[i - 1]);
                        }
                    }
                }
            }
            if choose_slot_from(lines, expected, occupied, own) == Some((s, true)) {
                let i = choose|i: int| 0 <= i < rest.len() && line_is_equivalent(#[trigger] rest[i], expected)
                    && line_slot(rest[i]) == Some(s);
                assert(lines[i + 1] == rest[i]);
            }
        }
    }
}

/// Configuring SysConfig keeps the user's other tools: a slot chosen for
/// writing is one that no entry uses, or one titled by this tool; a slot
/// reused as it is holds an equivalent command.
pub proof fn law_tool_slot_keeps_other_tools(registry: Seq<char>, command: Seq<char>, s: u8)
    ensures
        keil_tool_slot(registry, command) == Some((s, false)) ==> (exists|i: int|
            0 <= i < lines_of(registry).len() && line_is_own(#[trigger] lines_of(registry)[i]) && line_slot(
                lines_of(registry)[i],
            ) == Some(s)) || (forall|i: int|
            0 <= i < lines_of(registry).len() ==> line_slot(#[trigger] lines_of(registry)[i]) != Some(s)),
        keil_tool_slot(registry, command) == Some((s, true)) ==> exists|i: int|
            0 <= i < lines_of(registry).len() && line_is_equivalent(
                #[trigger] lines_of(registry)[i],
                normalized_command(command),
            ) && line_slot(lines_of(registry)[i]) == Some(s),
{
    lemma_choose_slot_from(lines_of(registry), normalized_command(command), Set::empty(), None, s);
}

/// A line of `reg query` output that is the title of this tool's own menu
/// entry: a `MtxN` value (`Mtx` names an entry's title) whose text starts
/// with `TI工具箱 SysConfig`.
pub open spec fn titles_own_entry(raw: Seq<char>) -> bool {
    match registry_string_line(trim_seq(raw)) {
        Some((name, value)) => "Mtx"@.is_prefix_of(name) && tool_slot(name) is Some
            && "TI工具箱 SysConfig"@.is_prefix_of(value),
        None => false,
    }
}

proof fn lemma_own_line(l: Seq<char>)
    ensures
        line_is_own(l) <==> titles_own_entry(l),
        titles_own_entry(l) ==> line_slot(l) is Some,
{
    reveal_strlit("TI工具箱 SysConfig");
}

proof fn lemma_keep_own(lines: Seq<Seq<char>>, expected: Seq<char>, occupied: Set<u8>, s: u8)
    requires
        forall|j: int| 0 <= j < lines.len() ==> !line_is_equivalent(#[trigger] lines[j], expected),
        forall|j: int| 0 <= j < lines.len() ==> !titles_own_entry(#[trigger] lines[j]),
    ensures
        choose_slot_from(lines, expected, occupied, Some(s)) == Some((s, false)),
    decreases lines.len(),
{
    if lines.len() > 0 {
        let l = lines[0];
        lemma_own_line(l);
        let rest = lines.skip(1);
        assert forall|j: int| 0 <= j < rest.len() implies !line_is_equivalent(#[trigger] rest[j], expected) by {
            assert(rest[j] == lines[j + 1]);
        }
        assert forall|j: int| 0 <= j < rest.len() implies !titles_own_entry(#[trigger] rest[j]) by {
            assert(rest[j] == lines[j + 1]);
        }
        let occupied2 = match line_slot(l) {
            Some(t) => occupied.insert(t),
            None => occupied,
        };
        lemma_keep_own(rest, expected, occupied2, s);
    }
}

proof fn lemma_last_own(lines: Seq<Seq<char>>, expected: Seq<char>, occupied: Set<u8>, own: Option<u8>)
    requires
        forall|j: int| 0 <= j < lines.len() ==> !line_is_equivalent(#[trigger] lines[j], expected),
        exists|j: int| 0 <= j < lines.len() && titles_own_entry(#[trigger] lines[j]),
    ensures
        exists|i: int|
            {
                &&& 0 <= i < lines.len()
                &&& titles_own_entry(#[trigger] lines[i])
                &&& line_slot(lines[i]) is Some
                &&& forall|j: int| i < j < lines.len() ==> !titles_own_entry(#[trigger] lines[j])
                &&& choose_slot_from(lines, expected, occupied, own) == Some((line_slot(lines[i])->0, false))
            },
    decreases lines.len(),
{
    let l = lines[0];
    lemma_own_line(l);
    let rest = lines.skip(1);
    assert forall|j: int| 0 <= j < rest.len() implies !line_is_equivalent(#[trigger] rest[j], expected) by {
        assert(rest[j] == lines[j + 1]);
    }
    let occupied2 = match line_slot(l) {
        Some(t) => occupied.insert(t),
        None => occupied,
    };
    let own2 = if line_is_own(l) {
        line_slot(l)
    } else {
        own
    };
    assert(!line_is_equivalent(lines[0], expected));
    assert(choose_slot_from(lines, expected, occupied, own) == choose_slot_from(rest, expected, occupied2, own2));
    if exists|j: int| 0 <= j < rest.len() && titles_own_entry(#[trigger] rest[j]) {
        lemma_last_own(rest, expected, occupied2, own2);
        let i = choose|i: int|
            {
                &&& 0 <= i < rest.len()
                &&& titles_own_entry(#[trigger] rest[i])
                &&& line_slot(rest[i]) is Some
                &&& forall|j: int| i < j < rest.len() ==> !titles_own_entry(#[trigger] rest[j])
                &&& choose_slot_from(rest, expected, occupied2, own2) == Some((line_slot(rest[i])->0, false))
            };
        let s = line_slot(rest[i])->0;
        assert(lines[i + 1] == rest[i]);
        assert forall|j: int| i + 1 < j < lines.len() implies !titles_own_entry(#[trigger] lines[j]) by {
            assert(lines[j] == rest[j - 1]);
        }
        assert(titles_own_entry(lines[i + 1]) && line_slot(lines[i + 1]) == Some(s));
    } else {
        let j0 = choose|j: int| 0 <= j < lines.len() && titles_own_entry(#[trigger] lines[j]);
        if j0 > 0 {
            assert(rest[j0 - 1] == lines[j0]);
        }
        assert(titles_own_entry(l));
        let s = line_slot(l)->0;
        assert forall|j: int| 0 <= j < rest.len() implies !titles_own_entry(#[trigger] rest[j]) by {}
        lemma_keep_own(rest, expected, occupied2, s);
        assert forall|j: int| 0 < j < lines.len() implies !titles_own_entry(#[trigger] lines[j]) by {
            assert(lines[j] == rest[j - 1]);
        }
    }
}

/// Re-running the configuration, when no entry holds an equivalent command
/// but the menu has an entry titled by this tool (a `MtxN` title starting
/// with `TI工具箱 SysConfig`), rewrites that entry: the slot chosen is the one
/// of the last such title, and it is not reused as it is.
pub proof fn law_tool_slot_rewrites_own_entry(registry: Seq<char>, command: Seq<char>)
    requires
        forall|j: int|
            0 <= j < lines_of(registry).len() ==> !line_is_equivalent(
                #[trigger] lines_of(registry)[j],
                normalized_command(command),
            ),
        exists|j: int| 0 <= j < lines_of(registry).len() && titles_own_entry(#[trigger] lines_of(registry)[j]),
    ensures
        exists|i: int|
            {
                &&& 0 <= i < lines_of(registry).len()
                &&& titles_own_entry(#[trigger] lines_of(registry)[i])
                &&& line_slot(lines_of(registry)[i]) is Some
                &&& forall|j: int| i < j < lines_of(registry).len() ==> !titles_own_entry(#[trigger] lines_of(registry)[j])
                &&& keil_tool_slot(registry, command) == Some((line_slot(lines_of(registry)[i])->0, false))
            },
{
    lemma_last_own(lines_of(registry), normalized_command(command), Set::empty(), None);
}

/// Splits a `NAME REG_SZ VALUE` line into its trimmed name and value.
pub fn parse_registry_string_line(line: &Vec<char>) -> (r: Option<(Vec<char>, Vec<char>)>)
    ensures
        match r {
            Some((n, v)) => registry_string_line(line@) == Some((n@, v@)),
            None => registry_string_line(line@) is None,
        },
{
    let pat = chars_of("REG_SZ");
    match split_once_chars(line, &pat) {
        Some((name, rest)) => Some((trim_chars(&name), trim_chars(&rest))),
        None => None,
    }
}

/// The tool slot that a registry value name such as `Mex3` refers to.
pub fn tool_value_slot(name: &Vec<char>) -> (r: Option<u8>)
    ensures
        r == tool_slot(name@),
{
    let prefixes = [chars_of("Mfg"), chars_of("Mtx"), chars_of("Mid"), chars_of("Mex"), chars_of("Mag")];
    assert(prefixes@.len() == 5);
    let mut i: usize = 0;
    while i < 5
        invariant
            i <= 5,
            prefixes@.len() == 5,
            forall|k: int| 0 <= k < 5 ==> #[trigger] prefixes@[k]@ == tool_prefixes()[k],
            tool_slot(name@) == tool_slot_from(name@, i as int),
        decreases 5 - i,
    {
        let p = &prefixes[i];
        if starts_with_chars(name, p) {
            let rest = slice_chars(name, p.len(), name.len());
            assert(rest@ =~= name@.skip(p@.len() as int));
            let v = parse_u8(&rest);
            if v.is_some() {
                return v;
            }
        }
        i += 1;
    }
    None
}

/// A command in the form used to compare Keil tool commands.
pub fn normalize_registry_command(value: &Vec<char>) -> (r: Vec<char>)
    ensures
        r@ == normalized_command(value@),
{
    let unquoted = remove_char(value, '"');
    let words = split_tokens(&unquoted, &SepKind::Whitespace);
    let space = chars_of(" ");
    let joined = join_chars(&words, &space);
    lower_chars(&joined)
}

/// The slot a line of `reg query` output names.
fn registry_line_slot(raw: &Vec<char>) -> (r: (Option<u8>, Option<(Vec<char>, Vec<char>)>))
    ensures
        r.0 == line_slot(raw@),
        match r.1 {
            Some((n, v)) => registry_string_line(trim_seq(raw@)) == Some((n@, v@)),
            None => registry_string_line(trim_seq(raw@)) is None,
        },
{
    let line = trim_chars(raw);
    match parse_registry_string_line(&line) {
        Some((name, value)) => {
            let slot = tool_value_slot(&name);
            (slot, Some((name, value)))
        },
        None => {
            let words = split_tokens(&line, &SepKind::Whitespace);
            if words.len() > 0 {
                (tool_value_slot(&words[0]), None)
            } else {
                (None, None)
            }
        },
    }
}

/// Chooses the Keil Tools slot for `command`. `Some((slot, true))` reuses an
/// entry whose command is already equivalent; `Some((slot, false))` is the
/// slot to write; `None` when every slot is taken by other tools.
pub fn choose_keil_tool_slot(registry: &str, command: &str) -> (r: Option<(u8, bool)>)
    ensures
        r == keil_tool_slot(registry@, command@),
{
    let text = chars_of(registry);
    let lines = split_lines(&text);
    let expected = normalize_registry_command(&chars_of(command));
    let mex = chars_of("Mex");
    let mtx = chars_of("Mtx");
    let own_prefix = chars_of("TI工具箱 SysConfig");
    let mut occupied: Vec<bool> = Vec::new();
    let mut k: usize = 0;
    while k < 256
        invariant
            k <= 256,
            occupied@.len() == k,
            forall|j: int| 0 <= j < k ==> !occupied@[j],
        decreases 256 - k,
    {
        occupied.push(false);
        k += 1;
    }
    let ghost all_lines = views(lines@);
    let ghost mut occ_set: Set<u8> = Set::empty();
    let mut own: Option<u8> = None;
    let mut i: usize = 0;
    assert(all_lines.skip(0) =~= all_lines);
    while i < lines.len()
        invariant
            i <= lines.len(),
            all_lines == views(lines@),
            all_lines == lines_of(text@),
            text@ == registry@,
            expected@ == normalized_command(command@),
            mex@ == "Mex"@,
            mtx@ == "Mtx"@,
            own_prefix@ == own_title(),
            occupied@.len() == 256,
            forall|s: u8| occ_set.contains(s) <==> occupied@[s as int],
            keil_tool_slot(registry@, command@) == choose_slot_from(
                all_lines.skip(i as int),
                expected@,
                occ_set,
                own,
            ),
        decreases lines.len() - i,
    {
        let ghost l = all_lines[i as int];
        assert(all_lines.skip(i as int)[0] == l);
        assert(all_lines.skip(i as int).skip(1) =~= all_lines.skip(i + 1));
        let (slot, parsed) = registry_line_slot(&lines[i]);
        match slot {
            Some(s) => {
                occupied.set(s as usize, true);
                proof {
                    occ_set = occ_set.insert(s);
                }
            },
            None => {},
        }
        match (slot, parsed) {
            (Some(s), Some((name, value))) => {
                if starts_with_chars(&name, &mex) {
                    let normalized = normalize_registry_command(&value);
                    if chars_equal(&normalized, &expected) {
                        return Some((s, true));
                    }
                }
                if starts_with_chars(&name, &mtx) && starts_with_chars(&value, &own_prefix) {
                    own = Some(s);
                }
            },
            _ => {},
        }
        i += 1;
    }
    assert(all_lines.skip(i as int) =~= Seq::<Seq<char>>::empty());
    match own {
        Some(s) => Some((s, false)),
        None => {
            proof {
                assert(occ_set =~= Set::new(|x: u8| occupied@[x as int]));
            }
            least_free(&occupied)
        },
    }
}

/// The least index whose flag is clear.
fn least_free(occupied: &Vec<bool>) -> (r: Option<(u8, bool)>)
    requires
        occupied@.len() == 256,
    ensures
        r == (match first_free_slot(Set::new(|x: u8| occupied@[x as int])) {
            Some(s) => Some((s, false)),
            None => None,
        }),
{
    let ghost occ = Set::new(|x: u8| occupied@[x as int]);
    let mut c: u16 = 0;
    while c < 256
        invariant
            c <= 256,
            occupied@.len() == 256,
            occ == Set::new(|x: u8| occupied@[x as int]),
            forall|t: u8| t < c ==> occ.contains(t),
        decreases 256 - c,
    {
        if !occupied[c as usize] {
            let s = c as u8;
            proof {
                assert(!occ.contains(s));
                assert(forall|t: u8| t < s ==> occ.contains(t));
                let f = choose|x: u8| !occ.contains(x) && forall|t: u8| t < x ==> occ.contains(t);
                assert(!occ.contains(f) && forall|t: u8| t < f ==> occ.contains(t));
                if f < s {
                    assert(occ.contains(f));
                } else if s < f {
                    assert(occ.contains(s));
                }
                assert(f == s);
            }
            return Some((s, false));
        }
        assert(occ.contains(c as u8));
        c += 1;
    }
    proof {
        assert forall|s: u8| occ.contains(s) by {
            assert(s < c);
        }
    }
    None
}

} // verus!
