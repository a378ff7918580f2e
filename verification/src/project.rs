//! Rules about project files: what kind of file a path is, which device a
//! project targets, how names and paths are carried into the converted
//! project, which CCS sources are excluded from the build.
use vstd::prelude::*;
use crate::number::{parse_u32, parse_u32_spec};
use crate::text::{
    append_chars, ascii_lower, chars_equal, chars_of, contains_chars, find_from, first_occurrence_from,
    is_alnum, is_ascii_alnum, is_path_sep, join_chars, join_seq, lower_char, lower_chars, lower_seq,
    map_char, map_char_seq, matches_at, occurs_at, seq_contains, slice_chars, split_tokens,
    starts_with_chars, string_of, string_views, tokens, trim_chars, trim_seq, views, SepKind,
    non_digit_sep, path_sep, ends_with_chars,
};
use crate::winpath::{extension_of, file_name_of, file_name_spec, name_stem, path_extension_spec, stem_of_name};

verus! {

// ---------------------------------------------------------------------------
// File kinds
// ---------------------------------------------------------------------------

pub open spec fn is_one_of(s: Seq<char>, options: Seq<Seq<char>>) -> bool {
    exists|i: int| 0 <= i < options.len() && options[i] == s
}

pub open spec fn source_extensions() -> Seq<Seq<char>> {
    seq!["c"@, "cc"@, "cpp"@, "cxx"@, "s"@, "asm"@]
}

pub open spec fn header_extensions() -> Seq<Seq<char>> {
    seq!["h"@, "hpp"@]
}

/// `source`, `header` or `syscfg` by the path's extension, in any letter case.
pub open spec fn source_type_spec(path: Seq<char>) -> Option<Seq<char>> {
    match path_extension_spec(path) {
        Some(e) => {
            let l = lower_seq(e);
            if is_one_of(l, source_extensions()) {
                Some("source"@)
            } else if is_one_of(l, header_extensions()) {
                Some("header"@)
            } else if l == "syscfg"@ {
                Some("syscfg"@)
            } else {
                None
            }
        },
        None => None,
    }
}

/// The group a file of a kind goes into.
pub open spec fn source_group_spec(kind: Seq<char>) -> Seq<char> {
    if kind == "header"@ {
        "Headers"@
    } else if kind == "syscfg"@ {
        "SysConfig"@
    } else {
        "Source"@
    }
}

fn one_of(s: &Vec<char>, options: &Vec<Vec<char>>) -> (r: bool)
    ensures
        r == is_one_of(s@, views(options@)),
{
    let mut i: usize = 0;
    while i < options.len()
        invariant
            i <= options.len(),
            forall|j: int| 0 <= j < i ==> views(options@)[j] != s@,
        decreases options.len() - i,
    {
        if chars_equal(&options[i], s) {
            assert(views(options@)[i as int] == s@);
            return true;
        }
        i += 1;
    }
    false
}

/// The kind of project file a path names, by its extension.
pub fn source_type(path: &Vec<char>) -> (r: Option<Vec<char>>)
    ensures
        match r {
            Some(k) => source_type_spec(path@) == Some(k@),
            None => source_type_spec(path@) is None,
        },
{
    match extension_of(path) {
        Some(e) => {
            let l = lower_chars(&e);
            let sources = vec![chars_of("c"), chars_of("cc"), chars_of("cpp"), chars_of("cxx"), chars_of("s"), chars_of("asm")];
            let headers = vec![chars_of("h"), chars_of("hpp")];
            assert(views(sources@) =~= source_extensions());
            assert(views(headers@) =~= header_extensions());
            if one_of(&l, &sources) {
                Some(chars_of("source"))
            } else if one_of(&l, &headers) {
                Some(chars_of("header"))
            } else if chars_equal(&l, &chars_of("syscfg")) {
                Some(chars_of("syscfg"))
            } else {
                None
            }
        },
        None => None,
    }
}

/// The group that files of a kind are listed under.
pub fn source_group(kind: &Vec<char>) -> (r: Vec<char>)
    ensures
        r@ == source_group_spec(kind@),
{
    if chars_equal(kind, &chars_of("header")) {
        chars_of("Headers")
    } else if chars_equal(kind, &chars_of("syscfg")) {
        chars_of("SysConfig")
    } else {
        chars_of("Source")
    }
}

/// Keil's file type code: `2` for assembly, `1` for other sources, `5` else.
pub open spec fn keil_file_type_spec(path: Seq<char>, kind: Seq<char>) -> Seq<char> {
    let e = match path_extension_spec(path) {
        Some(e) => lower_seq(e),
        None => seq![],
    };
    if e == "s"@ || e == "asm"@ {
        "2"@
    } else if kind == "source"@ {
        "1"@
    } else {
        "5"@
    }
}

pub fn keil_file_type(path: &Vec<char>, kind: &Vec<char>) -> (r: Vec<char>)
    ensures
        r@ == keil_file_type_spec(path@, kind@),
{
    let e = match extension_of(path) {
        Some(e) => lower_chars(&e),
        None => Vec::new(),
    };
    if chars_equal(&e, &chars_of("s")) || chars_equal(&e, &chars_of("asm")) {
        chars_of("2")
    } else if chars_equal(kind, &chars_of("source")) {
        chars_of("1")
    } else {
        chars_of("5")
    }
}

// ---------------------------------------------------------------------------
// Devices and names
// ---------------------------------------------------------------------------

/// Number of ASCII letters and digits at the start of `s`.
pub open spec fn alnum_run(s: Seq<char>) -> int
    decreases s.len(),
{
    if s.len() == 0 || !is_ascii_alnum(s[0]) {
        0
    } else {
        1 + alnum_run(s.skip(1))
    }
}

/// The device named at the first `MSPM0` of a text: that word and the letters
/// and digits after it, when there is at least one.
pub open spec fn find_device_spec(text: Seq<char>) -> Option<Seq<char>> {
    if exists|k: int| first_occurrence_from(text, "MSPM0"@, 0, k) {
        let k = choose|k: int| first_occurrence_from(text, "MSPM0"@, 0, k);
        let w = alnum_run(text.skip(k));
        if w > 5 {
            Some(text.subrange(k, k + w))
        } else {
            None
        }
    } else {
        None
    }
}

proof fn lemma_alnum_run(s: Seq<char>, j: int)
    requires
        0 <= j <= s.len(),
        forall|i: int| 0 <= i < j ==> is_ascii_alnum(s[i]),
        j == s.len() || !is_ascii_alnum(s[j]),
    ensures
        alnum_run(s) == j,
    decreases j,
{
    if j > 0 {
        lemma_alnum_run(s.skip(1), j - 1);
    }
}

/// The MSPM0 device that a project text names.
pub fn find_device(text: &Vec<char>) -> (r: Option<Vec<char>>)
    ensures
        match r {
            Some(d) => find_device_spec(text@) == Some(d@),
            None => find_device_spec(text@) is None,
        },
{
    let key = chars_of("MSPM0");
    match find_from(text, &key, 0) {
        Some(k) => {
            proof {
                let c = choose|c: int| first_occurrence_from(text@, "MSPM0"@, 0, c);
                if c < k {
                    assert(!occurs_at(text@, key@, c));
                }
                if k < c {
                    assert(!occurs_at(text@, "MSPM0"@, k as int));
                }
            }
            let mut e = k;
            while e < text.len() && is_alnum(text[e])
                invariant
                    k <= e <= text.len(),
                    forall|i: int| k <= i < e ==> is_ascii_alnum(text@[i]),
                decreases text.len() - e,
            {
                e += 1;
            }
            proof {
                lemma_alnum_run(text@.skip(k as int), e - k);
            }
            if e - k > 5 {
                Some(slice_chars(text, k, e))
            } else {
                None
            }
        },
        None => None,
    }
}

/// The name a path gives a project: its file name without extension, or
/// `project`.
pub open spec fn file_name_spec_or_project(path: Seq<char>) -> Seq<char> {
    match file_name_spec(path) {
        Some(n) => name_stem(n),
        None => "project"@,
    }
}

pub fn file_name(path: &Vec<char>) -> (r: Vec<char>)
    ensures
        r@ == file_name_spec_or_project(path@),
{
    match file_name_of(path) {
        Some(n) => stem_of_name(&n),
        None => chars_of("project"),
    }
}

pub open spec fn name_char(c: char) -> char {
    if is_ascii_alnum(c) || c == '_' || c == '-' {
        c
    } else {
        '_'
    }
}

/// A project name made of letters, digits, `_` and `-` only, ending in
/// `_<suffix>` (in any letter case).
pub open spec fn normalized_project_name_spec(name: Seq<char>, suffix: Seq<char>) -> Seq<char> {
    let base = name.map_values(|c: char| name_char(c));
    let tail = seq!['_'] + suffix;
    if tail.is_suffix_of(lower_seq(base)) {
        base
    } else {
        base + tail
    }
}

pub fn normalized_project_name(name: &Vec<char>, suffix: &Vec<char>) -> (r: Vec<char>)
    ensures
        r@ == normalized_project_name_spec(name@, suffix@),
{
    let mut base: Vec<char> = Vec::new();
    let mut i: usize = 0;
    while i < name.len()
        invariant
            i <= name.len(),
            base@ == name@.take(i as int).map_values(|c: char| name_char(c)),
        decreases name.len() - i,
    {
        let c = name[i];
        base.push(if is_alnum(c) || c == '_' || c == '-' { c } else { '_' });
        i += 1;
        assert(base@ =~= name@.take(i as int).map_values(|c: char| name_char(c)));
    }
    assert(name@.take(name.len() as int) =~= name@);
    let mut tail = vec!['_'];
    append_chars(&mut tail, suffix);
    assert(tail@ =~= seq!['_'] + suffix@);
    if ends_with_chars(&lower_chars(&base), &tail) {
        base
    } else {
        append_chars(&mut base, &tail);
        base
    }
}

/// A normalized name stays as it is when normalized again with the same
/// suffix, for a suffix of lower-case letters, digits, `_` and `-`.
pub proof fn law_normalized_project_name_idempotent(name: Seq<char>, suffix: Seq<char>)
    requires
        forall|i: int| 0 <= i < suffix.len() ==> name_char(#[trigger] suffix[i]) == suffix[i]
            && ascii_lower(suffix[i]) == suffix[i],
    ensures
        normalized_project_name_spec(normalized_project_name_spec(name, suffix), suffix)
            == normalized_project_name_spec(name, suffix),
{
    let base = name.map_values(|c: char| name_char(c));
    let n = normalized_project_name_spec(name, suffix);
    let tail = seq!['_'] + suffix;
    assert(n.map_values(|c: char| name_char(c)) =~= n) by {
        assert forall|i: int| 0 <= i < n.len() implies name_char(n[i]) == n[i] by {
            if i < base.len() {
                assert(n[i] == base[i]);
            } else {
                assert(n[i] == tail[i - base.len()]);
                if i - base.len() > 0 {
                    assert(tail[i - base.len()] == suffix[i - base.len() - 1]);
                }
            }
        }
    }
    if !tail.is_suffix_of(lower_seq(base)) {
        assert(n == base + tail);
        assert(lower_seq(n).subrange(lower_seq(n).len() - tail.len(), lower_seq(n).len() as int) =~= tail) by {
            assert forall|k: int| 0 <= k < tail.len() implies lower_seq(n)[base.len() + k] == tail[k] by {
                assert(n[base.len() + k] == tail[k]);
                if k > 0 {
                    assert(tail[k] == suffix[k - 1]);
                }
            }
        }
        assert(tail.is_suffix_of(lower_seq(n)));
    }
}

// ---------------------------------------------------------------------------
// Lists, paths and exclusions
// ---------------------------------------------------------------------------

pub open spec fn list_sep() -> spec_fn(char) -> bool {
    |c: char| c == ';' || c == ','
}

/// The trimmed pieces that are not empty.
pub open spec fn nonempty_trimmed(parts: Seq<Seq<char>>) -> Seq<Seq<char>>
    decreases parts.len(),
{
    if parts.len() == 0 {
        seq![]
    } else {
        let rest = nonempty_trimmed(parts.drop_last());
        let t = trim_seq(parts.last());
        if t.len() == 0 {
            rest
        } else {
            rest.push(t)
        }
    }
}

/// A `;` or `,` separated list: the trimmed entries that are not empty.
pub open spec fn split_list_spec(value: Seq<char>) -> Seq<Seq<char>> {
    nonempty_trimmed(tokens(value, list_sep()))
}

/// The entries of a `;` or `,` separated list.
pub fn split_list(value: Option<&Vec<char>>) -> (r: Vec<String>)
    ensures
        string_views(r@) == split_list_spec(
            match value {
                Some(v) => v@,
                None => seq![],
            },
        ),
{
    let text: Vec<char> = match value {
        Some(v) => v.clone(),
        None => Vec::new(),
    };
    let ghost sep = list_sep();
    let mut r: Vec<String> = Vec::new();
    let mut i: usize = 0;
    let ghost mut parts: Seq<Seq<char>> = seq![];
    let mut start: usize = 0;
    // scan runs of non-separator characters
    let words = split_list_tokens(&text);
    let ghost ws = views(words@);
    while i < words.len()
        invariant
            i <= words.len(),
            ws == views(words@),
            ws == tokens(text@, list_sep()),
            string_views(r@) == nonempty_trimmed(ws.take(i as int)),
        decreases words.len() - i,
    {
        let t = trim_chars(&words[i]);
        assert(ws.take(i + 1).drop_last() =~= ws.take(i as int));
        if t.len() > 0 {
            let ghost before = string_views(r@);
            r.push(string_of(&t));
            assert(string_views(r@) =~= before.push(t@));
        }
        i += 1;
    }
    assert(ws.take(words.len() as int) =~= ws);
    r
}

fn split_list_tokens(s: &Vec<char>) -> (r: Vec<Vec<char>>)
    ensures
        views(r@) == tokens(s@, list_sep()),
{
    let ghost sep = list_sep();
    let mut r: Vec<Vec<char>> = Vec::new();
    let mut i: usize = 0;
    assert(s@.skip(0) =~= s@);
    assert(views(r@) + tokens(s@, sep) =~= tokens(s@, sep));
    while i < s.len()
        invariant
            i <= s.len(),
            sep == list_sep(),
            tokens(s@, sep) == views(r@) + tokens(s@.skip(i as int), sep),
        decreases s.len() - i,
    {
        let ghost rest = s@.skip(i as int);
        if s[i] == ';' || s[i] == ',' {
            assert(rest.skip(1) =~= s@.skip(i + 1));
            i += 1;
        } else {
            let mut j = i;
            while j < s.len() && !(s[j] == ';' || s[j] == ',')
                invariant
                    i <= j <= s.len(),
                    sep == list_sep(),
                    forall|m: int| i <= m < j ==> !sep(s@[m]),
                decreases s.len() - j,
            {
                j += 1;
            }
            proof {
                crate::text::lemma_run_len(rest, sep, j - i);
                assert(rest.take(j - i) =~= s@.subrange(i as int, j as int));
                assert(rest.skip(j - i) =~= s@.skip(j as int));
            }
            let ghost old_r = r@;
            let word = slice_chars(s, i, j);
            r.push(word);
            assert(views(r@) =~= views(old_r).push(word@));
            i = j;
        }
    }
    assert(s@.skip(i as int) =~= Seq::<char>::empty());
    assert(views(r@) + seq![] =~= views(r@));
    r
}

/// `s` with every leading and trailing `c` removed.
pub open spec fn trim_char_seq(s: Seq<char>, c: char) -> Seq<char>
    decreases s.len(),
{
    if s.len() > 0 && s[0] == c {
        trim_char_seq(s.skip(1), c)
    } else if s.len() > 0 && s.last() == c {
        trim_char_seq(s.drop_last(), c)
    } else {
        s
    }
}

fn trim_char(s: &Vec<char>, c: char) -> (r: Vec<char>)
    ensures
        r@ == trim_char_seq(s@, c),
{
    let mut a: usize = 0;
    let mut b: usize = s.len();
    assert(s@.subrange(0, s.len() as int) =~= s@);
    while a < b && (s[a] == c || s[b - 1] == c)
        invariant
            a <= b <= s.len(),
            trim_char_seq(s@, c) == trim_char_seq(s@.subrange(a as int, b as int), c),
        decreases b - a,
    {
        let ghost t = s@.subrange(a as int, b as int);
        if s[a] == c {
            assert(t.skip(1) =~= s@.subrange(a + 1, b as int));
            a += 1;
        } else {
            assert(t.drop_last() =~= s@.subrange(a as int, b - 1));
            b -= 1;
        }
    }
    slice_chars(s, a, b)
}

/// A CCS source path compared case-insensitively with `/` separators and no
/// leading or trailing `/`.
pub open spec fn normalize_ccs_source_path_spec(path: Seq<char>) -> Seq<char> {
    lower_seq(trim_char_seq(map_char_seq(path, '\\', '/'), '/'))
}

pub fn normalize_ccs_source_path(path: &Vec<char>) -> (r: Vec<char>)
    ensures
        r@ == normalize_ccs_source_path_spec(path@),
{
    lower_chars(&trim_char(&map_char(path, '\\', '/'), '/'))
}

/// `path` is an excluded entry or lies in an excluded directory.
pub open spec fn excluded_by(path: Seq<char>, excluded: Seq<char>) -> bool {
    ||| path == excluded
    ||| excluded.is_prefix_of(path) && path.len() > excluded.len() && path[excluded.len() as int] == '/'
}

pub open spec fn is_ccs_source_excluded_spec(path: Seq<char>, exclusions: Seq<Seq<char>>) -> bool {
    exists|i: int| 0 <= i < exclusions.len() && excluded_by(normalize_ccs_source_path_spec(path), #[trigger] exclusions[i])
}

/// Whether the build of a CCS project excludes `path`.
pub fn is_ccs_source_excluded(path: &Vec<char>, exclusions: &Vec<String>) -> (r: bool)
    ensures
        r == is_ccs_source_excluded_spec(path@, string_views(exclusions@)),
{
    let p = normalize_ccs_source_path(path);
    let ghost ex = string_views(exclusions@);
    let mut i: usize = 0;
    while i < exclusions.len()
        invariant
            i <= exclusions.len(),
            ex == string_views(exclusions@),
            p@ == normalize_ccs_source_path_spec(path@),
            forall|j: int| 0 <= j < i ==> !excluded_by(p@, #[trigger] ex[j]),
        decreases exclusions.len() - i,
    {
        let e = chars_of(exclusions[i].as_str());
        assert(e@ == ex[i as int]);
        if chars_equal(&p, &e) {
            return true;
        }
        if starts_with_chars(&p, &e) && p.len() > e.len() && p[e.len()] == '/' {
            return true;
        }
        i += 1;
    }
    false
}

/// Whatever lies below an excluded path is excluded too.
pub proof fn law_exclusion_covers_contents(path: Seq<char>, rest: Seq<char>, exclusions: Seq<Seq<char>>)
    requires
        is_ccs_source_excluded_spec(path, exclusions),
        normalize_ccs_source_path_spec(path) == path,
        normalize_ccs_source_path_spec(path + seq!['/'] + rest) == path + seq!['/'] + rest,
    ensures
        is_ccs_source_excluded_spec(path + seq!['/'] + rest, exclusions),
{
    let i = choose|i: int| 0 <= i < exclusions.len() && excluded_by(normalize_ccs_source_path_spec(path), #[trigger] exclusions[i]);
    let e = exclusions[i];
    let q = path + seq!['/'] + rest;
    if path == e {
        assert(q.subrange(0, e.len() as int) =~= e);
        assert(q[e.len() as int] == '/');
    } else {
        assert(q.subrange(0, e.len() as int) =~= path.subrange(0, e.len() as int));
        assert(q[e.len() as int] == path[e.len() as int]);
    }
    assert(excluded_by(normalize_ccs_source_path_spec(q), exclusions[i]));
}

// ---------------------------------------------------------------------------
// Version keys, packs
// ---------------------------------------------------------------------------

/// The numbers of the digit runs that fit in a `u32`.
pub open spec fn numbers_of(words: Seq<Seq<char>>) -> Seq<u32>
    decreases words.len(),
{
    if words.len() == 0 {
        seq![]
    } else {
        let rest = numbers_of(words.drop_last());
        match parse_u32_spec(words.last()) {
            Some(n) => rest.push(n),
            None => rest,
        }
    }
}

/// The key that orders versions: the numbers in the text, in order.
pub open spec fn version_key_spec(value: Seq<char>) -> Seq<u32> {
    numbers_of(tokens(value, non_digit_sep()))
}

pub fn version_key(value: &Vec<char>) -> (r: Vec<u32>)
    ensures
        r@ == version_key_spec(value@),
{
    let words = split_tokens(value, &SepKind::NonDigit);
    let ghost ws = views(words@);
    let mut r: Vec<u32> = Vec::new();
    let mut i: usize = 0;
    while i < words.len()
        invariant
            i <= words.len(),
            ws == views(words@),
            ws == tokens(value@, non_digit_sep()),
            r@ == numbers_of(ws.take(i as int)),
        decreases words.len() - i,
    {
        assert(ws.take(i + 1).drop_last() =~= ws.take(i as int));
        match parse_u32(&words[i]) {
            Some(n) => r.push(n),
            None => {},
        }
        i += 1;
    }
    assert(ws.take(words.len() as int) =~= ws);
    r
}

/// Version keys compare number by number; a key that is a proper prefix of
/// another comes first.
pub open spec fn key_lt(a: Seq<u32>, b: Seq<u32>) -> bool
    decreases a.len(),
{
    if a.len() == 0 {
        b.len() > 0
    } else if b.len() == 0 {
        false
    } else if a[0] < b[0] {
        true
    } else if a[0] == b[0] {
        key_lt(a.skip(1), b.skip(1))
    } else {
        false
    }
}

pub proof fn lemma_key_irreflexive(a: Seq<u32>)
    ensures
        !key_lt(a, a),
    decreases a.len(),
{
    if a.len() > 0 {
        lemma_key_irreflexive(a.skip(1));
    }
}

pub proof fn lemma_key_transitive(a: Seq<u32>, b: Seq<u32>, c: Seq<u32>)
    requires
        key_lt(a, b),
        key_lt(b, c),
    ensures
        key_lt(a, c),
    decreases a.len(),
{
    if a.len() > 0 && b.len() > 0 && c.len() > 0 && a[0] == b[0] && b[0] == c[0] {
        lemma_key_transitive(a.skip(1), b.skip(1), c.skip(1));
    }
}

pub proof fn lemma_key_total(a: Seq<u32>, b: Seq<u32>)
    ensures
        key_lt(a, b) || key_lt(b, a) || a == b,
    decreases a.len(),
{
    if a.len() > 0 && b.len() > 0 && a[0] == b[0] {
        lemma_key_total(a.skip(1), b.skip(1));
        if a.skip(1) == b.skip(1) {
            assert(a =~= seq![a[0]] + a.skip(1));
            assert(b =~= seq![b[0]] + b.skip(1));
        }
    } else if a.len() == 0 && b.len() == 0 {
        assert(a =~= b);
    }
}

pub fn key_less(a: &Vec<u32>, b: &Vec<u32>) -> (r: bool)
    ensures
        r == key_lt(a@, b@),
{
    let mut i: usize = 0;
    assert(a@.skip(0) =~= a@);
    assert(b@.skip(0) =~= b@);
    while i < a.len() && i < b.len() && a[i] == b[i]
        invariant
            i <= a.len(),
            i <= b.len(),
            key_lt(a@, b@) == key_lt(a@.skip(i as int), b@.skip(i as int)),
        decreases a.len() - i,
    {
        assert(a@.skip(i as int).skip(1) =~= a@.skip(i + 1));
        assert(b@.skip(i as int).skip(1) =~= b@.skip(i + 1));
        i += 1;
    }
    if i == a.len() {
        i < b.len()
    } else if i == b.len() {
        false
    } else {
        a[i] < b[i]
    }
}

/// A pack path inside Keil's installed pack folders (not the `.Web` catalog).
pub open spec fn is_installed_pack_path_spec(path: Seq<char>) -> bool {
    let text = lower_seq(map_char_seq(path, '/', '\\'));
    (seq_contains(text, "\\arm\\pack\\"@) || seq_contains(text, "\\arm\\packs\\"@))
        && !seq_contains(text, "\\pack\\."@) && !seq_contains(text, "\\packs\\."@)
}

pub fn is_installed_pack_path(path: &Vec<char>) -> (r: bool)
    ensures
        r == is_installed_pack_path_spec(path@),
{
    let text = lower_chars(&map_char(path, '/', '\\'));
    (contains_chars(&text, &chars_of("\\arm\\pack\\")) || contains_chars(&text, &chars_of("\\arm\\packs\\")))
        && !contains_chars(&text, &chars_of("\\pack\\.")) && !contains_chars(&text, &chars_of("\\packs\\."))
}

pub open spec fn pack_download_url_spec(name: Seq<char>) -> Seq<char> {
    "https://www.keil.arm.com/packs/"@ + lower_seq(name) + "-texasinstruments/boards/"@
}

/// The Keil web page of a Texas Instruments pack.
pub fn pack_download_url(name: &Vec<char>) -> (r: Vec<char>)
    ensures
        r@ == pack_download_url_spec(name@),
{
    let mut r = chars_of("https://www.keil.arm.com/packs/");
    append_chars(&mut r, &lower_chars(name));
    append_chars(&mut r, &chars_of("-texasinstruments/boards/"));
    r
}

/// The search page for packs that support a device.
pub open spec fn pack_search_url_spec(device: Seq<char>) -> Seq<char> {
    "https://www.keil.arm.com/packs/?q="@ + device
}

pub fn pack_search_url(device: &Vec<char>) -> (r: Vec<char>)
    ensures
        r@ == pack_search_url_spec(device@),
{
    let mut r = chars_of("https://www.keil.arm.com/packs/?q=");
    append_chars(&mut r, device);
    r
}

// ---------------------------------------------------------------------------
// Laws of file types and lists
// ---------------------------------------------------------------------------

/// Keil's file type for a project file: `2` for assembly (`.s` or `.asm`, in
/// any case), `1` only for a C source, and `5` for everything else; in
/// particular a header or a SysConfig file is never compiled as C.
pub proof fn law_keil_file_type(path: Seq<char>, kind: Seq<char>)
    ensures
        keil_file_type_spec(path, kind) == "1"@ || keil_file_type_spec(path, kind) == "2"@
            || keil_file_type_spec(path, kind) == "5"@,
        keil_file_type_spec(path, kind) == "1"@ ==> kind == "source"@,
        kind != "source"@ && keil_file_type_spec(path, kind) != "2"@ ==> keil_file_type_spec(path, kind) == "5"@,
        kind == "header"@ ==> keil_file_type_spec(path, kind) != "1"@,
        kind == "syscfg"@ ==> keil_file_type_spec(path, kind) != "1"@,
        kind == "source"@ && keil_file_type_spec(path, kind) != "2"@ ==> keil_file_type_spec(path, kind) == "1"@,
{
    reveal_strlit("1");
    reveal_strlit("2");
    reveal_strlit("5");
    reveal_strlit("source");
    reveal_strlit("header");
    reveal_strlit("syscfg");
    assert("1"@ != "2"@ && "1"@ != "5"@ && "2"@ != "5"@) by {
        assert("1"@[0] != "2"@[0]);
        assert("1"@[0] != "5"@[0]);
        assert("2"@[0] != "5"@[0]);
    }
    assert("header"@ != "source"@) by {
        assert("header"@[0] != "source"@[0]);
    }
    assert("syscfg"@ != "source"@) by {
        assert("syscfg"@[1] != "source"@[1]);
    }
}

/// No `;` and no `,` in the text.
pub open spec fn free_of_list_separators(s: Seq<char>) -> bool {
    forall|i: int| 0 <= i < s.len() ==> s[i] != ';' && s[i] != ','
}

proof fn lemma_trim_start_keeps_free(s: Seq<char>)
    requires
        free_of_list_separators(s),
    ensures
        free_of_list_separators(crate::text::trim_start_seq(s)),
    decreases s.len(),
{
    if s.len() > 0 && crate::text::is_ws(s[0]) {
        assert(free_of_list_separators(s.skip(1))) by {
            assert forall|i: int| 0 <= i < s.skip(1).len() implies s.skip(1)[i] != ';' && s.skip(1)[i] != ',' by {
                assert(s.skip(1)[i] == s[i + 1]);
            }
        }
        lemma_trim_start_keeps_free(s.skip(1));
    }
}

proof fn lemma_trim_end_keeps_free(s: Seq<char>)
    requires
        free_of_list_separators(s),
    ensures
        free_of_list_separators(crate::text::trim_end_seq(s)),
    decreases s.len(),
{
    if s.len() > 0 && crate::text::is_ws(s.last()) {
        assert(free_of_list_separators(s.drop_last())) by {
            assert forall|i: int| 0 <= i < s.drop_last().len() implies s.drop_last()[i] != ';' && s.drop_last()[i] != ',' by {
                assert(s.drop_last()[i] == s[i]);
            }
        }
        lemma_trim_end_keeps_free(s.drop_last());
    }
}

proof fn lemma_nonempty_trimmed_free(parts: Seq<Seq<char>>)
    requires
        forall|k: int| 0 <= k < parts.len() ==> free_of_list_separators(#[trigger] parts[k]),
    ensures
        forall|k: int| 0 <= k < nonempty_trimmed(parts).len() ==> free_of_list_separators(
            #[trigger] nonempty_trimmed(parts)[k],
        ),
        forall|k: int| 0 <= k < nonempty_trimmed(parts).len() ==> (#[trigger] nonempty_trimmed(parts)[k]).len() > 0,
    decreases parts.len(),
{
    if parts.len() > 0 {
        let d = parts.drop_last();
        assert forall|k: int| 0 <= k < d.len() implies free_of_list_separators(#[trigger] d[k]) by {
            assert(d[k] == parts[k]);
        }
        lemma_nonempty_trimmed_free(d);
        let t = trim_seq(parts.last());
        assert(free_of_list_separators(parts[parts.len() - 1]));
        lemma_trim_start_keeps_free(parts.last());
        lemma_trim_end_keeps_free(crate::text::trim_start_seq(parts.last()));
        assert(free_of_list_separators(t));
        let rest = nonempty_trimmed(d);
        if t.len() > 0 {
            assert forall|k: int| 0 <= k < rest.push(t).len() implies free_of_list_separators(#[trigger] rest.push(t)[k])
                && rest.push(t)[k].len() > 0 by {
                if k < rest.len() {
                    assert(rest.push(t)[k] == rest[k]);
                }
            }
        }
    }
}

/// A define or include-path list is split at both `;` and `,`: no entry
/// of the result holds either separator, and none is empty.
pub proof fn law_split_list_at_both_separators(value: Seq<char>)
    ensures
        forall|k: int| 0 <= k < split_list_spec(value).len() ==> free_of_list_separators(
            #[trigger] split_list_spec(value)[k],
        ),
        forall|k: int| 0 <= k < split_list_spec(value).len() ==> (#[trigger] split_list_spec(value)[k]).len() > 0,
{
    let ts = tokens(value, list_sep());
    crate::text::lemma_tokens_clean(value, list_sep());
    assert forall|k: int| 0 <= k < ts.len() implies free_of_list_separators(#[trigger] ts[k]) by {
        assert forall|i: int| 0 <= i < ts[k].len() implies ts[k][i] != ';' && ts[k][i] != ',' by {
            assert(!(list_sep())(ts[k][i]));
        }
    }
    lemma_nonempty_trimmed_free(ts);
}

} // verus!
