//! Character-level text model: every string is handled as a sequence of
//! characters, with a specification for each operation that the project logic
//! needs (search, lines, tokens, replacement, case folding, trimming).
use vstd::prelude::*;

verus! {

/// Converts a string slice into its characters.
#[verifier::external_body]
pub(crate) fn chars_of(s: &str) -> (r: Vec<char>)
    ensures
        r@ == s@,
{
    s.chars().collect()
}

/// Builds a string from a sequence of characters.
#[verifier::external_body]
pub(crate) fn string_of(v: &[char]) -> (r: String)
    ensures
        r@ == v@,
{
    v.iter().collect()
}

// ---------------------------------------------------------------------------
// Specifications
// ---------------------------------------------------------------------------

pub open spec fn ascii_lower(c: char) -> char {
    if 'A' <= c <= 'Z' {
        ((c as u32) + 32) as char
    } else {
        c
    }
}

pub open spec fn lower_seq(s: Seq<char>) -> Seq<char> {
    s.map_values(|c: char| ascii_lower(c))
}

pub open spec fn is_ascii_digit(c: char) -> bool {
    '0' <= c <= '9'
}

pub open spec fn is_ascii_alnum(c: char) -> bool {
    ||| '0' <= c <= '9'
    ||| 'a' <= c <= 'z'
    ||| 'A' <= c <= 'Z'
}

/// The Unicode `White_Space` property, which is what `char::is_whitespace` tests.
pub open spec fn is_ws(c: char) -> bool {
    ||| '\t' <= c <= '\r'
    ||| c == ' '
    ||| c == '\u{85}'
    ||| c == '\u{A0}'
    ||| c == '\u{1680}'
    ||| '\u{2000}' <= c <= '\u{200A}'
    ||| c == '\u{2028}'
    ||| c == '\u{2029}'
    ||| c == '\u{202F}'
    ||| c == '\u{205F}'
    ||| c == '\u{3000}'
}

/// `needle` occurs in `hay` starting at index `i`.
pub open spec fn occurs_at(hay: Seq<char>, needle: Seq<char>, i: int) -> bool {
    &&& 0 <= i
    &&& i + needle.len() <= hay.len()
    &&& hay.subrange(i, i + needle.len()) == needle
}

pub open spec fn seq_contains(hay: Seq<char>, needle: Seq<char>) -> bool {
    exists|i: int| occurs_at(hay, needle, i)
}

/// `i` is the first position at or after `from` where `needle` occurs.
pub open spec fn first_occurrence_from(hay: Seq<char>, needle: Seq<char>, from: int, i: int) -> bool {
    &&& from <= i
    &&& occurs_at(hay, needle, i)
    &&& forall|j: int| from <= j < i ==> !occurs_at(hay, needle, j)
}

/// The lines of a text, as `str::lines` yields them: split at `\n`, a `\r`
/// before the `\n` removed, and no empty last line after a final `\n`.
pub open spec fn lines_of(s: Seq<char>) -> Seq<Seq<char>>
    decreases s.len(),
{
    if s.len() == 0 {
        seq![]
    } else {
        let k = newline_index(s);
        if 0 <= k < s.len() {
            seq![strip_cr(s.take(k))] + lines_of(s.skip(k + 1))
        } else {
            seq![s]
        }
    }
}

/// Index of the first `\n`, or the length when there is none.
pub open spec fn newline_index(s: Seq<char>) -> int
    decreases s.len(),
{
    if s.len() == 0 {
        0
    } else if s[0] == '\n' {
        0
    } else {
        1 + newline_index(s.skip(1))
    }
}

pub open spec fn strip_cr(s: Seq<char>) -> Seq<char> {
    if s.len() > 0 && s.last() == '\r' {
        s.drop_last()
    } else {
        s
    }
}

/// The parts joined with `sep` between neighbours.
pub open spec fn join_seq(parts: Seq<Seq<char>>, sep: Seq<char>) -> Seq<char>
    decreases parts.len(),
{
    if parts.len() == 0 {
        seq![]
    } else if parts.len() == 1 {
        parts[0]
    } else {
        join_seq(parts.drop_last(), sep) + sep + parts.last()
    }
}

/// Number of leading characters that are not separators.
pub open spec fn run_len(s: Seq<char>, sep: spec_fn(char) -> bool) -> int
    decreases s.len(),
{
    if s.len() == 0 || sep(s[0]) {
        0
    } else {
        1 + run_len(s.skip(1), sep)
    }
}

/// The maximal non-empty runs of non-separator characters, in order.
pub open spec fn tokens(s: Seq<char>, sep: spec_fn(char) -> bool) -> Seq<Seq<char>>
    decreases s.len(),
{
    if s.len() == 0 {
        seq![]
    } else if sep(s[0]) {
        tokens(s.skip(1), sep)
    } else {
        let w = run_len(s, sep);
        if 0 < w <= s.len() {
            seq![s.take(w)] + tokens(s.skip(w), sep)
        } else {
            seq![]
        }
    }
}

pub open spec fn ws_sep() -> spec_fn(char) -> bool {
    |c: char| is_ws(c)
}

pub open spec fn non_digit_sep() -> spec_fn(char) -> bool {
    |c: char| !is_ascii_digit(c)
}

/// Path separators: both `\\` and `/` separate Windows path components.
pub open spec fn is_path_sep(c: char) -> bool {
    c == '\\' || c == '/'
}

pub open spec fn path_sep() -> spec_fn(char) -> bool {
    |c: char| is_path_sep(c)
}

pub open spec fn trim_start_seq(s: Seq<char>) -> Seq<char>
    decreases s.len(),
{
    if s.len() > 0 && is_ws(s[0]) {
        trim_start_seq(s.skip(1))
    } else {
        s
    }
}

pub open spec fn trim_end_seq(s: Seq<char>) -> Seq<char>
    decreases s.len(),
{
    if s.len() > 0 && is_ws(s.last()) {
        trim_end_seq(s.drop_last())
    } else {
        s
    }
}

pub open spec fn trim_seq(s: Seq<char>) -> Seq<char> {
    trim_end_seq(trim_start_seq(s))
}

/// Every non-overlapping occurrence of `from`, scanning left to right, replaced by `to`.
pub open spec fn replace_all_seq(s: Seq<char>, from: Seq<char>, to: Seq<char>) -> Seq<char>
    decreases s.len(),
{
    if s.len() == 0 {
        seq![]
    } else if from.len() > 0 && from.is_prefix_of(s) {
        to + replace_all_seq(s.skip(from.len() as int), from, to)
    } else {
        seq![s[0]] + replace_all_seq(s.skip(1), from, to)
    }
}

/// The first occurrence of `from` replaced by `to`; unchanged when there is none.
pub open spec fn replace_first_seq(s: Seq<char>, from: Seq<char>, to: Seq<char>) -> Seq<char>
    decreases s.len(),
{
    if s.len() == 0 {
        seq![]
    } else if from.len() > 0 && from.is_prefix_of(s) {
        to + s.skip(from.len() as int)
    } else {
        seq![s[0]] + replace_first_seq(s.skip(1), from, to)
    }
}

/// Every occurrence of the character `c` removed.
pub open spec fn remove_char_seq(s: Seq<char>, c: char) -> Seq<char>
    decreases s.len(),
{
    if s.len() == 0 {
        seq![]
    } else if s.last() == c {
        remove_char_seq(s.drop_last(), c)
    } else {
        remove_char_seq(s.drop_last(), c).push(s.last())
    }
}

/// Every occurrence of the character `a` replaced by `b`.
pub open spec fn map_char_seq(s: Seq<char>, a: char, b: char) -> Seq<char> {
    s.map_values(|x: char| if x == a { b } else { x })
}

pub open spec fn views(v: Seq<Vec<char>>) -> Seq<Seq<char>> {
    v.map_values(|x: Vec<char>| x@)
}

pub open spec fn string_views(v: Seq<String>) -> Seq<Seq<char>> {
    v.map_values(|x: String| x@)
}

// ---------------------------------------------------------------------------
// Executable operations
// ---------------------------------------------------------------------------

pub fn lower_char(c: char) -> (r: char)
    ensures
        r == ascii_lower(c),
{
    if 'A' <= c && c <= 'Z' {
        ((c as u8) + 32) as char
    } else {
        c
    }
}

pub fn lower_chars(s: &Vec<char>) -> (r: Vec<char>)
    ensures
        r@ == lower_seq(s@),
{
    let mut r: Vec<char> = Vec::new();
    let mut i: usize = 0;
    while i < s.len()
        invariant
            i <= s.len(),
            r@ == lower_seq(s@.take(i as int)),
        decreases s.len() - i,
    {
        r.push(lower_char(s[i]));
        i += 1;
        assert(lower_seq(s@.take(i as int)) =~= lower_seq(s@.take(i - 1)).push(ascii_lower(s@[i - 1])));
    }
    assert(s@.take(s.len() as int) =~= s@);
    r
}

pub fn is_whitespace(c: char) -> (r: bool)
    ensures
        r == is_ws(c),
{
    ('\t' <= c && c <= '\r') || c == ' ' || c == '\u{85}' || c == '\u{A0}' || c == '\u{1680}'
        || ('\u{2000}' <= c && c <= '\u{200A}') || c == '\u{2028}' || c == '\u{2029}'
        || c == '\u{202F}' || c == '\u{205F}' || c == '\u{3000}'
}

pub fn is_digit(c: char) -> (r: bool)
    ensures
        r == is_ascii_digit(c),
{
    '0' <= c && c <= '9'
}

pub fn is_alnum(c: char) -> (r: bool)
    ensures
        r == is_ascii_alnum(c),
{
    ('0' <= c && c <= '9') || ('a' <= c && c <= 'z') || ('A' <= c && c <= 'Z')
}

/// Characters `from..to` of `s`.
pub fn slice_chars(s: &Vec<char>, from: usize, to: usize) -> (r: Vec<char>)
    requires
        from <= to <= s.len(),
    ensures
        r@ == s@.subrange(from as int, to as int),
{
    let mut r: Vec<char> = Vec::new();
    let mut i = from;
    while i < to
        invariant
            from <= i <= to <= s.len(),
            r@ == s@.subrange(from as int, i as int),
        decreases to - i,
    {
        r.push(s[i]);
        i += 1;
        assert(r@ =~= s@.subrange(from as int, i as int));
    }
    r
}

/// `a` followed by `b`.
pub fn concat_chars(a: &Vec<char>, b: &Vec<char>) -> (r: Vec<char>)
    ensures
        r@ == a@ + b@,
{
    let mut r = a.clone();
    append_chars(&mut r, b);
    r
}

pub fn append_chars(r: &mut Vec<char>, b: &Vec<char>)
    ensures
        final(r)@ == old(r)@ + b@,
{
    let mut i: usize = 0;
    while i < b.len()
        invariant
            i <= b.len(),
            r@ == old(r)@ + b@.take(i as int),
        decreases b.len() - i,
    {
        r.push(b[i]);
        i += 1;
        assert(r@ =~= old(r)@ + b@.take(i as int));
    }
    assert(b@.take(b.len() as int) =~= b@);
}

pub fn chars_equal(a: &Vec<char>, b: &Vec<char>) -> (r: bool)
    ensures
        r == (a@ == b@),
{
    if a.len() != b.len() {
        return false;
    }
    let mut i: usize = 0;
    while i < a.len()
        invariant
            a.len() == b.len(),
            i <= a.len(),
            forall|j: int| 0 <= j < i ==> a@[j] == b@[j],
        decreases a.len() - i,
    {
        if a[i] != b[i] {
            return false;
        }
        i += 1;
    }
    assert(a@ =~= b@);
    true
}

/// Whether `needle` occurs in `hay` at index `i`.
pub fn matches_at(hay: &Vec<char>, needle: &Vec<char>, i: usize) -> (r: bool)
    ensures
        r == occurs_at(hay@, needle@, i as int),
{
    if i > hay.len() || needle.len() > hay.len() - i {
        return false;
    }
    let mut k: usize = 0;
    while k < needle.len()
        invariant
            i + needle.len() <= hay.len(),
            k <= needle.len(),
            forall|j: int| 0 <= j < k ==> hay@[i + j] == needle@[j],
        decreases needle.len() - k,
    {
        if hay[i + k] != needle[k] {
            assert(hay@.subrange(i as int, i + needle.len())[k as int] != needle@[k as int]);
            return false;
        }
        k += 1;
    }
    assert(hay@.subrange(i as int, i + needle.len()) =~= needle@);
    true
}

/// The first occurrence of `needle` in `hay` at or after `from`.
pub fn find_from(hay: &Vec<char>, needle: &Vec<char>, from: usize) -> (r: Option<usize>)
    ensures
        r matches Some(i) ==> first_occurrence_from(hay@, needle@, from as int, i as int),
        r is None ==> forall|j: int| from <= j ==> !occurs_at(hay@, needle@, j),
{
    if from > hay.len() {
        return None;
    }
    let mut i = from;
    loop
        invariant
            from <= i <= hay.len(),
            forall|j: int| from <= j < i ==> !occurs_at(hay@, needle@, j),
        decreases hay.len() - i,
    {
        if matches_at(hay, needle, i) {
            return Some(i);
        }
        if i == hay.len() {
            return None;
        }
        i += 1;
    }
}

pub fn contains_chars(hay: &Vec<char>, needle: &Vec<char>) -> (r: bool)
    ensures
        r == seq_contains(hay@, needle@),
{
    match find_from(hay, needle, 0) {
        Some(i) => true,
        None => false,
    }
}

pub fn starts_with_chars(s: &Vec<char>, prefix: &Vec<char>) -> (r: bool)
    ensures
        r == prefix@.is_prefix_of(s@),
{
    let r = matches_at(s, prefix, 0);
    proof {
        if prefix@.len() <= s@.len() {
            assert(s@.subrange(0, prefix@.len() as int) =~= s@.subrange(0int, 0int + prefix@.len()));
        }
    }
    r
}

pub fn ends_with_chars(s: &Vec<char>, suffix: &Vec<char>) -> (r: bool)
    ensures
        r == suffix@.is_suffix_of(s@),
{
    if suffix.len() > s.len() {
        return false;
    }
    matches_at(s, suffix, s.len() - suffix.len())
}


pub proof fn lemma_newline_index(s: Seq<char>, k: int)
    requires
        0 <= k <= s.len(),
        forall|j: int| 0 <= j < k ==> s[j] != '\n',
        k == s.len() || s[k] == '\n',
    ensures
        newline_index(s) == k,
    decreases k,
{
    if k > 0 {
        lemma_newline_index(s.skip(1), k - 1);
    }
}

/// The lines of `s`, as `str::lines` yields them.
pub fn split_lines(s: &Vec<char>) -> (r: Vec<Vec<char>>)
    ensures
        views(r@) == lines_of(s@),
{
    let mut r: Vec<Vec<char>> = Vec::new();
    let mut start: usize = 0;
    assert(s@.skip(0) =~= s@);
    assert(views(r@) + lines_of(s@) =~= lines_of(s@));
    while start < s.len()
        invariant
            start <= s.len(),
            lines_of(s@) == views(r@) + lines_of(s@.skip(start as int)),
        decreases s.len() - start,
    {
        let mut k = start;
        while k < s.len() && s[k] != '\n'
            invariant
                start <= k <= s.len(),
                forall|j: int| start <= j < k ==> s@[j] != '\n',
            decreases s.len() - k,
        {
            k += 1;
        }
        let ghost rest = s@.skip(start as int);
        proof {
            lemma_newline_index(rest, k - start);
        }
        let ghost old_r = r@;
        if k < s.len() {
            let mut end = k;
            if end > start && s[end - 1] == '\r' {
                end = end - 1;
            }
            let line = slice_chars(s, start, end);
            proof {
                assert(rest.take(k - start) =~= s@.subrange(start as int, k as int));
                assert(strip_cr(rest.take(k - start)) =~= line@);
                assert(rest.skip(k - start + 1) =~= s@.skip(k + 1));
            }
            r.push(line);
            start = k + 1;
        } else {
            let line = slice_chars(s, start, s.len());
            proof {
                assert(rest =~= line@);
                assert(s@.skip(s.len() as int) =~= Seq::<char>::empty());
            }
            r.push(line);
            start = s.len();
        }
        assert(views(r@) =~= views(old_r).push(r@.last()@));
    }
    assert(s@.skip(start as int) =~= Seq::<char>::empty());
    assert(views(r@) + seq![] =~= views(r@));
    r
}

/// The parts joined with `sep` between neighbours.
pub fn join_chars(parts: &Vec<Vec<char>>, sep: &Vec<char>) -> (r: Vec<char>)
    ensures
        r@ == join_seq(views(parts@), sep@),
{
    let mut r: Vec<char> = Vec::new();
    let mut i: usize = 0;
    while i < parts.len()
        invariant
            i <= parts.len(),
            r@ == join_seq(views(parts@).take(i as int), sep@),
        decreases parts.len() - i,
    {
        let ghost before = views(parts@).take(i as int);
        let ghost after = views(parts@).take(i + 1);
        if i > 0 {
            append_chars(&mut r, sep);
        }
        append_chars(&mut r, &parts[i]);
        i += 1;
        proof {
            assert(after.drop_last() =~= before);
            if i == 1 {
                assert(after.len() == 1);
                assert(r@ =~= after[0]);
            }
        }
    }
    assert(views(parts@).take(parts.len() as int) =~= views(parts@));
    r
}

/// Separator classes for splitting text into tokens.
pub enum SepKind {
    Whitespace,
    NonDigit,
    PathSeparator,
}

pub open spec fn sep_pred(k: SepKind) -> spec_fn(char) -> bool {
    match k {
        SepKind::Whitespace => ws_sep(),
        SepKind::NonDigit => non_digit_sep(),
        SepKind::PathSeparator => path_sep(),
    }
}

pub fn is_sep(k: &SepKind, c: char) -> (r: bool)
    ensures
        r == (sep_pred(*k))(c),
{
    match k {
        SepKind::Whitespace => is_whitespace(c),
        SepKind::NonDigit => !is_digit(c),
        SepKind::PathSeparator => c == '\\' || c == '/',
    }
}

pub proof fn lemma_run_len(s: Seq<char>, sep: spec_fn(char) -> bool, j: int)
    requires
        0 <= j <= s.len(),
        forall|i: int| 0 <= i < j ==> !sep(s[i]),
        j == s.len() || sep(s[j]),
    ensures
        run_len(s, sep) == j,
    decreases j,
{
    if j > 0 {
        lemma_run_len(s.skip(1), sep, j - 1);
    }
}

/// The leading run holds no separator.
pub proof fn lemma_run_len_clean(s: Seq<char>, sep: spec_fn(char) -> bool)
    ensures
        0 <= run_len(s, sep) <= s.len(),
        forall|i: int| 0 <= i < run_len(s, sep) ==> !sep(s[i]),
    decreases s.len(),
{
    if s.len() > 0 && !sep(s[0]) {
        lemma_run_len_clean(s.skip(1), sep);
        assert forall|i: int| 0 <= i < run_len(s, sep) implies !sep(s[i]) by {
            if i > 0 {
                assert(s.skip(1)[i - 1] == s[i]);
            }
        }
    }
}

/// Every token is non-empty and holds no separator.
pub proof fn lemma_tokens_clean(s: Seq<char>, sep: spec_fn(char) -> bool)
    ensures
        forall|k: int| 0 <= k < tokens(s, sep).len() ==> (#[trigger] tokens(s, sep)[k]).len() > 0,
        forall|k: int, i: int|
            0 <= k < tokens(s, sep).len() && 0 <= i < tokens(s, sep)[k].len() ==> !sep(
                #[trigger] tokens(s, sep)[k][i],
            ),
    decreases s.len(),
{
    if s.len() == 0 {
    } else if sep(s[0]) {
        lemma_tokens_clean(s.skip(1), sep);
        assert(tokens(s, sep) == tokens(s.skip(1), sep));
    } else {
        let w = run_len(s, sep);
        lemma_run_len_clean(s, sep);
        lemma_run_len_clean(s.skip(1), sep);
        assert(w > 0);
        if 0 < w <= s.len() {
            lemma_tokens_clean(s.skip(w), sep);
            let ts = tokens(s, sep);
            let rest = tokens(s.skip(w), sep);
            assert(ts == seq![s.take(w)] + rest);
            assert forall|k: int| 0 <= k < ts.len() implies (#[trigger] ts[k]).len() > 0 by {
                if k > 0 {
                    assert(ts[k] == rest[k - 1]);
                }
            }
            assert forall|k: int, i: int| 0 <= k < ts.len() && 0 <= i < ts[k].len() implies !sep(
                #[trigger] ts[k][i],
            ) by {
                if k > 0 {
                    assert(ts[k] == rest[k - 1]);
                } else {
                    assert(ts[0][i] == s[i]);
                }
            }
        }
    }
}

/// The maximal non-empty runs of non-separator characters (`split_whitespace`
/// for whitespace, the digit runs for `NonDigit`).
pub fn split_tokens(s: &Vec<char>, kind: &SepKind) -> (r: Vec<Vec<char>>)
    ensures
        views(r@) == tokens(s@, sep_pred(*kind)),
{
    let ghost sep = sep_pred(*kind);
    let mut r: Vec<Vec<char>> = Vec::new();
    let mut i: usize = 0;
    assert(s@.skip(0) =~= s@);
    assert(views(r@) + tokens(s@, sep) =~= tokens(s@, sep));
    while i < s.len()
        invariant
            i <= s.len(),
            sep == sep_pred(*kind),
            tokens(s@, sep) == views(r@) + tokens(s@.skip(i as int), sep),
        decreases s.len() - i,
    {
        let ghost rest = s@.skip(i as int);
        if is_sep(kind, s[i]) {
            assert(rest.skip(1) =~= s@.skip(i + 1));
            i += 1;
        } else {
            let mut j = i;
            while j < s.len() && !is_sep(kind, s[j])
                invariant
                    i <= j <= s.len(),
                    sep == sep_pred(*kind),
                    forall|m: int| i <= m < j ==> !sep(s@[m]),
                decreases s.len() - j,
            {
                j += 1;
            }
            proof {
                lemma_run_len(rest, sep, j - i);
                assert(rest.take(j - i) =~= s@.subrange(i as int, j as int));
                assert(rest.skip(j - i) =~= s@.skip(j as int));
            }
            let ghost old_r = r@;
            let word = slice_chars(s, i, j);
            r.push(word);
            assert(views(r@) =~= views(old_r).push(word@));
            i = j;
        }
    }
    assert(s@.skip(i as int) =~= Seq::<char>::empty());
    assert(views(r@) + seq![] =~= views(r@));
    r
}

/// `s` without leading and trailing whitespace.
pub fn trim_chars(s: &Vec<char>) -> (r: Vec<char>)
    ensures
        r@ == trim_seq(s@),
{
    let mut a: usize = 0;
    assert(s@.skip(0) =~= s@);
    while a < s.len() && is_whitespace(s[a])
        invariant
            a <= s.len(),
            trim_start_seq(s@) == trim_start_seq(s@.skip(a as int)),
        decreases s.len() - a,
    {
        assert(s@.skip(a as int).skip(1) =~= s@.skip(a + 1));
        a += 1;
    }
    let ghost t = s@.skip(a as int);
    assert(trim_start_seq(s@) == t);
    let mut b: usize = s.len();
    while b > a && is_whitespace(s[b - 1])
        invariant
            a <= b <= s.len(),
            t == s@.skip(a as int),
            trim_end_seq(t) == trim_end_seq(s@.subrange(a as int, b as int)),
        decreases b,
    {
        assert(s@.subrange(a as int, b as int).drop_last() =~= s@.subrange(a as int, b - 1));
        b -= 1;
    }
    proof {
        assert(t =~= s@.subrange(a as int, s.len() as int));
    }
    slice_chars(s, a, b)
}

/// `s` without leading whitespace.
pub fn trim_start_chars(s: &Vec<char>) -> (r: Vec<char>)
    ensures
        r@ == trim_start_seq(s@),
{
    let mut a: usize = 0;
    assert(s@.skip(0) =~= s@);
    while a < s.len() && is_whitespace(s[a])
        invariant
            a <= s.len(),
            trim_start_seq(s@) == trim_start_seq(s@.skip(a as int)),
        decreases s.len() - a,
    {
        assert(s@.skip(a as int).skip(1) =~= s@.skip(a + 1));
        a += 1;
    }
    assert(s@.skip(a as int) =~= s@.subrange(a as int, s.len() as int));
    slice_chars(s, a, s.len())
}

/// Every non-overlapping occurrence of `from` replaced by `to`.
pub fn replace_all_chars(s: &Vec<char>, from: &Vec<char>, to: &Vec<char>) -> (r: Vec<char>)
    ensures
        r@ == replace_all_seq(s@, from@, to@),
{
    let mut r: Vec<char> = Vec::new();
    let mut i: usize = 0;
    assert(s@.skip(0) =~= s@);
    assert(r@ + replace_all_seq(s@, from@, to@) =~= replace_all_seq(s@, from@, to@));
    while i < s.len()
        invariant
            i <= s.len(),
            replace_all_seq(s@, from@, to@) == r@ + replace_all_seq(s@.skip(i as int), from@, to@),
        decreases s.len() - i,
    {
        let ghost rest = s@.skip(i as int);
        if from.len() > 0 && matches_at(s, from, i) {
            proof {
                assert(rest.subrange(0, from@.len() as int) =~= s@.subrange(i as int, i + from@.len()));
                assert(rest.skip(from@.len() as int) =~= s@.skip(i + from@.len()));
            }
            append_chars(&mut r, to);
            i = i + from.len();
        } else {
            proof {
                if from@.len() > 0 && from@.is_prefix_of(rest) {
                    assert(rest.subrange(0, from@.len() as int) =~= s@.subrange(i as int, i + from@.len()));
                }
                assert(rest.skip(1) =~= s@.skip(i + 1));
            }
            r.push(s[i]);
            i += 1;
        }
        assert(r@ + replace_all_seq(s@.skip(i as int), from@, to@) == replace_all_seq(s@, from@, to@));
    }
    assert(s@.skip(i as int) =~= Seq::<char>::empty());
    assert(r@ + seq![] =~= r@);
    r
}

pub proof fn lemma_replace_first(s: Seq<char>, from: Seq<char>, to: Seq<char>, i: int, k: int)
    requires
        from.len() > 0,
        0 <= i <= k,
        first_occurrence_from(s, from, 0, k),
    ensures
        replace_first_seq(s.skip(i), from, to) == s.subrange(i, k) + to + s.skip(k + from.len()),
    decreases k - i,
{
    let rest = s.skip(i);
    if i == k {
        assert(rest.subrange(0, from.len() as int) =~= s.subrange(k, k + from.len()));
        assert(rest.skip(from.len() as int) =~= s.skip(k + from.len()));
        assert(s.subrange(i, k) =~= Seq::<char>::empty());
    } else {
        assert(!occurs_at(s, from, i));
        if from.is_prefix_of(rest) {
            assert(rest.subrange(0, from.len() as int) =~= s.subrange(i, i + from.len()));
        }
        lemma_replace_first(s, from, to, i + 1, k);
        assert(rest.skip(1) =~= s.skip(i + 1));
        assert(seq![rest[0]] + s.subrange(i + 1, k) =~= s.subrange(i, k));
        assert(seq![rest[0]] + (s.subrange(i + 1, k) + to + s.skip(k + from.len()))
            =~= s.subrange(i, k) + to + s.skip(k + from.len()));
    }
}

pub proof fn lemma_replace_first_none(s: Seq<char>, from: Seq<char>, to: Seq<char>, i: int)
    requires
        from.len() > 0,
        0 <= i <= s.len(),
        forall|j: int| 0 <= j ==> !occurs_at(s, from, j),
    ensures
        replace_first_seq(s.skip(i), from, to) == s.skip(i),
    decreases s.len() - i,
{
    let rest = s.skip(i);
    if i < s.len() {
        assert(!occurs_at(s, from, i));
        if from.is_prefix_of(rest) {
            assert(rest.subrange(0, from.len() as int) =~= s.subrange(i, i + from.len()));
        }
        lemma_replace_first_none(s, from, to, i + 1);
        assert(rest.skip(1) =~= s.skip(i + 1));
        assert(seq![rest[0]] + s.skip(i + 1) =~= rest);
    }
}

/// The first occurrence of `from` replaced by `to` (`replacen(from, to, 1)`).
pub fn replace_first_chars(s: &Vec<char>, from: &Vec<char>, to: &Vec<char>) -> (r: Vec<char>)
    requires
        from@.len() > 0,
    ensures
        r@ == replace_first_seq(s@, from@, to@),
{
    match find_from(s, from, 0) {
        Some(k) => {
            proof {
                lemma_replace_first(s@, from@, to@, 0, k as int);
                assert(s@.skip(0) =~= s@);
                assert(s@.subrange(0, k as int) =~= s@.take(k as int));
            }
            let mut r = slice_chars(s, 0, k);
            append_chars(&mut r, to);
            let tail = slice_chars(s, k + from.len(), s.len());
            append_chars(&mut r, &tail);
            assert(tail@ =~= s@.skip(k + from@.len()));
            r
        },
        None => {
            proof {
                lemma_replace_first_none(s@, from@, to@, 0);
                assert(s@.skip(0) =~= s@);
            }
            s.clone()
        },
    }
}

/// Every occurrence of `c` removed.
pub fn remove_char(s: &Vec<char>, c: char) -> (r: Vec<char>)
    ensures
        r@ == remove_char_seq(s@, c),
{
    let mut r: Vec<char> = Vec::new();
    let mut i: usize = 0;
    while i < s.len()
        invariant
            i <= s.len(),
            r@ == remove_char_seq(s@.take(i as int), c),
        decreases s.len() - i,
    {
        assert(s@.take(i + 1).drop_last() =~= s@.take(i as int));
        if s[i] != c {
            r.push(s[i]);
        }
        i += 1;
    }
    assert(s@.take(s.len() as int) =~= s@);
    r
}

/// Every occurrence of `a` replaced by `b`.
pub fn map_char(s: &Vec<char>, a: char, b: char) -> (r: Vec<char>)
    ensures
        r@ == map_char_seq(s@, a, b),
{
    let mut r: Vec<char> = Vec::new();
    let mut i: usize = 0;
    while i < s.len()
        invariant
            i <= s.len(),
            r@ == map_char_seq(s@.take(i as int), a, b),
        decreases s.len() - i,
    {
        r.push(if s[i] == a { b } else { s[i] });
        i += 1;
        assert(r@ =~= map_char_seq(s@.take(i as int), a, b));
    }
    assert(s@.take(s.len() as int) =~= s@);
    r
}

// ---------------------------------------------------------------------------
// Lines, rejoined
// ---------------------------------------------------------------------------

/// No `\n` in the text.
pub open spec fn no_newline(s: Seq<char>) -> bool {
    forall|j: int| 0 <= j < s.len() ==> s[j] != '\n'
}

/// The text ends with `\r`.
pub open spec fn ends_cr(s: Seq<char>) -> bool {
    s.len() > 0 && s.last() == '\r'
}

/// The text ends with `\n`.
pub open spec fn ends_nl(s: Seq<char>) -> bool {
    s.len() > 0 && s.last() == '\n'
}

/// A line ending: `\n` or `\r\n`.
pub open spec fn is_line_ending(nl: Seq<char>) -> bool {
    nl == seq!['\n'] || nl == seq!['\r', '\n']
}

/// A line that comes back unchanged when it is written followed by `nl`.
pub open spec fn fits_line(l: Seq<char>, nl: Seq<char>) -> bool {
    no_newline(l) && (nl == seq!['\n'] ==> !ends_cr(l))
}

pub proof fn lemma_newline_index_clean(a: Seq<char>, rest: Seq<char>)
    requires
        no_newline(a),
    ensures
        newline_index(a + rest) == a.len() + newline_index(rest),
    decreases a.len(),
{
    if a.len() > 0 {
        assert((a + rest).skip(1) =~= a.skip(1) + rest);
        lemma_newline_index_clean(a.skip(1), rest);
    } else {
        assert(a + rest =~= rest);
    }
}

pub proof fn lemma_newline_index_range(s: Seq<char>)
    ensures
        0 <= newline_index(s) <= s.len(),
        newline_index(s) < s.len() ==> s[newline_index(s)] == '\n',
        forall|j: int| 0 <= j < newline_index(s) ==> s[j] != '\n',
    decreases s.len(),
{
    if s.len() > 0 && s[0] != '\n' {
        lemma_newline_index_range(s.skip(1));
        assert forall|j: int| 0 <= j < newline_index(s) implies s[j] != '\n' by {
            if j > 0 {
                assert(s.skip(1)[j - 1] == s[j]);
            }
        }
    }
}

/// A line followed by a line ending reads as that line.
pub proof fn lemma_lines_cons(a: Seq<char>, nl: Seq<char>, rest: Seq<char>)
    requires
        is_line_ending(nl),
        fits_line(a, nl),
    ensures
        lines_of(a + nl + rest) == seq![a] + lines_of(rest),
{
    let b = if nl == seq!['\n'] {
        a
    } else {
        a.push('\r')
    };
    assert(a + nl + rest =~= b + seq!['\n'] + rest);
    let s = b + seq!['\n'] + rest;
    assert(no_newline(b)) by {
        assert forall|j: int| 0 <= j < b.len() implies b[j] != '\n' by {
            if j < a.len() {
                assert(b[j] == a[j]);
            }
        }
    }
    lemma_newline_index_clean(b, seq!['\n'] + rest);
    assert((seq!['\n'] + rest)[0] == '\n');
    assert(newline_index(seq!['\n'] + rest) == 0);
    assert(s =~= b + (seq!['\n'] + rest));
    assert(newline_index(s) == b.len());
    assert(s.len() > b.len());
    assert(s.take(b.len() as int) =~= b);
    assert(s.skip(b.len() as int + 1) =~= rest);
    assert(strip_cr(b) =~= a);
    assert(lines_of(s) == seq![strip_cr(s.take(b.len() as int))] + lines_of(s.skip(b.len() as int + 1)));
}

/// A non-empty text without a line ending is one line.
pub proof fn lemma_lines_single(a: Seq<char>)
    requires
        no_newline(a),
        a.len() > 0,
    ensures
        lines_of(a) == seq![a],
{
    lemma_newline_index_clean(a, seq![]);
    assert(a + seq![] =~= a);
}

pub proof fn lemma_join_front(ls: Seq<Seq<char>>, sep: Seq<char>)
    requires
        ls.len() >= 2,
    ensures
        join_seq(ls, sep) == ls[0] + sep + join_seq(ls.skip(1), sep),
    decreases ls.len(),
{
    if ls.len() == 2 {
        assert(ls.drop_last().len() == 1);
        assert(ls.skip(1).len() == 1);
        assert(join_seq(ls.drop_last(), sep) == ls.drop_last()[0]);
        assert(ls.drop_last()[0] == ls[0]);
        assert(join_seq(ls.skip(1), sep) == ls.skip(1)[0]);
        assert(ls.skip(1)[0] == ls.last());
        assert(join_seq(ls, sep) == join_seq(ls.drop_last(), sep) + sep + ls.last());
    } else {
        lemma_join_front(ls.drop_last(), sep);
        let dl = ls.drop_last();
        let sk = ls.skip(1);
        assert(sk.drop_last() =~= dl.skip(1));
        assert(sk.last() == ls.last());
        assert(dl[0] == ls[0]);
        assert(join_seq(sk, sep) == join_seq(sk.drop_last(), sep) + sep + sk.last());
        assert(join_seq(ls, sep) == join_seq(dl, sep) + sep + ls.last());
        assert(join_seq(ls, sep) =~= ls[0] + sep + join_seq(sk, sep));
    }
}

pub proof fn lemma_join_last(ls: Seq<Seq<char>>, sep: Seq<char>)
    requires
        ls.len() >= 1,
        ls.last().len() > 0,
    ensures
        join_seq(ls, sep).len() > 0,
        join_seq(ls, sep).last() == ls.last().last(),
{
}

/// Lines written with a line ending after each read back as themselves.
pub proof fn lemma_lines_join_trailing(ls: Seq<Seq<char>>, nl: Seq<char>)
    requires
        is_line_ending(nl),
        ls.len() >= 1,
        forall|k: int| 0 <= k < ls.len() ==> fits_line(#[trigger] ls[k], nl),
    ensures
        lines_of(join_seq(ls, nl) + nl) == ls,
    decreases ls.len(),
{
    if ls.len() == 1 {
        assert(fits_line(ls[0], nl));
        lemma_lines_cons(ls[0], nl, seq![]);
        assert(ls[0] + nl + seq![] =~= join_seq(ls, nl) + nl);
        assert(lines_of(seq![]) =~= seq![]);
        assert(seq![ls[0]] + seq![] =~= ls);
    } else {
        lemma_join_front(ls, nl);
        let rest = ls.skip(1);
        assert forall|k: int| 0 <= k < rest.len() implies fits_line(#[trigger] rest[k], nl) by {
            assert(rest[k] == ls[k + 1]);
        }
        lemma_lines_join_trailing(rest, nl);
        assert(fits_line(ls[0], nl));
        lemma_lines_cons(ls[0], nl, join_seq(rest, nl) + nl);
        assert(join_seq(ls, nl) + nl =~= ls[0] + nl + (join_seq(rest, nl) + nl));
        assert(seq![ls[0]] + rest =~= ls);
    }
}

/// Lines written with line endings between them, the last non-empty, read
/// back as themselves.
pub proof fn lemma_lines_join_plain(ls: Seq<Seq<char>>, nl: Seq<char>)
    requires
        is_line_ending(nl),
        ls.len() >= 1,
        forall|k: int| 0 <= k < ls.len() - 1 ==> fits_line(#[trigger] ls[k], nl),
        no_newline(ls.last()),
        ls.last().len() > 0,
    ensures
        lines_of(join_seq(ls, nl)) == ls,
    decreases ls.len(),
{
    if ls.len() == 1 {
        lemma_lines_single(ls[0]);
        assert(seq![ls[0]] =~= ls);
    } else {
        lemma_join_front(ls, nl);
        let rest = ls.skip(1);
        assert forall|k: int| 0 <= k < rest.len() - 1 implies fits_line(#[trigger] rest[k], nl) by {
            assert(rest[k] == ls[k + 1]);
        }
        assert(rest.last() == ls.last());
        lemma_lines_join_plain(rest, nl);
        assert(fits_line(ls[0], nl));
        lemma_lines_cons(ls[0], nl, join_seq(rest, nl));
        assert(seq![ls[0]] + rest =~= ls);
    }
}

/// What the lines of a text are like: no line holds `\n`; without a final
/// `\n` the last line is not empty; a text with a `\n` has two lines or ends
/// with it; and in a text without `\r\n`, no line that was followed by `\n`
/// ends with `\r`.
pub proof fn lemma_lines_facts(c: Seq<char>)
    ensures
        forall|k: int| 0 <= k < lines_of(c).len() ==> no_newline(#[trigger] lines_of(c)[k]),
        c.len() > 0 <==> lines_of(c).len() > 0,
        !ends_nl(c) && lines_of(c).len() > 0 ==> lines_of(c).last().len() > 0,
        (exists|j: int| 0 <= j < c.len() && c[j] == '\n') ==> (lines_of(c).len() >= 2 || ends_nl(c)),
        !seq_contains(c, seq!['\r', '\n']) ==> forall|k: int|
            0 <= k < lines_of(c).len() && (k < lines_of(c).len() - 1 || ends_nl(c)) ==> !ends_cr(
                #[trigger] lines_of(c)[k],
            ),
    decreases c.len(),
{
    if c.len() > 0 {
        let k = newline_index(c);
        lemma_newline_index_range(c);
        if k < c.len() {
            let rest = c.skip(k + 1);
            lemma_lines_facts(rest);
            let ls = lines_of(c);
            let head = strip_cr(c.take(k));
            assert(ls == seq![head] + lines_of(rest));
            assert(no_newline(head)) by {
                assert forall|j: int| 0 <= j < head.len() implies head[j] != '\n' by {
                    assert(head[j] == c[j]);
                }
            }
            assert forall|i: int| 0 <= i < ls.len() implies no_newline(#[trigger] ls[i]) by {
                if i > 0 {
                    assert(ls[i] == lines_of(rest)[i - 1]);
                }
            }
            if !ends_nl(c) && rest.len() == 0 {
                assert(c.last() == c[k]);
            }
            if !ends_nl(c) {
                if rest.len() > 0 {
                    assert(rest.last() == c.last());
                    assert(ls.last() == lines_of(rest).last());
                } else {
                    assert(c.last() == c[k]);
                }
            }
            if lines_of(c).len() < 2 {
                assert(lines_of(rest).len() == 0);
                assert(rest.len() == 0);
                assert(c.last() == c[k]);
            }
            if !seq_contains(c, seq!['\r', '\n']) {
                if rest.len() > 0 && seq_contains(rest, seq!['\r', '\n']) {
                    let j = choose|j: int| occurs_at(rest, seq!['\r', '\n'], j);
                    assert(c.subrange(k + 1 + j, k + 1 + j + 2) =~= rest.subrange(j, j + 2));
                    assert(occurs_at(c, seq!['\r', '\n'], k + 1 + j));
                }
                assert(!ends_cr(c.take(k))) by {
                    if ends_cr(c.take(k)) {
                        assert(c.subrange(k - 1, k + 1) =~= seq!['\r', '\n']);
                        assert(occurs_at(c, seq!['\r', '\n'], k - 1));
                    }
                }
                assert forall|i: int|
                    0 <= i < ls.len() && (i < ls.len() - 1 || ends_nl(c)) implies !ends_cr(#[trigger] ls[i]) by {
                    if i > 0 {
                        assert(ls[i] == lines_of(rest)[i - 1]);
                        if rest.len() > 0 {
                            assert(rest.last() == c.last());
                        }
                    }
                }
            }
        } else {
            assert(lines_of(c) == seq![c]);
            assert forall|i: int| 0 <= i < lines_of(c).len() implies no_newline(#[trigger] lines_of(c)[i]) by {}
        }
    }
}

/// Lines joined with `\n` hold `\r\n` only where a line followed by `\n`
/// ends with `\r`.
pub proof fn lemma_join_no_crlf(ls: Seq<Seq<char>>, trail: bool)
    requires
        ls.len() >= 1,
        forall|k: int| 0 <= k < ls.len() ==> no_newline(#[trigger] ls[k]),
        forall|k: int| 0 <= k < ls.len() && (k < ls.len() - 1 || trail) ==> !ends_cr(#[trigger] ls[k]),
    ensures
        !seq_contains(join_seq(ls, seq!['\n']) + (if trail { seq!['\n'] } else { seq![] }), seq!['\r', '\n']),
    decreases ls.len(),
{
    let nl = seq!['\n'];
    let tail: Seq<char> = if trail { seq!['\n'] } else { seq![] };
    let t = join_seq(ls, nl) + tail;
    if ls.len() == 1 {
        let a = ls[0];
        assert(t =~= a + tail);
        assert forall|j: int| !occurs_at(t, seq!['\r', '\n'], j) by {
            if occurs_at(t, seq!['\r', '\n'], j) {
                assert(t.subrange(j, j + 2)[1] == t[j + 1]);
                assert(t.subrange(j, j + 2)[0] == t[j]);
                if j + 1 < a.len() {
                    assert(t[j + 1] == a[j + 1]);
                } else {
                    assert(j + 1 == a.len());
                    assert(t[j] == a[j]);
                    assert(trail);
                }
            }
        }
    } else {
        lemma_join_front(ls, nl);
        let a = ls[0];
        let rest = ls.skip(1);
        assert forall|k: int| 0 <= k < rest.len() implies no_newline(#[trigger] rest[k]) by {
            assert(rest[k] == ls[k + 1]);
        }
        assert forall|k: int| 0 <= k < rest.len() && (k < rest.len() - 1 || trail) implies !ends_cr(#[trigger] rest[k]) by {
            assert(rest[k] == ls[k + 1]);
        }
        lemma_join_no_crlf(rest, trail);
        let r = join_seq(rest, nl) + tail;
        assert(t =~= a + nl + r);
        assert(no_newline(a));
        assert(!ends_cr(a));
        assert forall|j: int| !occurs_at(t, seq!['\r', '\n'], j) by {
            if occurs_at(t, seq!['\r', '\n'], j) {
                assert(t.subrange(j, j + 2)[1] == t[j + 1]);
                assert(t.subrange(j, j + 2)[0] == t[j]);
                if j + 1 < a.len() {
                    assert(t[j + 1] == a[j + 1]);
                } else if j + 1 == a.len() {
                    assert(t[j] == a[j]);
                } else if j == a.len() {
                    assert(t[j] == '\n');
                } else {
                    let j2 = j - a.len() - 1;
                    assert(r.subrange(j2, j2 + 2) =~= t.subrange(j, j + 2));
                    assert(occurs_at(r, seq!['\r', '\n'], j2));
                }
            }
        }
    }
}

} // verus!
