//! Windows paths as text. The tools this library drives (CCS, Keil µVision,
//! SysConfig) are Windows programs, so paths are modelled the way Windows
//! reads them: `\` and `/` both separate components, and joining inserts `\`.
use vstd::prelude::*;
use crate::text::{
    append_chars, is_path_sep, path_sep, slice_chars, split_tokens, tokens, views, SepKind,
};

verus! {

/// A bare drive designator such as `D:`.
pub open spec fn is_drive(t: Seq<char>) -> bool {
    t.len() == 2 && t[1] == ':'
}

/// The path has a prefix of its own: a drive (`D:`) or a `\\` start (a
/// server share, a device or a verbatim path).
pub open spec fn has_prefix(p: Seq<char>) -> bool {
    p.len() >= 2 && (p[1] == ':' || (is_path_sep(p[0]) && is_path_sep(p[1])))
}

/// The drive of a path that starts with one, else nothing.
pub open spec fn drive_of(p: Seq<char>) -> Seq<char> {
    if p.len() >= 2 && p[1] == ':' {
        p.take(2)
    } else {
        seq![]
    }
}

/// `base` joined with `part`, the way Windows joins paths: a `part` with a
/// prefix replaces `base`; a rooted `part` (one separator first) keeps only
/// `base`'s drive; otherwise `part` follows `base`, a `\` between them
/// unless `base` is empty, ends with a separator, or is a bare drive.
pub open spec fn path_join_spec(base: Seq<char>, part: Seq<char>) -> Seq<char> {
    if has_prefix(part) {
        part
    } else if part.len() > 0 && is_path_sep(part[0]) {
        drive_of(base) + part
    } else if base.len() == 0 {
        part
    } else if is_path_sep(base.last()) || is_drive(base) {
        base + part
    } else {
        base + seq!['\\'] + part
    }
}

/// How many of the components are not `.` (which a path ignores after its
/// start).
pub open spec fn named_count(ts: Seq<Seq<char>>) -> nat
    decreases ts.len(),
{
    if ts.len() == 0 {
        0
    } else {
        named_count(ts.drop_last()) + if ts.last() == seq!['.'] {
            0nat
        } else {
            1nat
        }
    }
}

/// The last component that is not `.`.
pub open spec fn last_named(ts: Seq<Seq<char>>) -> Seq<char>
    decreases ts.len(),
{
    if ts.len() == 0 {
        seq![]
    } else if ts.last() == seq!['.'] {
        last_named(ts.drop_last())
    } else {
        ts.last()
    }
}

/// The last component of a path: the final run of non-separator characters
/// that is not `.`, unless there is none, it is `..`, or it is the drive of
/// a path that has nothing else.
pub open spec fn file_name_spec(p: Seq<char>) -> Option<Seq<char>> {
    let ts = tokens(p, path_sep());
    if named_count(ts) == 0 {
        None
    } else {
        let last = last_named(ts);
        if last == seq!['.', '.'] || (named_count(ts) == 1 && is_drive(last) && !is_path_sep(p[0])) {
            None
        } else {
            Some(last)
        }
    }
}

/// Index of the last occurrence of `c`, or -1.
pub open spec fn last_index(s: Seq<char>, c: char) -> int
    decreases s.len(),
{
    if s.len() == 0 {
        -1
    } else if s.last() == c {
        s.len() - 1
    } else {
        last_index(s.drop_last(), c)
    }
}

/// The extension of a file name: the text after the last `.`, when that `.`
/// is not the first character.
pub open spec fn name_extension(name: Seq<char>) -> Option<Seq<char>> {
    let k = last_index(name, '.');
    if k <= 0 {
        None
    } else {
        Some(name.skip(k + 1))
    }
}

/// The file name without its extension.
pub open spec fn name_stem(name: Seq<char>) -> Seq<char> {
    let k = last_index(name, '.');
    if k <= 0 {
        name
    } else {
        name.take(k)
    }
}

pub open spec fn path_extension_spec(p: Seq<char>) -> Option<Seq<char>> {
    match file_name_spec(p) {
        Some(n) => name_extension(n),
        None => None,
    }
}

/// Index of the last separator, or -1.
pub open spec fn last_sep_index(s: Seq<char>) -> int
    decreases s.len(),
{
    if s.len() == 0 {
        -1
    } else if is_path_sep(s.last()) {
        s.len() - 1
    } else {
        last_sep_index(s.drop_last())
    }
}

pub open spec fn trim_end_seps(s: Seq<char>) -> Seq<char>
    decreases s.len(),
{
    if s.len() > 0 && is_path_sep(s.last()) {
        trim_end_seps(s.drop_last())
    } else {
        s
    }
}

/// The directory part of a relative file path: what comes before its last
/// separator, or the empty path when there is none.
pub open spec fn parent_spec(p: Seq<char>) -> Seq<char> {
    let k = last_sep_index(p);
    if k < 0 {
        seq![]
    } else {
        trim_end_seps(p.take(k))
    }
}

pub proof fn lemma_last_index_bounds(s: Seq<char>, c: char)
    ensures
        -1 <= last_index(s, c) < s.len(),
        last_index(s, c) >= 0 ==> s[last_index(s, c)] == c,
        forall|j: int| last_index(s, c) < j < s.len() ==> s[j] != c,
    decreases s.len(),
{
    if s.len() > 0 && s.last() != c {
        lemma_last_index_bounds(s.drop_last(), c);
        assert forall|j: int| last_index(s, c) < j < s.len() implies s[j] != c by {
            if j < s.len() - 1 {
                assert(s.drop_last()[j] == s[j]);
            }
        }
    }
}

pub proof fn lemma_last_index_is(s: Seq<char>, c: char, k: int)
    requires
        -1 <= k < s.len(),
        k >= 0 ==> s[k] == c,
        forall|j: int| k < j < s.len() ==> s[j] != c,
    ensures
        last_index(s, c) == k,
    decreases s.len(),
{
    if s.len() > 0 && s.last() != c {
        lemma_last_index_is(s.drop_last(), c, k);
    }
}

pub proof fn lemma_last_sep_index_is(s: Seq<char>, k: int)
    requires
        -1 <= k < s.len(),
        k >= 0 ==> is_path_sep(s[k]),
        forall|j: int| k < j < s.len() ==> !is_path_sep(s[j]),
    ensures
        last_sep_index(s) == k,
    decreases s.len(),
{
    if s.len() > 0 && !is_path_sep(s.last()) {
        lemma_last_sep_index_is(s.drop_last(), k);
    }
}

/// Index of the last `c` in `s`, or `None`.
pub fn last_index_of(s: &Vec<char>, c: char) -> (r: Option<usize>)
    ensures
        match r {
            Some(k) => last_index(s@, c) == k,
            None => last_index(s@, c) == -1,
        },
{
    let mut i = s.len();
    while i > 0
        invariant
            i <= s.len(),
            forall|j: int| i <= j < s.len() ==> s@[j] != c,
        decreases i,
    {
        if s[i - 1] == c {
            proof {
                lemma_last_index_is(s@, c, i - 1);
            }
            return Some(i - 1);
        }
        i -= 1;
    }
    proof {
        lemma_last_index_is(s@, c, -1);
    }
    None
}

fn is_sep_char(c: char) -> (r: bool)
    ensures
        r == is_path_sep(c),
{
    c == '\\' || c == '/'
}

/// `base` joined with the relative `part`.
pub fn path_join(base: &Vec<char>, part: &Vec<char>) -> (r: Vec<char>)
    ensures
        r@ == path_join_spec(base@, part@),
{
    if part.len() >= 2 && (part[1] == ':' || (is_sep_char(part[0]) && is_sep_char(part[1]))) {
        return part.clone();
    }
    if part.len() > 0 && is_sep_char(part[0]) {
        let mut r: Vec<char> = Vec::new();
        if base.len() >= 2 && base[1] == ':' {
            r.push(base[0]);
            r.push(base[1]);
            assert(r@ =~= base@.take(2));
        } else {
            assert(r@ =~= seq![]);
        }
        append_chars(&mut r, part);
        return r;
    }
    if base.len() == 0 {
        return part.clone();
    }
    let mut r = base.clone();
    let last = base[base.len() - 1];
    let drive = base.len() == 2 && base[1] == ':';
    if !(is_sep_char(last) || drive) {
        r.push('\\');
    }
    append_chars(&mut r, part);
    proof {
        if !(is_path_sep(base@.last()) || is_drive(base@)) {
            assert(r@ =~= base@ + seq!['\\'] + part@);
        }
    }
    r
}

/// `base` joined with the relative `part`, `part` given as text.
pub fn path_join_str(base: &Vec<char>, part: &str) -> (r: Vec<char>)
    ensures
        r@ == path_join_spec(base@, part@),
{
    path_join(base, &crate::text::chars_of(part))
}

/// The last component of `p`, if it names a file or directory.
pub fn file_name_of(p: &Vec<char>) -> (r: Option<Vec<char>>)
    ensures
        match r {
            Some(n) => file_name_spec(p@) == Some(n@),
            None => file_name_spec(p@) is None,
        },
{
    let ts = split_tokens(p, &SepKind::PathSeparator);
    let ghost tv = views(ts@);
    assert(tv.len() == ts@.len());
    let mut count: usize = 0;
    let mut last: Vec<char> = Vec::new();
    let mut i: usize = 0;
    while i < ts.len()
        invariant
            i <= ts.len(),
            tv == views(ts@),
            tv.len() == ts@.len(),
            count == named_count(tv.take(i as int)),
            count <= i,
            last@ == last_named(tv.take(i as int)),
        decreases ts.len() - i,
    {
        let t = &ts[i];
        assert(tv.take(i + 1).drop_last() =~= tv.take(i as int));
        assert(tv.take(i + 1).last() == t@);
        let is_dot = t.len() == 1 && t[0] == '.';
        proof {
            if is_dot {
                assert(t@ =~= seq!['.']);
            }
        }
        if !is_dot {
            count = count + 1;
            last = t.clone();
        }
        i += 1;
    }
    assert(tv.take(ts.len() as int) =~= tv);
    if count == 0 {
        return None;
    }
    let is_dotdot = last.len() == 2 && last[0] == '.' && last[1] == '.';
    let bare_drive = count == 1 && last.len() == 2 && last[1] == ':' && !is_sep_char(p[0]);
    proof {
        if is_dotdot {
            assert(last@ =~= seq!['.', '.']);
        }
        if count > 0 {
            assert(p@.len() > 0) by {
                if p@.len() == 0 {
                    assert(tv.len() == 0);
                    assert(tv =~= tv.take(0));
                }
            }
        }
    }
    if is_dotdot || bare_drive {
        None
    } else {
        Some(last)
    }
}

/// The extension of the file that `p` names.
pub fn extension_of(p: &Vec<char>) -> (r: Option<Vec<char>>)
    ensures
        match r {
            Some(e) => path_extension_spec(p@) == Some(e@),
            None => path_extension_spec(p@) is None,
        },
{
    match file_name_of(p) {
        Some(name) => match last_index_of(&name, '.') {
            Some(k) => {
                if k == 0 {
                    None
                } else {
                    proof {
                        lemma_last_index_bounds(name@, '.');
                    }
                    assert(k < name.len());
                    let e = slice_chars(&name, k + 1, name.len());
                    assert(e@ =~= name@.skip(k + 1));
                    Some(e)
                }
            },
            None => None,
        },
        None => None,
    }
}

/// The file name of `p` without its extension.
pub fn stem_of_name(name: &Vec<char>) -> (r: Vec<char>)
    ensures
        r@ == name_stem(name@),
{
    match last_index_of(name, '.') {
        Some(k) => {
            if k == 0 {
                name.clone()
            } else {
                proof {
                    lemma_last_index_bounds(name@, '.');
                }
                let s = slice_chars(name, 0, k);
                assert(s@ =~= name@.take(k as int));
                s
            }
        },
        None => name.clone(),
    }
}

/// The directory part of a relative file path.
pub fn parent_of(p: &Vec<char>) -> (r: Vec<char>)
    ensures
        r@ == parent_spec(p@),
{
    let mut i = p.len();
    while i > 0 && !is_sep_char(p[i - 1])
        invariant
            i <= p.len(),
            forall|j: int| i <= j < p.len() ==> !is_path_sep(p@[j]),
        decreases i,
    {
        i -= 1;
    }
    if i == 0 {
        proof {
            lemma_last_sep_index_is(p@, -1);
        }
        return Vec::new();
    }
    let k = i - 1;
    proof {
        lemma_last_sep_index_is(p@, k as int);
    }
    let mut e = k;
    while e > 0 && is_sep_char(p[e - 1])
        invariant
            e <= k < p.len(),
            trim_end_seps(p@.take(k as int)) == trim_end_seps(p@.take(e as int)),
        decreases e,
    {
        assert(p@.take(e as int).drop_last() =~= p@.take(e - 1));
        e -= 1;
    }
    let r = slice_chars(p, 0, e);
    assert(r@ =~= p@.take(e as int));
    r
}


/// The parent of a path as `std::path::Path::parent` gives it on Windows:
/// the path without its last component, trailing separators dropped unless
/// they are the root; `None` for an empty path, a bare root or a bare drive.
pub open spec fn path_parent_spec(p: Seq<char>) -> Option<Seq<char>> {
    let q = trim_end_seps(p);
    if q.len() == 0 || is_drive(q) {
        None
    } else {
        let k = last_sep_index(q);
        if k < 0 {
            if q.len() >= 2 && q[1] == ':' {
                Some(q.take(2))
            } else {
                Some(seq![])
            }
        } else {
            let h = trim_end_seps(q.take(k));
            if h.len() == 0 || is_drive(h) {
                Some(q.take(h.len() as int + 1))
            } else {
                Some(h)
            }
        }
    }
}

/// The length of `p.take(n)` without its trailing separators.
fn trimmed_len(p: &Vec<char>, n: usize) -> (e: usize)
    requires
        n <= p.len(),
    ensures
        e <= n,
        trim_end_seps(p@.take(n as int)) == p@.take(e as int),
        e > 0 ==> !is_path_sep(p@[e - 1]),
        forall|j: int| e <= j < n ==> is_path_sep(p@[j]),
{
    let mut e = n;
    while e > 0 && is_sep_char(p[e - 1])
        invariant
            e <= n <= p.len(),
            trim_end_seps(p@.take(n as int)) == trim_end_seps(p@.take(e as int)),
            forall|j: int| e <= j < n ==> is_path_sep(p@[j]),
        decreases e,
    {
        assert(p@.take(e as int).drop_last() =~= p@.take(e - 1));
        e -= 1;
    }
    e
}

/// The parent of `p` (see `path_parent_spec`).
pub fn path_parent(p: &Vec<char>) -> (r: Option<Vec<char>>)
    ensures
        match r {
            Some(x) => path_parent_spec(p@) == Some(x@),
            None => path_parent_spec(p@) is None,
        },
{
    let n = trimmed_len(p, p.len());
    assert(p@.take(p.len() as int) =~= p@);
    let ghost q = p@.take(n as int);
    if n == 0 {
        return None;
    }
    if n == 2 && p[1] == ':' {
        return None;
    }
    let mut i = n;
    while i > 0 && !is_sep_char(p[i - 1])
        invariant
            i <= n <= p.len(),
            q == p@.take(n as int),
            forall|j: int| i <= j < n ==> !is_path_sep(p@[j]),
        decreases i,
    {
        i -= 1;
    }
    if i == 0 {
        proof {
            lemma_last_sep_index_is(q, -1);
        }
        if n >= 2 && p[1] == ':' {
            let r = slice_chars(p, 0, 2);
            assert(r@ =~= q.take(2));
            return Some(r);
        }
        return Some(Vec::new());
    }
    let k = i - 1;
    proof {
        lemma_last_sep_index_is(q, k as int);
        assert(q.take(k as int) =~= p@.take(k as int));
    }
    let h = trimmed_len(p, k);
    if h == 0 || (h == 2 && p[1] == ':') {
        let r = slice_chars(p, 0, h + 1);
        assert(r@ =~= q.take(h + 1));
        Some(r)
    } else {
        let r = slice_chars(p, 0, h);
        assert(r@ =~= p@.take(h as int));
        Some(r)
    }
}

/// `p` names a file with the extension `ext`, letters compared without case.
pub open spec fn has_extension_spec(p: Seq<char>, ext: Seq<char>) -> bool {
    match path_extension_spec(p) {
        Some(e) => crate::text::lower_seq(e) == crate::text::lower_seq(ext),
        None => false,
    }
}

/// Whether `p` names a file with the extension `ext` (without case).
pub fn has_extension(p: &str, ext: &str) -> (r: bool)
    ensures
        r == has_extension_spec(p@, ext@),
{
    match extension_of(&crate::text::chars_of(p)) {
        Some(e) => crate::text::chars_equal(
            &crate::text::lower_chars(&e),
            &crate::text::lower_chars(&crate::text::chars_of(ext)),
        ),
        None => false,
    }
}

} // verus!
