//! The level-by-level search for a tool below a directory: the directories
//! of each level are listed in turn, each listing's entries in name order,
//! and the first file with the tool's name (without case) is taken, so the
//! shallowest match wins. The caller lists directories; this module decides
//! which directory to list next and what the search finds.
use vstd::prelude::*;
use crate::sorting::{chars_less, lemma_lex_irreflexive, lemma_lex_transitive, lex_lt};
use crate::text::{append_chars, chars_equal, chars_of, lower_seq, string_of, string_views};
use crate::tools::{scan_tool_entries, tool_scan_spec, DirEntryFacts};

verus! {

// ---------------------------------------------------------------------------
// Entries in name order
// ---------------------------------------------------------------------------

/// Where an entry named `name` goes among `s`, at or after `j`: before the
/// first entry whose name is greater.
pub open spec fn entry_position(s: Seq<DirEntryFacts>, name: Seq<char>, j: int) -> int
    decreases s.len() - j,
{
    if j < 0 || j >= s.len() || lex_lt(name, s[j].name@) {
        j
    } else {
        entry_position(s, name, j + 1)
    }
}

/// The entries sorted by name (a stable insertion sort).
pub open spec fn sort_entries(es: Seq<DirEntryFacts>) -> Seq<DirEntryFacts>
    decreases es.len(),
{
    if es.len() == 0 {
        seq![]
    } else {
        let s = sort_entries(es.drop_last());
        s.insert(entry_position(s, es.last().name@, 0), es.last())
    }
}

proof fn lemma_entry_position(s: Seq<DirEntryFacts>, name: Seq<char>, j: int)
    requires
        0 <= j <= s.len(),
    ensures
        j <= entry_position(s, name, j) <= s.len(),
        forall|m: int| j <= m < entry_position(s, name, j) ==> !lex_lt(name, (#[trigger] s[m]).name@),
        entry_position(s, name, j) < s.len() ==> lex_lt(name, s[entry_position(s, name, j)].name@),
    decreases s.len() - j,
{
    if j < s.len() && !lex_lt(name, s[j].name@) {
        lemma_entry_position(s, name, j + 1);
    }
}

/// No entry comes after an entry whose name is greater.
pub open spec fn sorted_by_name(s: Seq<DirEntryFacts>) -> bool {
    forall|i: int, j: int| #![trigger s[i], s[j]] 0 <= i < j < s.len() ==> !lex_lt(s[j].name@, s[i].name@)
}

/// The sorted entries are in name order and are the listed entries, each as
/// often as it was listed.
pub proof fn lemma_sort_entries(es: Seq<DirEntryFacts>)
    ensures
        sorted_by_name(sort_entries(es)),
        sort_entries(es).to_multiset() == es.to_multiset(),
    decreases es.len(),
{
    if es.len() > 0 {
        let d = es.drop_last();
        let x = es.last();
        lemma_sort_entries(d);
        let s = sort_entries(d);
        let k = entry_position(s, x.name@, 0);
        lemma_entry_position(s, x.name@, 0);
        let t = s.insert(k, x);
        assert(t == sort_entries(es));
        assert forall|i: int, j: int| #![trigger t[i], t[j]] 0 <= i < j < t.len() implies !lex_lt(
            t[j].name@,
            t[i].name@,
        ) by {
            if j < k {
                assert(t[i] == s[i] && t[j] == s[j]);
            } else if j == k {
                assert(t[i] == s[i]);
                assert(t[j] == x);
            } else if i < k {
                assert(t[i] == s[i] && t[j] == s[j - 1]);
            } else if i == k {
                assert(t[i] == x && t[j] == s[j - 1]);
                assert(lex_lt(x.name@, s[k].name@));
                if lex_lt(s[j - 1].name@, x.name@) {
                    lemma_lex_transitive(s[j - 1].name@, x.name@, s[k].name@);
                    if k == j - 1 {
                        lemma_lex_irreflexive(s[k].name@);
                    } else {
                        assert(!lex_lt(s[j - 1].name@, s[k].name@));
                    }
                }
            } else {
                assert(t[i] == s[i - 1] && t[j] == s[j - 1]);
            }
        }
        vstd::seq_lib::to_multiset_insert(s, k, x);
        vstd::seq_lib::to_multiset_build(d, x);
        assert(d.push(x) =~= es);
    } else {
        assert(es =~= sort_entries(es));
    }
}

proof fn lemma_sort_entries_contains(es: Seq<DirEntryFacts>, x: DirEntryFacts)
    ensures
        sort_entries(es).contains(x) <==> es.contains(x),
{
    lemma_sort_entries(es);
    vstd::seq_lib::to_multiset_contains(sort_entries(es), x);
    vstd::seq_lib::to_multiset_contains(es, x);
    assert(sort_entries(es).to_multiset().count(x) == es.to_multiset().count(x));
}

fn copy_entry(e: &DirEntryFacts) -> (r: DirEntryFacts)
    ensures
        r == *e,
{
    DirEntryFacts { name: e.name.clone(), path: e.path.clone(), is_file: e.is_file, is_dir: e.is_dir }
}

/// The entries of a listing in name order (see `sort_entries`).
pub fn sorted_entries(es: &Vec<DirEntryFacts>) -> (r: Vec<DirEntryFacts>)
    ensures
        r@ == sort_entries(es@),
{
    let mut r: Vec<DirEntryFacts> = Vec::new();
    let mut i: usize = 0;
    assert(es@.take(0) =~= seq![]);
    while i < es.len()
        invariant
            i <= es.len(),
            r@ == sort_entries(es@.take(i as int)),
        decreases es.len() - i,
    {
        let ghost s = r@;
        let name = chars_of(es[i].name.as_str());
        let mut j: usize = 0;
        while j < r.len()
            invariant
                j <= r.len(),
                s == r@,
                name@ == es@[i as int].name@,
                entry_position(s, name@, 0) == entry_position(s, name@, j as int),
            ensures
                j <= r.len(),
                entry_position(s, name@, 0) == j,
            decreases r.len() - j,
        {
            if chars_less(&name, &chars_of(r[j].name.as_str())) {
                break;
            }
            j += 1;
        }
        proof {
            let t = es@.take(i + 1);
            assert(t.drop_last() =~= es@.take(i as int));
            assert(t.last() == es@[i as int]);
        }
        r.insert(j, copy_entry(&es[i]));
        i += 1;
    }
    assert(es@.take(es.len() as int) =~= es@);
    r
}

// ---------------------------------------------------------------------------
// The search
// ---------------------------------------------------------------------------

/// A directory that was listed: its path, and its entries or the error met
/// reading it.
pub struct ToolListing {
    pub dir: String,
    pub entries: Result<Vec<DirEntryFacts>, String>,
}

pub open spec fn entries_view(e: Result<Vec<DirEntryFacts>, String>) -> Result<Seq<DirEntryFacts>, Seq<char>> {
    match e {
        Ok(v) => Ok(v@),
        Err(m) => Err(m@),
    }
}

/// The first listing of directory `d`, from index `i` on.
pub open spec fn listing_from(ls: Seq<ToolListing>, d: Seq<char>, i: int) -> Option<Result<Seq<DirEntryFacts>, Seq<char>>>
    decreases ls.len() - i,
{
    if i < 0 || i >= ls.len() {
        None
    } else if ls[i].dir@ == d {
        Some(entries_view(ls[i].entries))
    } else {
        listing_from(ls, d, i + 1)
    }
}

/// The listing of directory `d`, if it was listed.
pub open spec fn listing_of(ls: Seq<ToolListing>, d: Seq<char>) -> Option<Result<Seq<DirEntryFacts>, Seq<char>>> {
    listing_from(ls, d, 0)
}

/// What searching one level gives.
pub enum LevelOutcome {
    /// Directory that must be listed first.
    Need(Seq<char>),
    /// The search root could not be read.
    Failed(Seq<char>),
    /// The tool's path.
    Found(Seq<char>),
    /// The directories of the next level.
    Next(Seq<Seq<char>>),
}

/// The message for a search root that could not be read.
pub open spec fn root_error(root: Seq<char>, e: Seq<char>) -> Seq<char> {
    "无法搜索工具目录 "@ + root + "："@ + e
}

/// Searching the directories `dirs` of one level, from the `i`-th on, with
/// `acc` the next level's directories so far: each directory's entries in
/// name order; a directory that cannot be read is passed over, unless it is
/// the search root.
pub open spec fn scan_level(
    dirs: Seq<Seq<char>>,
    i: int,
    root: Seq<char>,
    file: Seq<char>,
    descend: bool,
    ls: Seq<ToolListing>,
    acc: Seq<Seq<char>>,
) -> LevelOutcome
    decreases dirs.len() - i,
{
    if i < 0 || i >= dirs.len() {
        LevelOutcome::Next(acc)
    } else {
        match listing_of(ls, dirs[i]) {
            None => LevelOutcome::Need(dirs[i]),
            Some(Err(e)) => if dirs[i] == root {
                LevelOutcome::Failed(root_error(root, e))
            } else {
                scan_level(dirs, i + 1, root, file, descend, ls, acc)
            },
            Some(Ok(es)) => match tool_scan_spec(sort_entries(es), file, descend) {
                Ok(p) => LevelOutcome::Found(p),
                Err(ds) => scan_level(dirs, i + 1, root, file, descend, ls, acc + ds),
            },
        }
    }
}

/// Where a search stands.
pub enum SearchV {
    /// Directory that must be listed before the search can go on.
    List(Seq<char>),
    /// The tool found, none within the depth, or why the root is unusable.
    Done(Result<Option<Seq<char>>, Seq<char>>),
}

/// The search from level `level`, whose directories are `dirs`, down to
/// level `depth`.
pub open spec fn search_from(
    level: nat,
    dirs: Seq<Seq<char>>,
    root: Seq<char>,
    file: Seq<char>,
    depth: nat,
    ls: Seq<ToolListing>,
) -> SearchV
    decreases depth + 1 - level,
{
    if level > depth {
        SearchV::Done(Ok(None))
    } else {
        match scan_level(dirs, 0, root, file, level < depth, ls, seq![]) {
            LevelOutcome::Need(d) => SearchV::List(d),
            LevelOutcome::Failed(e) => SearchV::Done(Err(e)),
            LevelOutcome::Found(p) => SearchV::Done(Ok(Some(p))),
            LevelOutcome::Next(ns) => search_from(level + 1, ns, root, file, depth, ls),
        }
    }
}

/// The search for `file` below `root`, `depth` levels down, over the
/// listings made so far.
pub open spec fn tool_search_spec(root: Seq<char>, file: Seq<char>, depth: nat, ls: Seq<ToolListing>) -> SearchV {
    search_from(0, seq![root], root, file, depth, ls)
}

/// Where a search stands.
pub enum ToolSearchProgress {
    /// List this directory and search again.
    List(String),
    /// The search is over.
    Done(Result<Option<String>, String>),
}

pub open spec fn progress_view(p: ToolSearchProgress) -> SearchV {
    match p {
        ToolSearchProgress::List(d) => SearchV::List(d@),
        ToolSearchProgress::Done(Ok(Some(f))) => SearchV::Done(Ok(Some(f@))),
        ToolSearchProgress::Done(Ok(None)) => SearchV::Done(Ok(None)),
        ToolSearchProgress::Done(Err(e)) => SearchV::Done(Err(e@)),
    }
}

fn find_listing(ls: &Vec<ToolListing>, d: &str) -> (r: Option<usize>)
    ensures
        match r {
            Some(k) => k < ls.len() && listing_of(ls@, d@) == Some(entries_view(ls@[k as int].entries)),
            None => listing_of(ls@, d@) is None,
        },
{
    let want = chars_of(d);
    let mut k: usize = 0;
    while k < ls.len()
        invariant
            k <= ls.len(),
            want@ == d@,
            listing_of(ls@, d@) == listing_from(ls@, d@, k as int),
        decreases ls.len() - k,
    {
        if chars_equal(&chars_of(ls[k].dir.as_str()), &want) {
            return Some(k);
        }
        k += 1;
    }
    None
}

/// The search for `file` below `root`, `depth` levels down (see
/// `tool_search_spec`), over the directories listed so far: the directory
/// to list next, or what the search finds.
pub fn tool_search(root: &str, file: &str, depth: u8, listings: &Vec<ToolListing>) -> (r: ToolSearchProgress)
    ensures
        progress_view(r) == tool_search_spec(root@, file@, depth as nat, listings@),
{
    let ghost ls = listings@;
    let mut dirs: Vec<String> = Vec::new();
    dirs.push(string_of(&chars_of(root)));
    assert(string_views(dirs@) =~= seq![root@]);
    let mut level: u16 = 0;
    while level <= depth as u16
        invariant
            level <= depth as u16 + 1,
            ls == listings@,
            tool_search_spec(root@, file@, depth as nat, ls) == search_from(
                level as nat,
                string_views(dirs@),
                root@,
                file@,
                depth as nat,
                ls,
            ),
        decreases depth as u16 + 1 - level,
    {
        let descend = level < depth as u16;
        let ghost dv = string_views(dirs@);
        let mut next: Vec<String> = Vec::new();
        let mut i: usize = 0;
        assert(string_views(next@) =~= seq![]);
        while i < dirs.len()
            invariant
                i <= dirs.len(),
                dv == string_views(dirs@),
                ls == listings@,
                scan_level(dv, 0, root@, file@, descend, ls, seq![]) == scan_level(
                    dv,
                    i as int,
                    root@,
                    file@,
                    descend,
                    ls,
                    string_views(next@),
                ),
                level <= depth as u16,
                descend == (level < depth as u16),
                tool_search_spec(root@, file@, depth as nat, ls) == search_from(
                    level as nat,
                    dv,
                    root@,
                    file@,
                    depth as nat,
                    ls,
                ),
            decreases dirs.len() - i,
        {
            let d = dirs[i].as_str();
            assert(dv[i as int] == d@);
            match find_listing(listings, d) {
                None => {
                    return ToolSearchProgress::List(dirs[i].clone());
                },
                Some(k) => match &listings[k].entries {
                    Err(e) => {
                        if chars_equal(&chars_of(d), &chars_of(root)) {
                            let mut m = chars_of("无法搜索工具目录 ");
                            append_chars(&mut m, &chars_of(root));
                            append_chars(&mut m, &chars_of("："));
                            append_chars(&mut m, &chars_of(e.as_str()));
                            return ToolSearchProgress::Done(Err(string_of(&m)));
                        }
                    },
                    Ok(es) => {
                        let sorted = sorted_entries(es);
                        match scan_tool_entries(&sorted, file, descend) {
                            Ok(p) => {
                                return ToolSearchProgress::Done(Ok(Some(p)));
                            },
                            Err(ds) => {
                                let ghost before = string_views(next@);
                                let mut j: usize = 0;
                                while j < ds.len()
                                    invariant
                                        j <= ds.len(),
                                        string_views(next@) == before + string_views(ds@).take(j as int),
                                    decreases ds.len() - j,
                                {
                                    let x = ds[j].clone();
                                    assert(x@ == ds@[j as int]@);
                                    let ghost prev = next@;
                                    next.push(x);
                                    assert(string_views(next@) =~= string_views(prev).push(x@));
                                    assert(string_views(ds@).take(j + 1) =~= string_views(ds@).take(j as int).push(
                                        ds@[j as int]@,
                                    ));
                                    assert(string_views(next@) =~= before + string_views(ds@).take(j + 1));
                                    j += 1;
                                }
                                assert(string_views(ds@).take(ds.len() as int) =~= string_views(ds@));
                            },
                        }
                    },
                },
            }
            i += 1;
        }
        dirs = next;
        level = level + 1;
    }
    ToolSearchProgress::Done(Ok(None))
}

// ---------------------------------------------------------------------------
// The shallowest match wins
// ---------------------------------------------------------------------------

/// An entry that is the tool: a file whose name is `file`, without case.
pub open spec fn is_tool_entry(e: DirEntryFacts, file: Seq<char>) -> bool {
    e.is_file && lower_seq(e.name@) == lower_seq(file)
}

/// Directory `d` was listed and holds the tool.
pub open spec fn dir_has_tool(ls: Seq<ToolListing>, d: Seq<char>, file: Seq<char>) -> bool {
    match listing_of(ls, d) {
        Some(Ok(es)) => exists|m: int| 0 <= m < es.len() && is_tool_entry(#[trigger] es[m], file),
        _ => false,
    }
}

/// Directory `d` was listed and holds the tool at path `p`.
pub open spec fn dir_has_tool_at(ls: Seq<ToolListing>, d: Seq<char>, file: Seq<char>, p: Seq<char>) -> bool {
    match listing_of(ls, d) {
        Some(Ok(es)) => exists|m: int| 0 <= m < es.len() && is_tool_entry(#[trigger] es[m], file) && es[m].path@ == p,
        _ => false,
    }
}

/// The directories of level `j` of the search.
pub open spec fn level_dirs(root: Seq<char>, file: Seq<char>, depth: nat, ls: Seq<ToolListing>, j: nat) -> Seq<Seq<char>>
    decreases j,
{
    if j == 0 {
        seq![root]
    } else {
        match scan_level(level_dirs(root, file, depth, ls, (j - 1) as nat), 0, root, file, ((j - 1) as nat) < depth, ls, seq![]) {
            LevelOutcome::Next(ns) => ns,
            _ => seq![],
        }
    }
}

proof fn lemma_scan_spec_found(es: Seq<DirEntryFacts>, file: Seq<char>, descend: bool, p: Seq<char>)
    requires
        tool_scan_spec(es, file, descend) == Ok::<Seq<char>, Seq<Seq<char>>>(p),
    ensures
        exists|m: int| 0 <= m < es.len() && is_tool_entry(#[trigger] es[m], file) && es[m].path@ == p,
    decreases es.len(),
{
    let d = es.drop_last();
    match tool_scan_spec(d, file, descend) {
        Ok(q) => {
            lemma_scan_spec_found(d, file, descend, p);
            let m = choose|m: int| 0 <= m < d.len() && is_tool_entry(#[trigger] d[m], file) && d[m].path@ == p;
            assert(es[m] == d[m]);
        },
        Err(_) => {
            assert(is_tool_entry(es[es.len() - 1], file));
        },
    }
}

proof fn lemma_scan_spec_none(es: Seq<DirEntryFacts>, file: Seq<char>, descend: bool)
    requires
        tool_scan_spec(es, file, descend) is Err,
    ensures
        forall|m: int| 0 <= m < es.len() ==> !is_tool_entry(#[trigger] es[m], file),
    decreases es.len(),
{
    if es.len() > 0 {
        let d = es.drop_last();
        lemma_scan_spec_none(d, file, descend);
        assert forall|m: int| 0 <= m < es.len() implies !is_tool_entry(#[trigger] es[m], file) by {
            if m < d.len() {
                assert(es[m] == d[m]);
            }
        }
    }
}

proof fn lemma_scan_level_found(
    dirs: Seq<Seq<char>>,
    i: int,
    root: Seq<char>,
    file: Seq<char>,
    descend: bool,
    ls: Seq<ToolListing>,
    acc: Seq<Seq<char>>,
    p: Seq<char>,
)
    requires
        scan_level(dirs, i, root, file, descend, ls, acc) == LevelOutcome::Found(p),
    ensures
        exists|k: int| 0 <= k < dirs.len() && dir_has_tool_at(ls, #[trigger] dirs[k], file, p),
    decreases dirs.len() - i,
{
    if 0 <= i < dirs.len() {
        match listing_of(ls, dirs[i]) {
            None => {},
            Some(Err(e)) => {
                lemma_scan_level_found(dirs, i + 1, root, file, descend, ls, acc, p);
            },
            Some(Ok(es)) => match tool_scan_spec(sort_entries(es), file, descend) {
                Ok(q) => {
                    let s = sort_entries(es);
                    lemma_scan_spec_found(s, file, descend, p);
                    let m = choose|m: int| 0 <= m < s.len() && is_tool_entry(#[trigger] s[m], file) && s[m].path@ == p;
                    lemma_sort_entries_contains(es, s[m]);
                    assert(s.contains(s[m]));
                    let n = choose|n: int| 0 <= n < es.len() && es[n] == s[m];
                    assert(is_tool_entry(es[n], file) && es[n].path@ == p);
                    assert(dir_has_tool_at(ls, dirs[i], file, p));
                },
                Err(ds) => {
                    lemma_scan_level_found(dirs, i + 1, root, file, descend, ls, acc + ds, p);
                },
            },
        }
    }
}

proof fn lemma_scan_level_next(
    dirs: Seq<Seq<char>>,
    i: int,
    root: Seq<char>,
    file: Seq<char>,
    descend: bool,
    ls: Seq<ToolListing>,
    acc: Seq<Seq<char>>,
)
    requires
        0 <= i,
        scan_level(dirs, i, root, file, descend, ls, acc) is Next,
    ensures
        forall|k: int| i <= k < dirs.len() ==> !dir_has_tool(ls, #[trigger] dirs[k], file),
    decreases dirs.len() - i,
{
    if i < dirs.len() {
        match listing_of(ls, dirs[i]) {
            None => {},
            Some(Err(e)) => {
                lemma_scan_level_next(dirs, i + 1, root, file, descend, ls, acc);
            },
            Some(Ok(es)) => match tool_scan_spec(sort_entries(es), file, descend) {
                Ok(q) => {},
                Err(ds) => {
                    lemma_scan_level_next(dirs, i + 1, root, file, descend, ls, acc + ds);
                    let s = sort_entries(es);
                    lemma_scan_spec_none(s, file, descend);
                    assert(!dir_has_tool(ls, dirs[i], file)) by {
                        if dir_has_tool(ls, dirs[i], file) {
                            let n = choose|n: int| 0 <= n < es.len() && is_tool_entry(#[trigger] es[n], file);
                            assert(es.contains(es[n]));
                            lemma_sort_entries_contains(es, es[n]);
                            let m = choose|m: int| 0 <= m < s.len() && s[m] == es[n];
                            assert(!is_tool_entry(s[m], file));
                        }
                    }
                },
            },
        }
    }
}

proof fn lemma_search_from_shallowest(
    level: nat,
    root: Seq<char>,
    file: Seq<char>,
    depth: nat,
    ls: Seq<ToolListing>,
    p: Seq<char>,
)
    requires
        search_from(level, level_dirs(root, file, depth, ls, level), root, file, depth, ls) == SearchV::Done(
            Ok(Some(p)),
        ),
        forall|j: nat, i: int|
            j < level && 0 <= i < level_dirs(root, file, depth, ls, j).len() ==> !dir_has_tool(
                ls,
                #[trigger] level_dirs(root, file, depth, ls, j)[i],
                file,
            ),
    ensures
        exists|k: nat, i: int|
            {
                &&& k <= depth
                &&& 0 <= i < level_dirs(root, file, depth, ls, k).len()
                &&& dir_has_tool_at(ls, #[trigger] level_dirs(root, file, depth, ls, k)[i], file, p)
                &&& forall|j: nat, i2: int|
                    j < k && 0 <= i2 < level_dirs(root, file, depth, ls, j).len() ==> !dir_has_tool(
                        ls,
                        #[trigger] level_dirs(root, file, depth, ls, j)[i2],
                        file,
                    )
            },
    decreases depth + 1 - level,
{
    let dirs = level_dirs(root, file, depth, ls, level);
    if level <= depth {
        match scan_level(dirs, 0, root, file, level < depth, ls, seq![]) {
            LevelOutcome::Found(q) => {
                lemma_scan_level_found(dirs, 0, root, file, level < depth, ls, seq![], p);
                let i = choose|i: int| 0 <= i < dirs.len() && dir_has_tool_at(ls, #[trigger] dirs[i], file, p);
                assert(dir_has_tool_at(ls, level_dirs(root, file, depth, ls, level)[i], file, p));
            },
            LevelOutcome::Next(ns) => {
                lemma_scan_level_next(dirs, 0, root, file, level < depth, ls, seq![]);
                assert(level_dirs(root, file, depth, ls, level + 1) == ns);
                assert forall|j: nat, i: int|
                    j < level + 1 && 0 <= i < level_dirs(root, file, depth, ls, j).len() implies !dir_has_tool(
                    ls,
                    #[trigger] level_dirs(root, file, depth, ls, j)[i],
                    file,
                ) by {
                    if j == level {
                        assert(level_dirs(root, file, depth, ls, j)[i] == dirs[i]);
                    }
                }
                lemma_search_from_shallowest(level + 1, root, file, depth, ls, p);
            },
            _ => {},
        }
    }
}

/// The search takes the shallowest match: a tool found lies in a directory
/// of some level `k` no deeper than the chosen depth, and no directory of a
/// level above `k` holds the tool.
pub proof fn law_tool_search_shallowest(root: Seq<char>, file: Seq<char>, depth: nat, ls: Seq<ToolListing>, p: Seq<char>)
    requires
        tool_search_spec(root, file, depth, ls) == SearchV::Done(Ok(Some(p))),
    ensures
        exists|k: nat, i: int|
            {
                &&& k <= depth
                &&& 0 <= i < level_dirs(root, file, depth, ls, k).len()
                &&& dir_has_tool_at(ls, #[trigger] level_dirs(root, file, depth, ls, k)[i], file, p)
                &&& forall|j: nat, i2: int|
                    j < k && 0 <= i2 < level_dirs(root, file, depth, ls, j).len() ==> !dir_has_tool(
                        ls,
                        #[trigger] level_dirs(root, file, depth, ls, j)[i2],
                        file,
                    )
            },
{
    assert(level_dirs(root, file, depth, ls, 0) == seq![root]);
    lemma_search_from_shallowest(0, root, file, depth, ls, p);
}

} // verus!
